use base64::Engine as _;
use ed25519_dalek::Signer;
use murmer_server::admin::{admin_authorized, apply_role_assignment, RoleBody};
use murmer_server::auth::AuthError;
use murmer_server::engine::{
    chat_rate_gate, create_channel_decide, delete_channel_decide, delete_message_decide,
    delete_message_permission, ephemeral_delay_ms, gate_frame, handle_disconnect, handle_join,
    handle_presence, handle_status_update, handle_voice_join, handle_voice_leave, install_role,
    load_history_limit, react_validate, search_request, stamp_chat, BitrateField, FrameError,
    Hub, HubConfig, PresenceOutcome, Session, VoiceCreateOutcome, VoiceUpdateOutcome,
    handle_create_voice_channel, handle_delete_voice_channel, handle_update_voice_channel,
};
use murmer_server::engine::SearchDecision;
use murmer_server::history::MessageLog;
use murmer_server::reactions::get_reaction_summary;

const NOW: i64 = 1_700_000_000_000;

fn open_config() -> HubConfig {
    HubConfig {
        password: None,
        admin_token_configured: false,
        max_messages_per_minute: 30,
        max_auth_attempts_per_minute: 5,
        nonce_expiry_ms: 300_000,
    }
}

fn locked_config() -> HubConfig {
    HubConfig {
        password: Some("open sesame".to_string()),
        admin_token_configured: false,
        max_messages_per_minute: 30,
        max_auth_attempts_per_minute: 5,
        nonce_expiry_ms: 300_000,
    }
}

fn signed_presence() -> (String, String, String) {
    let secret = [7u8; 32];
    let signing = ed25519_dalek::SigningKey::from_bytes(&secret);
    let ts = NOW.to_string();
    let sig = signing.sign(ts.as_bytes());
    let pk_b64 = base64::engine::general_purpose::STANDARD.encode(signing.verifying_key().to_bytes());
    let sig_b64 = base64::engine::general_purpose::STANDARD.encode(sig.to_bytes());
    (pk_b64, sig_b64, ts)
}

#[test]
fn clean_auth_registers_user() {
    // Scenario: a server with a password; a valid signed presence frame
    // authenticates and registers alice as online.
    let cfg = locked_config();
    let mut hub = Hub::new();
    let mut session = Session::new(true);
    assert!(!session.authenticated);
    let (pk, sig, ts) = signed_presence();

    let outcome = handle_presence(
        &cfg,
        &mut hub,
        &mut session,
        &Some("alice".to_string()),
        &Some("open sesame".to_string()),
        &Some(pk.clone()),
        &Some(sig.clone()),
        &Some(ts.clone()),
        "127.0.0.1",
        NOW,
    );
    match outcome {
        PresenceOutcome::Registered { registered, role_key } => {
            assert!(registered);
            assert_eq!(role_key, Some(pk.clone()));
        }
        _ => panic!("expected registration"),
    }
    assert!(session.authenticated);
    let (online, all) = hub.registry.get_user_lists();
    assert_eq!(online, vec!["alice".to_string()]);
    assert_eq!(all, vec!["alice".to_string()]);
}

#[test]
fn replayed_presence_is_rejected() {
    // Scenario: the exact same presence frame repeated within the nonce
    // window answers replay-attack.
    let cfg = locked_config();
    let mut hub = Hub::new();
    let (pk, sig, ts) = signed_presence();

    let mut first = Session::new(true);
    let outcome = handle_presence(
        &cfg,
        &mut hub,
        &mut first,
        &Some("alice".to_string()),
        &Some("open sesame".to_string()),
        &Some(pk.clone()),
        &Some(sig.clone()),
        &Some(ts.clone()),
        "127.0.0.1",
        NOW,
    );
    assert!(matches!(outcome, PresenceOutcome::Registered { .. }));

    let mut second = Session::new(true);
    let outcome = handle_presence(
        &cfg,
        &mut hub,
        &mut second,
        &Some("alice".to_string()),
        &Some("open sesame".to_string()),
        &Some(pk),
        &Some(sig),
        &Some(ts),
        "127.0.0.1",
        NOW + 1_000,
    );
    assert!(matches!(outcome, PresenceOutcome::AuthFailed(AuthError::ReplayAttack)));
}

#[test]
fn auth_error_codes_are_specific() {
    let cfg = locked_config();
    let (pk, sig, ts) = signed_presence();

    // Wrong password.
    let mut hub = Hub::new();
    let mut s = Session::new(true);
    let r = handle_presence(
        &cfg,
        &mut hub,
        &mut s,
        &Some("alice".into()),
        &Some("wrong".into()),
        &Some(pk.clone()),
        &Some(sig.clone()),
        &Some(ts.clone()),
        "1.2.3.4",
        NOW,
    );
    match r {
        PresenceOutcome::AuthFailed(e) => assert_eq!(e.code(), "invalid-password"),
        _ => panic!("expected failure"),
    }

    // Bad base64.
    let mut hub = Hub::new();
    let mut s = Session::new(true);
    let r = handle_presence(
        &cfg,
        &mut hub,
        &mut s,
        &Some("alice".into()),
        &Some("open sesame".into()),
        &Some("!!notbase64!!".into()),
        &Some(sig.clone()),
        &Some(ts.clone()),
        "1.2.3.4",
        NOW,
    );
    match r {
        PresenceOutcome::AuthFailed(e) => assert_eq!(e.code(), "invalid-encoding"),
        _ => panic!("expected failure"),
    }

    // Wrong key length (16 decoded bytes).
    let mut hub = Hub::new();
    let mut s = Session::new(true);
    let short = base64::engine::general_purpose::STANDARD.encode([1u8; 16]);
    let r = handle_presence(
        &cfg,
        &mut hub,
        &mut s,
        &Some("alice".into()),
        &Some("open sesame".into()),
        &Some(short),
        &Some(sig.clone()),
        &Some(ts.clone()),
        "1.2.3.4",
        NOW,
    );
    match r {
        PresenceOutcome::AuthFailed(e) => assert_eq!(e.code(), "invalid-key-length"),
        _ => panic!("expected failure"),
    }

    // Signature of the wrong length.
    let mut hub = Hub::new();
    let mut s = Session::new(true);
    let stubby = base64::engine::general_purpose::STANDARD.encode([1u8; 8]);
    let r = handle_presence(
        &cfg,
        &mut hub,
        &mut s,
        &Some("alice".into()),
        &Some("open sesame".into()),
        &Some(pk.clone()),
        &Some(stubby),
        &Some(ts.clone()),
        "1.2.3.4",
        NOW,
    );
    match r {
        PresenceOutcome::AuthFailed(e) => assert_eq!(e.code(), "invalid-signature-format"),
        _ => panic!("expected failure"),
    }

    // A valid signature over a different message.
    let mut hub = Hub::new();
    let mut s = Session::new(true);
    let other = ed25519_dalek::SigningKey::from_bytes(&[9u8; 32]);
    let bad_sig =
        base64::engine::general_purpose::STANDARD.encode(other.sign(b"something else").to_bytes());
    let r = handle_presence(
        &cfg,
        &mut hub,
        &mut s,
        &Some("alice".into()),
        &Some("open sesame".into()),
        &Some(pk.clone()),
        &Some(bad_sig),
        &Some(ts.clone()),
        "1.2.3.4",
        NOW,
    );
    match r {
        PresenceOutcome::AuthFailed(e) => assert_eq!(e.code(), "invalid-signature"),
        _ => panic!("expected failure"),
    }

    // A stale timestamp.
    let mut hub = Hub::new();
    let mut s = Session::new(true);
    let r = handle_presence(
        &cfg,
        &mut hub,
        &mut s,
        &Some("alice".into()),
        &Some("open sesame".into()),
        &Some(pk.clone()),
        &Some(sig.clone()),
        &Some((NOW - 120_000).to_string()),
        "1.2.3.4",
        NOW,
    );
    match r {
        PresenceOutcome::AuthFailed(e) => assert_eq!(e.code(), "invalid-timestamp"),
        _ => panic!("expected failure"),
    }
}

#[test]
fn disconnect_marks_user_offline_but_known() {
    let cfg = open_config();
    let mut hub = Hub::new();
    let mut session = Session::new(false);
    let r = handle_presence(
        &cfg,
        &mut hub,
        &mut session,
        &Some("alice".to_string()),
        &None,
        &None,
        &None,
        &None,
        "127.0.0.1",
        NOW,
    );
    assert!(matches!(r, PresenceOutcome::Registered { registered: true, .. }));

    handle_disconnect(&mut hub, &Some("alice".to_string()));
    let (online, all) = hub.registry.get_user_lists();
    assert!(online.is_empty());
    assert_eq!(all, vec!["alice".to_string()]);
}

#[test]
fn unauthenticated_frames_are_gated() {
    assert_eq!(gate_frame(false, "chat"), Err(FrameError::Unauthenticated));
    assert_eq!(gate_frame(false, "presence"), Ok(()));
    assert_eq!(gate_frame(true, "chat"), Ok(()));
    assert_eq!(FrameError::Unauthenticated.code(), "unauthenticated");
}

#[test]
fn voice_join_is_exclusive() {
    // Scenario: alice joins room A, then room B; she leaves A implicitly,
    // and the handler names A so its emptied member list can be broadcast.
    let mut hub = Hub::new();
    let mut session = Session::new(false);
    let (created, vacated) = handle_voice_join(
        &mut hub,
        &mut session,
        &Some("alice".to_string()),
        &Some("A".to_string()),
    );
    assert!(created);
    assert_eq!(vacated, None);
    assert_eq!(hub.voice.members_of("A"), vec!["alice".to_string()]);

    let (created, vacated) = handle_voice_join(
        &mut hub,
        &mut session,
        &Some("alice".to_string()),
        &Some("B".to_string()),
    );
    assert!(created);
    assert_eq!(vacated, Some("A".to_string()));
    assert_eq!(hub.voice.members_of("A"), Vec::<String>::new());
    assert_eq!(hub.voice.members_of("B"), vec!["alice".to_string()]);
    assert_eq!(session.voice, Some("B".to_string()));

    handle_voice_leave(&mut hub, &mut session, &Some("alice".to_string()), &Some("B".to_string()));
    assert_eq!(hub.voice.members_of("B"), Vec::<String>::new());
    assert_eq!(session.voice, None);
}

#[test]
fn voice_rooms_are_created_with_defaults() {
    let mut hub = Hub::new();
    let mut session = Session::new(false);
    let _ = handle_voice_join(&mut hub, &mut session, &Some("alice".to_string()), &Some("lounge".to_string()));
    let descriptor = hub.voice.descriptor_of("lounge").expect("room exists");
    assert_eq!(descriptor.0, "standard");
    assert_eq!(descriptor.1, Some(64_000));
}

#[test]
fn general_channel_is_undeletable() {
    // Even a privileged user cannot delete `general`.
    let cfg = HubConfig { admin_token_configured: true, ..open_config() };
    let mut hub = Hub::new();
    hub.registry.register_user("alice");
    install_role(&mut hub, "alice", "Admin".to_string(), None);

    let r = delete_channel_decide(
        &hub,
        &cfg,
        &Some("general".to_string()),
        &Some("alice".to_string()),
    );
    assert_eq!(r, Err(FrameError::CannotDeleteGeneral));

    // Without a manage role, the same frame still reports the same error.
    let r = delete_channel_decide(
        &hub,
        &cfg,
        &Some("general".to_string()),
        &Some("bob".to_string()),
    );
    assert_eq!(r, Err(FrameError::CannotDeleteGeneral));

    // Another channel fails on the permission instead.
    let r = delete_channel_decide(&hub, &cfg, &Some("dev".to_string()), &Some("bob".to_string()));
    assert_eq!(r, Err(FrameError::ChannelPermissionDenied));
}

#[test]
fn channel_creation_checks_name_and_permission() {
    let cfg = open_config();
    let hub = Hub::new();
    let r = create_channel_decide(&hub, &cfg, &Some("dev".to_string()), &Some("alice".to_string()));
    assert_eq!(r, Ok(Some("dev".to_string())));
    let r = create_channel_decide(
        &hub,
        &cfg,
        &Some(" bad".to_string()),
        &Some("alice".to_string()),
    );
    assert_eq!(r, Err(FrameError::InvalidChannelName));

    let locked = HubConfig { admin_token_configured: true, ..open_config() };
    let r = create_channel_decide(
        &hub,
        &locked,
        &Some("dev".to_string()),
        &Some("alice".to_string()),
    );
    assert_eq!(r, Err(FrameError::ChannelPermissionDenied));
}

#[test]
fn history_pagination_returns_largest_ids_in_order() {
    let mut log = MessageLog::new();
    for body in ["one", "two", "three", "four", "five"] {
        log.insert(body.to_string());
    }
    let page = log.page_chronological(Some(4), 2);
    assert_eq!(
        page,
        vec![(2, "two".to_string()), (3, "three".to_string())]
    );
    let page = log.page_chronological(None, 3);
    assert_eq!(
        page,
        vec![(3, "three".to_string()), (4, "four".to_string()), (5, "five".to_string())]
    );
}

#[test]
fn message_ids_start_at_one_and_delete_reports_existence() {
    let mut log = MessageLog::new();
    let id = log.insert("{\"body\":\"hello\"}".to_string());
    assert_eq!(id, 1);
    let id2 = log.insert("{\"body\":\"again\"}".to_string());
    assert_eq!(id2, 2);
    assert!(log.delete(1));
    assert!(!log.delete(1));
    assert!(log.get(2).is_some());
    assert!(log.get(1).is_none());
}

#[test]
fn reaction_summary_is_sorted_and_unique() {
    // Reaction round trip: add produces the projection, remove empties it.
    let rows = vec![("👍".to_string(), "alice".to_string())];
    let summary = get_reaction_summary(&rows);
    assert_eq!(summary, vec![("👍".to_string(), vec!["alice".to_string()])]);

    let rows: Vec<(String, String)> = Vec::new();
    assert_eq!(get_reaction_summary(&rows), Vec::<(String, Vec<String>)>::new());

    let rows = vec![
        ("👍".to_string(), "bob".to_string()),
        ("👍".to_string(), "alice".to_string()),
        ("👍".to_string(), "bob".to_string()),
        ("🎉".to_string(), "carol".to_string()),
    ];
    let summary = get_reaction_summary(&rows);
    assert_eq!(
        summary,
        vec![
            ("👍".to_string(), vec!["alice".to_string(), "bob".to_string()]),
            ("🎉".to_string(), vec!["carol".to_string()]),
        ]
    );
}

#[test]
fn react_frames_are_validated() {
    let user = Some("alice".to_string());
    let ok = react_validate(&user, &Some(1), &Some("add".to_string()), &Some("👍".to_string()))
        .expect("valid");
    assert_eq!(ok.message_id, 1);
    assert!(ok.add);
    assert_eq!(ok.emoji, "👍");

    let r = react_validate(&None, &Some(1), &Some("add".to_string()), &Some("👍".to_string()));
    assert_eq!(r.err().map(|e| e.code()), Some("not-authenticated"));
    let r = react_validate(&user, &None, &Some("add".to_string()), &Some("👍".to_string()));
    assert_eq!(r.err().map(|e| e.code()), Some("invalid-message-id"));
    let r = react_validate(&user, &Some(1), &None, &Some("👍".to_string()));
    assert_eq!(r.err().map(|e| e.code()), Some("invalid-reaction-action"));
    let r = react_validate(&user, &Some(1), &Some("toggle".to_string()), &Some("👍".to_string()));
    assert_eq!(r.err().map(|e| e.code()), Some("invalid-reaction-action"));
    let r = react_validate(&user, &Some(1), &Some("add".to_string()), &Some("  ".to_string()));
    assert_eq!(r.err().map(|e| e.code()), Some("invalid-emoji"));
    let r = react_validate(
        &user,
        &Some(1),
        &Some("add".to_string()),
        &Some("seventeen-chars-xx".to_string()),
    );
    assert_eq!(r.err().map(|e| e.code()), Some("invalid-emoji"));
    let r = react_validate(&user, &Some(1 << 40), &Some("add".to_string()), &Some("👍".to_string()));
    assert_eq!(r.err().map(|e| e.code()), Some("invalid-message-id"));
}

#[test]
fn delete_message_rules() {
    assert_eq!(delete_message_decide(&None, &Some(1)), Err(FrameError::NotAuthenticated));
    assert_eq!(
        delete_message_decide(&Some("alice".to_string()), &None),
        Err(FrameError::InvalidMessageId)
    );
    assert_eq!(delete_message_decide(&Some("alice".to_string()), &Some(42)), Ok(42));

    assert_eq!(
        delete_message_permission("dev", "general", &Some("alice".to_string()), "alice", false),
        Err(FrameError::MessageWrongChannel)
    );
    assert_eq!(
        delete_message_permission("general", "general", &Some("alice".to_string()), "alice", false),
        Ok(())
    );
    assert_eq!(
        delete_message_permission("general", "general", &Some("bob".to_string()), "alice", false),
        Err(FrameError::MessagePermissionDenied)
    );
    assert_eq!(
        delete_message_permission("general", "general", &Some("bob".to_string()), "alice", true),
        Ok(())
    );
}

#[test]
fn status_updates_are_normalized() {
    let mut hub = Hub::new();
    hub.registry.register_user("alice");
    let r = handle_status_update(&mut hub, &Some("alice".to_string()), &Some("AWAY".to_string()));
    assert_eq!(r, Ok("away"));
    let r = handle_status_update(&mut hub, &Some("alice".to_string()), &Some("naptime".to_string()));
    assert_eq!(r.err().map(|e| e.code()), Some("invalid-status"));
    let r = handle_status_update(&mut hub, &None, &Some("away".to_string()));
    assert_eq!(r.err().map(|e| e.code()), Some("not-authenticated"));
}

#[test]
fn chat_rate_gate_limits_per_user() {
    let mut hub = Hub::new();
    let user = Some("alice".to_string());
    assert!(chat_rate_gate(&mut hub, &user, NOW, 1));
    assert!(!chat_rate_gate(&mut hub, &user, NOW + 1, 1));
    assert_eq!(FrameError::MessageRateLimit.code(), "message-rate-limit");
}

#[test]
fn chat_stamps_normalize_timestamp_and_time() {
    let stamp = stamp_chat(&Some("2024-01-01T00:00:00Z".to_string()), &None, false, NOW);
    assert_eq!(stamp.timestamp_ms, 1_704_067_200_000);
    assert_eq!(stamp.timestamp_str, Some("2024-01-01T00:00:00+00:00".to_string()));
    assert_eq!(stamp.time_str, Some("00:00:00".to_string()));
    assert_eq!(stamp.expires_at_ms, None);

    // A malformed timestamp falls back to the current time.
    let stamp = stamp_chat(&Some("yesterday".to_string()), &None, true, 1_704_067_200_000);
    assert_eq!(stamp.timestamp_ms, 1_704_067_200_000);
    assert_eq!(stamp.time_str, None);
}

#[test]
fn ephemeral_expiry_is_clamped() {
    // An expiry five seconds out stays as given.
    let stamp = stamp_chat(
        &Some("2024-01-01T00:00:00Z".to_string()),
        &Some("2024-01-01T00:00:05Z".to_string()),
        true,
        NOW,
    );
    assert_eq!(stamp.expires_at_ms, Some(1_704_067_205_000));
    assert_eq!(stamp.expires_at_str, Some("2024-01-01T00:00:05+00:00".to_string()));

    // One second out is raised to the five-second minimum.
    let stamp = stamp_chat(
        &Some("2024-01-01T00:00:00Z".to_string()),
        &Some("2024-01-01T00:00:01Z".to_string()),
        true,
        NOW,
    );
    assert_eq!(stamp.expires_at_ms, Some(1_704_067_205_000));

    // Two days out is lowered to the one-day maximum.
    let stamp = stamp_chat(
        &Some("2024-01-01T00:00:00Z".to_string()),
        &Some("2024-01-03T00:00:00Z".to_string()),
        true,
        NOW,
    );
    assert_eq!(stamp.expires_at_ms, Some(1_704_067_200_000 + 86_400_000));

    // The deletion task sleeps until the expiry, never negatively.
    assert_eq!(ephemeral_delay_ms(NOW + 5_000, NOW), 5_000);
    assert_eq!(ephemeral_delay_ms(NOW - 5_000, NOW), 0);
    assert_eq!(ephemeral_delay_ms(NOW + 200_000_000, NOW), 86_400_000);
}

#[test]
fn history_limits_are_capped() {
    assert_eq!(load_history_limit(None), 50);
    assert_eq!(load_history_limit(Some(10)), 10);
    assert_eq!(load_history_limit(Some(1_000)), 200);
}

#[test]
fn search_requests_are_validated() {
    let r = search_request(&None, &None, "general", &None);
    assert!(matches!(r, SearchDecision::MissingQuery));
    let r = search_request(&Some("  ".to_string()), &None, "general", &None);
    assert!(matches!(r, SearchDecision::EmptyQuery));
    let r = search_request(&Some("hello".to_string()), &Some(" bad name!".to_string()), "general", &None);
    assert!(matches!(r, SearchDecision::InvalidChannel));
    match search_request(&Some(" hello ".to_string()), &None, "general", &Some(900)) {
        SearchDecision::Run { channel, query, limit } => {
            assert_eq!(channel, "general");
            assert_eq!(query, "hello");
            assert_eq!(limit, 200);
        }
        _ => panic!("expected a search"),
    }
}

#[test]
fn voice_channel_management_validates_config() {
    let cfg = open_config();
    let mut hub = Hub::new();
    let alice = Some("alice".to_string());

    let r = handle_create_voice_channel(
        &mut hub,
        &cfg,
        &Some("lounge".to_string()),
        &alice,
        &Some("  hi-fi ".to_string()),
        &BitrateField::Value(128_000),
    );
    match r {
        VoiceCreateOutcome::Done { name, created, quality, bitrate } => {
            assert_eq!(name, "lounge");
            assert!(created);
            assert_eq!(quality, "hi-fi");
            assert_eq!(bitrate, Some(128_000));
        }
        _ => panic!("expected creation"),
    }

    let r = handle_create_voice_channel(
        &mut hub,
        &cfg,
        &Some("den".to_string()),
        &alice,
        &None,
        &BitrateField::Value(999_999),
    );
    assert!(matches!(r, VoiceCreateOutcome::Error(FrameError::InvalidVoiceBitrate)));

    let r = handle_update_voice_channel(
        &hub,
        &cfg,
        &Some("lounge".to_string()),
        &alice,
        &None,
        &BitrateField::Null,
    );
    match r {
        VoiceUpdateOutcome::Apply { name, quality, bitrate } => {
            assert_eq!(name, "lounge");
            assert_eq!(quality, "hi-fi");
            assert_eq!(bitrate, None);
        }
        _ => panic!("expected an update"),
    }

    let r = handle_update_voice_channel(
        &hub,
        &cfg,
        &Some("nowhere".to_string()),
        &alice,
        &None,
        &BitrateField::Absent,
    );
    assert!(matches!(r, VoiceUpdateOutcome::Error(FrameError::UnknownVoiceChannel)));

    let mut session = Session::new(false);
    session.user = Some("alice".to_string());
    session.voice = Some("lounge".to_string());
    let r = handle_delete_voice_channel(&mut hub, &cfg, &Some("lounge".to_string()), &mut session);
    assert_eq!(r, Ok(Some("lounge".to_string())));
    assert_eq!(session.voice, None);
    assert!(hub.voice.descriptor_of("lounge").is_none());
}

#[test]
fn join_switches_the_session_channel() {
    let mut session = Session::new(false);
    assert_eq!(session.channel, "general");
    handle_join(&mut session, "dev");
    assert_eq!(session.channel, "dev");
    let moved = murmer_server::engine::migrate_after_channel_delete(&mut session, "dev");
    assert!(moved);
    assert_eq!(session.channel, "general");
}

#[test]
fn admin_token_must_match_exactly() {
    let token = Some("tok-12345".to_string());
    assert!(admin_authorized(&token, "tok-12345"));
    assert!(!admin_authorized(&token, "tok-1234"));
    assert!(!admin_authorized(&None, "anything"));
}

#[test]
fn role_assignment_updates_all_bound_sessions() {
    let mut hub = Hub::new();
    hub.registry.register_user("alice");
    hub.registry.record_key("alice", "KEYA".to_string());
    hub.registry.register_user("bob");
    hub.registry.record_key("bob", "KEYB".to_string());
    hub.registry.register_user("ally");
    hub.registry.record_key("ally", "KEYA".to_string());

    let body = RoleBody { key: "KEYA".to_string(), role: "Mod".to_string(), color: None };
    let (affected, color) = apply_role_assignment(&mut hub, &body);
    assert_eq!(affected, vec!["alice".to_string(), "ally".to_string()]);
    assert_eq!(color, Some("#10b981".to_string()));
}

#[test]
fn replay_detection_normalizes_the_timestamp() {
    // The replay key is built from the parsed timestamp, so a second frame
    // carrying "+<ts>" instead of "<ts>" still replays the same nonce.
    let cfg = locked_config();
    let mut hub = Hub::new();
    let secret = [3u8; 32];
    let signing = ed25519_dalek::SigningKey::from_bytes(&secret);
    let pk = base64::engine::general_purpose::STANDARD.encode(signing.verifying_key().to_bytes());
    let ts_plain = NOW.to_string();
    let ts_signed = format!("+{NOW}");
    let sig_plain = base64::engine::general_purpose::STANDARD.encode(signing.sign(ts_plain.as_bytes()).to_bytes());
    let sig_signed = base64::engine::general_purpose::STANDARD.encode(signing.sign(ts_signed.as_bytes()).to_bytes());

    let mut first = Session::new(true);
    let r = handle_presence(
        &cfg,
        &mut hub,
        &mut first,
        &Some("alice".into()),
        &Some("open sesame".into()),
        &Some(pk.clone()),
        &Some(sig_plain),
        &Some(ts_plain),
        "127.0.0.1",
        NOW,
    );
    assert!(matches!(r, PresenceOutcome::Registered { .. }));

    let mut second = Session::new(true);
    let r = handle_presence(
        &cfg,
        &mut hub,
        &mut second,
        &Some("alice".into()),
        &Some("open sesame".into()),
        &Some(pk),
        &Some(sig_signed),
        &Some(ts_signed),
        "127.0.0.1",
        NOW,
    );
    assert!(matches!(r, PresenceOutcome::AuthFailed(AuthError::ReplayAttack)));
}

#[test]
fn emoji_rejects_control_characters() {
    let user = Some("alice".to_string());
    let r = react_validate(&user, &Some(1), &Some("add".to_string()), &Some("a\u{7}b".to_string()));
    assert_eq!(r.err().map(|e| e.code()), Some("invalid-emoji"));
}

#[test]
fn emoji_limits_are_in_bytes_and_reject_unicode_whitespace() {
    let user = Some("alice".to_string());
    // Five four-byte emoji are sixteen characters short but twenty bytes long.
    let r = react_validate(
        &user,
        &Some(1),
        &Some("add".to_string()),
        &Some("\u{1F44D}\u{1F44D}\u{1F44D}\u{1F44D}\u{1F44D}".to_string()),
    );
    assert_eq!(r.err().map(|e| e.code()), Some("invalid-emoji"));
    // Four of them fit.
    assert!(react_validate(
        &user,
        &Some(1),
        &Some("add".to_string()),
        &Some("\u{1F44D}\u{1F44D}\u{1F44D}\u{1F44D}".to_string()),
    )
    .is_ok());
    // A non-breaking space inside the emoji is whitespace.
    let r = react_validate(&user, &Some(1), &Some("add".to_string()), &Some("a\u{A0}b".to_string()));
    assert_eq!(r.err().map(|e| e.code()), Some("invalid-emoji"));
}
