//! Per-frame decisions of the dispatch engine: the authentication gate,
//! user registration, channel and voice-channel management, chat
//! normalization, message deletion, reactions, status updates and the
//! disconnect cleanup.
//!
//! Each function is a pure decision or a transition of the shared hub
//! state; socket and database work happen outside and hand results back in.

use vstd::prelude::*;

use crate::auth::{authenticate, spec_authenticate, view_opt, AuthError};
use crate::clock::{
    format_rfc3339_millis, format_time_hms, hms_string_of, parse_rfc3339_millis,
    rfc3339_millis_of, rfc3339_string_of,
};
use crate::limiter::{check_message_rate_limit, RateLimiter};
use crate::registry::Registry;
use crate::roles::{default_color, spec_default_color, RoleInfo};
use crate::strutil::{str_eq, trim_spaces, trimmed};
use crate::validate::{
    normalize_status, spec_status_of, spec_valid_emoji, spec_valid_name, spec_valid_quality,
    validate_bitrate, validate_channel_name, validate_emoji, validate_user_name,
    validate_voice_quality, MAX_ALLOWED_VOICE_BITRATE, MAX_CHANNEL_NAME_LEN, MAX_USER_NAME_LEN,
};
use crate::voice::VoiceRooms;

verus! {

/// Default number of messages sent for a history request.
pub const DEFAULT_HISTORY_LIMIT: i64 = 50;

/// Maximum number of messages served by one history request.
pub const MAX_HISTORY_LIMIT: i64 = 200;

/// Maximum number of search results served by one request.
pub const MAX_SEARCH_RESULTS: i64 = 200;

/// Minimum lifetime of an ephemeral message, in seconds.
pub const MIN_EPHEMERAL_SECONDS: i64 = 5;

/// Maximum lifetime of an ephemeral message, in seconds.
pub const MAX_EPHEMERAL_SECONDS: i64 = 86_400;

/// Per-connection session state.
pub struct Session {
    /// Whether the peer has authenticated.
    pub authenticated: bool,
    /// The registered user name, once presence succeeded.
    pub user: Option<String>,
    /// The current text channel.
    pub channel: String,
    /// The voice room this session believes it occupies.
    pub voice: Option<String>,
}

impl Session {
    /// A fresh session; it starts authenticated when the server is
    /// configured without a password.
    pub fn new(password_configured: bool) -> (r: Session)
        ensures
            r.authenticated == !password_configured,
            r.user is None,
            r.channel@ == "general"@,
            r.voice is None,
    {
        Session {
            authenticated: !password_configured,
            user: None,
            channel: "general".to_owned(),
            voice: None,
        }
    }
}

/// Server-wide configuration the dispatcher consults.
pub struct HubConfig {
    /// Password demanded of new sessions, if any.
    pub password: Option<String>,
    /// Whether an admin token is configured (which restricts channel
    /// management to privileged roles).
    pub admin_token_configured: bool,
    /// Per-user message limit per minute.
    pub max_messages_per_minute: usize,
    /// Per-address authentication attempt limit per minute.
    pub max_auth_attempts_per_minute: usize,
    /// Nonce lifetime, in milliseconds.
    pub nonce_expiry_ms: i64,
}

/// The shared mutable state of the hub.
pub struct Hub {
    pub registry: Registry,
    pub voice: VoiceRooms,
    pub rate_limiter: RateLimiter,
}

impl Hub {
    pub open spec fn wf(&self) -> bool {
        self.registry.wf() && self.voice.wf() && self.rate_limiter.wf()
    }

    pub fn new() -> (r: Hub)
        ensures
            r.wf(),
            forall|c: Seq<char>| !r.voice.has_room(c),
            r.registry.online@ == Set::<Seq<char>>::empty(),
            r.registry.known@ == Set::<Seq<char>>::empty(),
    {
        Hub { registry: Registry::new(), voice: VoiceRooms::new(), rate_limiter: RateLimiter::new() }
    }
}

/// A recoverable error reported on one frame.
#[derive(PartialEq, Eq, Structural, Clone, Copy, Debug)]
pub enum FrameError {
    Unauthenticated,
    NotAuthenticated,
    InvalidUsername,
    InvalidChannelName,
    ChannelPermissionDenied,
    ChannelCreationFailed,
    ChannelDeletionFailed,
    CannotDeleteGeneral,
    MessageRateLimit,
    InvalidVoiceQuality,
    InvalidVoiceBitrate,
    UnknownVoiceChannel,
    VoiceChannelUpdateFailed,
    InvalidMessageId,
    InvalidReactionAction,
    InvalidEmoji,
    MessageNotFound,
    ReactionFailed,
    MessageWrongChannel,
    MessagePermissionDenied,
    MessageDeleteFailed,
    InvalidStatus,
}

impl FrameError {
    /// The stable error code sent to the peer.
    pub open spec fn spec_code(&self) -> Seq<char> {
        match self {
            FrameError::Unauthenticated => "unauthenticated"@,
            FrameError::NotAuthenticated => "not-authenticated"@,
            FrameError::InvalidUsername => "invalid-username"@,
            FrameError::InvalidChannelName => "invalid-channel-name"@,
            FrameError::ChannelPermissionDenied => "channel-permission-denied"@,
            FrameError::ChannelCreationFailed => "channel-creation-failed"@,
            FrameError::ChannelDeletionFailed => "channel-deletion-failed"@,
            FrameError::CannotDeleteGeneral => "cannot-delete-general"@,
            FrameError::MessageRateLimit => "message-rate-limit"@,
            FrameError::InvalidVoiceQuality => "invalid-voice-quality"@,
            FrameError::InvalidVoiceBitrate => "invalid-voice-bitrate"@,
            FrameError::UnknownVoiceChannel => "unknown-voice-channel"@,
            FrameError::VoiceChannelUpdateFailed => "voice-channel-update-failed"@,
            FrameError::InvalidMessageId => "invalid-message-id"@,
            FrameError::InvalidReactionAction => "invalid-reaction-action"@,
            FrameError::InvalidEmoji => "invalid-emoji"@,
            FrameError::MessageNotFound => "message-not-found"@,
            FrameError::ReactionFailed => "reaction-failed"@,
            FrameError::MessageWrongChannel => "message-wrong-channel"@,
            FrameError::MessagePermissionDenied => "message-permission-denied"@,
            FrameError::MessageDeleteFailed => "message-delete-failed"@,
            FrameError::InvalidStatus => "invalid-status"@,
        }
    }

    /// The stable error code sent to the peer.
    pub fn code(&self) -> (r: &'static str)
        ensures
            r@ == self.spec_code(),
    {
        match self {
            FrameError::Unauthenticated => "unauthenticated",
            FrameError::NotAuthenticated => "not-authenticated",
            FrameError::InvalidUsername => "invalid-username",
            FrameError::InvalidChannelName => "invalid-channel-name",
            FrameError::ChannelPermissionDenied => "channel-permission-denied",
            FrameError::ChannelCreationFailed => "channel-creation-failed",
            FrameError::ChannelDeletionFailed => "channel-deletion-failed",
            FrameError::CannotDeleteGeneral => "cannot-delete-general",
            FrameError::MessageRateLimit => "message-rate-limit",
            FrameError::InvalidVoiceQuality => "invalid-voice-quality",
            FrameError::InvalidVoiceBitrate => "invalid-voice-bitrate",
            FrameError::UnknownVoiceChannel => "unknown-voice-channel",
            FrameError::VoiceChannelUpdateFailed => "voice-channel-update-failed",
            FrameError::InvalidMessageId => "invalid-message-id",
            FrameError::InvalidReactionAction => "invalid-reaction-action",
            FrameError::InvalidEmoji => "invalid-emoji",
            FrameError::MessageNotFound => "message-not-found",
            FrameError::ReactionFailed => "reaction-failed",
            FrameError::MessageWrongChannel => "message-wrong-channel",
            FrameError::MessagePermissionDenied => "message-permission-denied",
            FrameError::MessageDeleteFailed => "message-delete-failed",
            FrameError::InvalidStatus => "invalid-status",
        }
    }
}

/// Until a session authenticates, only `presence` frames are handled; any
/// other type is answered with a terminal `unauthenticated` error.
pub fn gate_frame(authenticated: bool, frame_type: &str) -> (r: Result<(), FrameError>)
    ensures
        r == if authenticated || frame_type@ == "presence"@ {
            Ok::<(), FrameError>(())
        } else {
            Err::<(), FrameError>(FrameError::Unauthenticated)
        },
{
    if authenticated || str_eq(frame_type, "presence") {
        Ok(())
    } else {
        Err(FrameError::Unauthenticated)
    }
}

/// The authentication pipeline a new session runs on its first `presence`
/// frame, over the limiter state at entry.
pub open spec fn spec_presence_auth(
    cfg: HubConfig,
    password: Option<String>,
    public_key: Option<String>,
    signature: Option<String>,
    timestamp: Option<String>,
    client_ip: Seq<char>,
    now: i64,
    limiter: RateLimiter,
) -> Result<i64, AuthError> {
    spec_authenticate(
        view_opt(cfg.password),
        view_opt(password),
        view_opt(public_key),
        view_opt(signature),
        view_opt(timestamp),
        client_ip,
        now,
        cfg.max_auth_attempts_per_minute,
        cfg.nonce_expiry_ms,
        limiter,
    )
}

/// What the `presence` handler decided.
pub enum PresenceOutcome {
    /// Authentication failed; the error is terminal.
    AuthFailed(AuthError),
    /// The user name was rejected; terminal.
    BadUserName,
    /// The session is authenticated; a user was registered when named.
    /// `role_key` carries the public key whose role the store should be
    /// asked for.
    Registered { registered: bool, role_key: Option<String> },
}

/// Handle a `presence` frame up to the role lookup: authentication when the
/// session is new, then user registration.
///
/// After a successful registration the user is in the online and known
/// sets with status `online`, and the session carries the user name.
pub fn handle_presence(
    cfg: &HubConfig,
    hub: &mut Hub,
    session: &mut Session,
    user: &Option<String>,
    password: &Option<String>,
    public_key: &Option<String>,
    signature: &Option<String>,
    timestamp: &Option<String>,
    client_ip: &str,
    now: i64,
) -> (r: PresenceOutcome)
    requires
        old(hub).wf(),
    ensures
        final(hub).wf(),
        final(hub).voice == old(hub).voice,
        match r {
            PresenceOutcome::AuthFailed(e) => !old(session).authenticated && Err::<i64, AuthError>(
                e,
            ) == spec_presence_auth(
                *cfg,
                *password,
                *public_key,
                *signature,
                *timestamp,
                client_ip@,
                now,
                old(hub).rate_limiter,
            ) && *final(session) == *old(session) && final(hub).registry == old(hub).registry,
            PresenceOutcome::BadUserName => {
                &&& user is Some && !spec_valid_name(user.unwrap()@, MAX_USER_NAME_LEN as int)
                &&& final(hub).registry == old(hub).registry
                &&& final(session).authenticated
                &&& !old(session).authenticated ==> spec_presence_auth(
                    *cfg,
                    *password,
                    *public_key,
                    *signature,
                    *timestamp,
                    client_ip@,
                    now,
                    old(hub).rate_limiter,
                ) is Ok
                &&& final(session).user == old(session).user
                &&& final(session).channel == old(session).channel
                &&& final(session).voice == old(session).voice
            },
            PresenceOutcome::Registered { registered, role_key } => {
                &&& final(session).authenticated
                &&& !old(session).authenticated ==> spec_presence_auth(
                    *cfg,
                    *password,
                    *public_key,
                    *signature,
                    *timestamp,
                    client_ip@,
                    now,
                    old(hub).rate_limiter,
                ) is Ok
                &&& registered == (user is Some && spec_valid_name(
                    user.unwrap()@,
                    MAX_USER_NAME_LEN as int,
                ))
                &&& registered ==> {
                    &&& final(session).user == Some(user.unwrap())
                    &&& final(hub).registry.online@.contains(user.unwrap()@)
                    &&& final(hub).registry.known@.contains(user.unwrap()@)
                    &&& final(hub).registry.statuses@[user.unwrap()@]@ == "online"@
                    &&& final(hub).registry.online@ == old(hub).registry.online@.insert(
                        user.unwrap()@,
                    )
                    &&& final(hub).registry.known@ == old(hub).registry.known@.insert(
                        user.unwrap()@,
                    )
                }
                &&& !registered ==> final(hub).registry == old(hub).registry
                    && final(session).user == old(session).user
                &&& final(session).channel == old(session).channel
                &&& final(session).voice == old(session).voice
                &&& match role_key {
                    Some(k) => registered && *public_key is Some && k@ == public_key.unwrap()@
                        && final(hub).registry.user_keys@.contains_key(user.unwrap()@) && final(hub).registry.user_keys@[user.unwrap()@]@ == k@,
                    None => registered ==> *public_key is None,
                }
            },
        },
{
    if !session.authenticated {
        match authenticate(
            &cfg.password,
            password,
            public_key,
            signature,
            timestamp,
            client_ip,
            now,
            cfg.max_auth_attempts_per_minute,
            cfg.nonce_expiry_ms,
            &mut hub.rate_limiter,
        ) {
            Ok(_) => {
                session.authenticated = true;
            },
            Err(e) => {
                return PresenceOutcome::AuthFailed(e);
            },
        }
    }
    let u = match user {
        Some(u) => u,
        None => {
            return PresenceOutcome::Registered { registered: false, role_key: None };
        },
    };
    if !validate_user_name(u.as_str()) {
        return PresenceOutcome::BadUserName;
    }
    hub.registry.register_user(u.as_str());
    session.user = Some(u.clone());
    let role_key = match public_key {
        Some(pk) => {
            hub.registry.record_key(u.as_str(), pk.clone());
            Some(pk.clone())
        },
        None => None,
    };
    PresenceOutcome::Registered { registered: true, role_key }
}

/// Install the role the store returned for a freshly registered user; the
/// color falls back to the role's default color.
pub fn install_role(hub: &mut Hub, user: &str, role: String, color: Option<String>) -> (r: RoleInfo)
    requires
        old(hub).wf(),
    ensures
        final(hub).wf(),
        final(hub).voice == old(hub).voice,
        final(hub).rate_limiter == old(hub).rate_limiter,
        r.role@ == role@,
        match (r.color, color) {
            (Some(c), Some(given)) => c@ == given@,
            (Some(c), None) => spec_default_color(role@) == Some(c@),
            (None, None) => spec_default_color(role@) is None,
            (None, Some(_)) => false,
        },
        final(hub).registry.roles@.contains_key(user@),
        final(hub).registry.roles@[user@].role@ == role@,
    {
    let resolved = match color {
        Some(c) => Some(c),
        None => default_color(role.as_str()),
    };
    let info = RoleInfo { role, color: resolved };
    let copy = info.duplicate();
    hub.registry.install_role(user, info);
    copy
}

/// Switch the session to another text channel.
pub fn handle_join(session: &mut Session, channel: &str)
    ensures
        final(session).channel@ == channel@,
        final(session).authenticated == old(session).authenticated,
        final(session).user == old(session).user,
        final(session).voice == old(session).voice,
{
    session.channel = channel.to_owned();
}

/// The limit actually served for a history request: the requested value,
/// defaulted and capped.
pub fn load_history_limit(requested: Option<i64>) -> (r: i64)
    ensures
        r == match requested {
            Some(l) => if l > MAX_HISTORY_LIMIT {
                MAX_HISTORY_LIMIT
            } else {
                l
            },
            None => DEFAULT_HISTORY_LIMIT,
        },
{
    let mut limit = match requested {
        Some(l) => l,
        None => DEFAULT_HISTORY_LIMIT,
    };
    if limit > MAX_HISTORY_LIMIT {
        limit = MAX_HISTORY_LIMIT;
    }
    limit
}

/// What a `search-history` frame asks for, once validated.
pub enum SearchDecision {
    /// No query string was given.
    MissingQuery,
    /// The query was empty after trimming; an empty result is returned.
    EmptyQuery,
    /// The requested channel name is invalid.
    InvalidChannel,
    /// Run the search.
    Run { channel: String, query: String, limit: i64 },
}

/// Validate a `search-history` frame against the session's channel.
pub fn search_request(
    query: &Option<String>,
    requested_channel: &Option<String>,
    session_channel: &str,
    limit: &Option<i64>,
) -> (r: SearchDecision)
    ensures
        match r {
            SearchDecision::MissingQuery => query is None,
            SearchDecision::EmptyQuery => query is Some && trimmed(query.unwrap()@).len() == 0,
            SearchDecision::InvalidChannel => {
                &&& query is Some && trimmed(query.unwrap()@).len() > 0
                &&& requested_channel is Some && trimmed(requested_channel.unwrap()@).len() > 0
                &&& !spec_valid_name(trimmed(requested_channel.unwrap()@), MAX_CHANNEL_NAME_LEN as int)
            },
            SearchDecision::Run { channel, query: q, limit: l } => {
                &&& query is Some && trimmed(query.unwrap()@).len() > 0 && q@ == trimmed(
                    query.unwrap()@,
                )
                &&& match requested_channel {
                    Some(rc) => if trimmed(rc@).len() > 0 {
                        channel@ == trimmed(rc@) && spec_valid_name(
                            trimmed(rc@),
                            MAX_CHANNEL_NAME_LEN as int,
                        )
                    } else {
                        channel@ == session_channel@
                    },
                    None => channel@ == session_channel@,
                }
                &&& l == {
                    let wanted = match *limit {
                        Some(l0) => l0,
                        None => DEFAULT_HISTORY_LIMIT as i64,
                    };
                    if wanted < 1 {
                        1 as i64
                    } else if wanted > MAX_SEARCH_RESULTS {
                        MAX_SEARCH_RESULTS
                    } else {
                        wanted
                    }
                }
            },
        },
{
    let q_raw = match query {
        Some(q) => q,
        None => {
            return SearchDecision::MissingQuery;
        },
    };
    let q = trim_spaces(q_raw.as_str());
    if q.as_str().unicode_len() == 0 {
        return SearchDecision::EmptyQuery;
    }
    let channel: String = match requested_channel {
        Some(rc) => {
            let t = trim_spaces(rc.as_str());
            if t.as_str().unicode_len() == 0 {
                session_channel.to_owned()
            } else {
                if !validate_channel_name(t.as_str()) {
                    proof {
                        crate::strutil::lemma_trim_stable(trimmed(rc@));
                    }
                    return SearchDecision::InvalidChannel;
                }
                proof {
                    crate::strutil::lemma_trim_stable(trimmed(rc@));
                }
                t
            }
        },
        None => session_channel.to_owned(),
    };
    let mut l = match limit {
        Some(l0) => *l0,
        None => DEFAULT_HISTORY_LIMIT,
    };
    if l < 1 {
        l = 1;
    }
    if l > MAX_SEARCH_RESULTS {
        l = MAX_SEARCH_RESULTS;
    }
    SearchDecision::Run { channel, query: q, limit: l }
}

/// Validate a channel-management request: name, registration and
/// permission.
fn channel_manage_gate(
    hub: &Hub,
    cfg: &HubConfig,
    name: &Option<String>,
    session_user: &Option<String>,
) -> (r: Result<Option<String>, FrameError>)
    requires
        hub.wf(),
    ensures
        match r {
            Ok(Some(ch)) => {
                &&& name is Some && ch@ == name.unwrap()@
                &&& spec_valid_name(ch@, MAX_CHANNEL_NAME_LEN as int)
                &&& session_user is Some
                &&& hub.registry.spec_can_manage(
                    cfg.admin_token_configured,
                    session_user.unwrap()@,
                )
            },
            Ok(None) => name is None,
            Err(e) => name is Some && (if !spec_valid_name(
                name.unwrap()@,
                MAX_CHANNEL_NAME_LEN as int,
            ) {
                e == FrameError::InvalidChannelName
            } else {
                e == FrameError::ChannelPermissionDenied && (session_user is None
                    || !hub.registry.spec_can_manage(
                    cfg.admin_token_configured,
                    session_user.unwrap()@,
                ))
            }),
        },
{
    let ch = match name {
        Some(ch) => ch,
        None => {
            return Ok(None);
        },
    };
    if !validate_channel_name(ch.as_str()) {
        return Err(FrameError::InvalidChannelName);
    }
    let requester = match session_user {
        Some(u) => u,
        None => {
            return Err(FrameError::ChannelPermissionDenied);
        },
    };
    if !hub.registry.can_manage_channels(cfg.admin_token_configured, requester.as_str()) {
        return Err(FrameError::ChannelPermissionDenied);
    }
    Ok(Some(ch.clone()))
}

/// Decide a `create-channel` frame. On `Ok(Some(name))` the store inserts
/// the channel and a `channel-add` event is broadcast.
pub fn create_channel_decide(
    hub: &Hub,
    cfg: &HubConfig,
    name: &Option<String>,
    session_user: &Option<String>,
) -> (r: Result<Option<String>, FrameError>)
    requires
        hub.wf(),
    ensures
        match r {
            Ok(Some(ch)) => name is Some && ch@ == name.unwrap()@ && spec_valid_name(
                ch@,
                MAX_CHANNEL_NAME_LEN as int,
            ) && session_user is Some && hub.registry.spec_can_manage(
                cfg.admin_token_configured,
                session_user.unwrap()@,
            ),
            Ok(None) => name is None,
            Err(e) => name is Some && (if !spec_valid_name(
                name.unwrap()@,
                MAX_CHANNEL_NAME_LEN as int,
            ) {
                e == FrameError::InvalidChannelName
            } else {
                e == FrameError::ChannelPermissionDenied && (session_user is None
                    || !hub.registry.spec_can_manage(
                    cfg.admin_token_configured,
                    session_user.unwrap()@,
                ))
            }),
        },
{
    channel_manage_gate(hub, cfg, name, session_user)
}

/// Decide a `delete-channel` frame: like channel creation, but the
/// `general` channel can never be deleted, whatever the requester's role.
pub fn delete_channel_decide(
    hub: &Hub,
    cfg: &HubConfig,
    name: &Option<String>,
    session_user: &Option<String>,
) -> (r: Result<Option<String>, FrameError>)
    requires
        hub.wf(),
    ensures
        match r {
            Ok(Some(ch)) => name is Some && ch@ == name.unwrap()@ && spec_valid_name(
                ch@,
                MAX_CHANNEL_NAME_LEN as int,
            ) && ch@ != "general"@ && session_user is Some && hub.registry.spec_can_manage(
                cfg.admin_token_configured,
                session_user.unwrap()@,
            ),
            Ok(None) => name is None,
            Err(e) => name is Some && (if !spec_valid_name(
                name.unwrap()@,
                MAX_CHANNEL_NAME_LEN as int,
            ) {
                e == FrameError::InvalidChannelName
            } else if name.unwrap()@ == "general"@ {
                e == FrameError::CannotDeleteGeneral
            } else {
                e == FrameError::ChannelPermissionDenied && (session_user is None
                    || !hub.registry.spec_can_manage(
                    cfg.admin_token_configured,
                    session_user.unwrap()@,
                ))
            }),
        },
{
    let ch = match name {
        Some(ch) => ch,
        None => {
            return Ok(None);
        },
    };
    if !validate_channel_name(ch.as_str()) {
        return Err(FrameError::InvalidChannelName);
    }
    if str_eq(ch.as_str(), "general") {
        return Err(FrameError::CannotDeleteGeneral);
    }
    let requester = match session_user {
        Some(u) => u,
        None => {
            return Err(FrameError::ChannelPermissionDenied);
        },
    };
    if !hub.registry.can_manage_channels(cfg.admin_token_configured, requester.as_str()) {
        return Err(FrameError::ChannelPermissionDenied);
    }
    Ok(Some(ch.clone()))
}

/// After a channel was deleted, a session watching it migrates to `general`.
pub fn migrate_after_channel_delete(session: &mut Session, deleted: &str) -> (moved: bool)
    ensures
        moved == (old(session).channel@ == deleted@),
        moved ==> final(session).channel@ == "general"@,
        !moved ==> final(session).channel == old(session).channel,
        final(session).authenticated == old(session).authenticated,
        final(session).user == old(session).user,
        final(session).voice == old(session).voice,
{
    if str_eq(session.channel.as_str(), deleted) {
        session.channel = "general".to_owned();
        true
    } else {
        false
    }
}


/// The bitrate field of a frame: absent, JSON null, a numeric value, or
/// something that is not an integer.
pub enum BitrateField {
    Absent,
    Null,
    Value(i64),
    Invalid,
}

/// The quality label a voice channel is created with: the trimmed field
/// when it is non-empty, the default label otherwise.
pub open spec fn resolved_quality(q: Option<Seq<char>>) -> Seq<char> {
    match q {
        Some(s) => if trimmed(s).len() > 0 {
            trimmed(s)
        } else {
            "standard"@
        },
        None => "standard"@,
    }
}

/// What a `create-voice-channel` frame decided.
pub enum VoiceCreateOutcome {
    /// No name was given; the frame is ignored.
    Ignored,
    /// A validation or permission error to report.
    Error(FrameError),
    /// The room was created (or already existed). On creation the store
    /// inserts the room and a `voice-channel-add` event is broadcast.
    Done { name: String, created: bool, quality: String, bitrate: Option<i32> },
}

/// Handle a `create-voice-channel` frame: validate the name, the
/// requester's permission, the quality label and the bitrate, then create
/// the room if it does not exist.
pub fn handle_create_voice_channel(
    hub: &mut Hub,
    cfg: &HubConfig,
    name: &Option<String>,
    session_user: &Option<String>,
    quality_field: &Option<String>,
    bitrate_field: &BitrateField,
) -> (r: VoiceCreateOutcome)
    requires
        old(hub).wf(),
    ensures
        final(hub).wf(),
        final(hub).registry == old(hub).registry,
        final(hub).rate_limiter == old(hub).rate_limiter,
        match r {
            VoiceCreateOutcome::Ignored => name is None && final(hub).voice == old(hub).voice,
            VoiceCreateOutcome::Error(e) => {
                &&& final(hub).voice == old(hub).voice
                &&& name is Some
                &&& if !spec_valid_name(name.unwrap()@, MAX_CHANNEL_NAME_LEN as int) {
                    e == FrameError::InvalidChannelName
                } else if session_user is None || !old(hub).registry.spec_can_manage(
                    cfg.admin_token_configured,
                    session_user.unwrap()@,
                ) {
                    e == FrameError::ChannelPermissionDenied
                } else if !spec_valid_quality(resolved_quality(view_opt(*quality_field))) {
                    e == FrameError::InvalidVoiceQuality
                } else {
                    e == FrameError::InvalidVoiceBitrate && match *bitrate_field {
                        BitrateField::Value(v) => !(0 < v <= MAX_ALLOWED_VOICE_BITRATE as i64),
                        BitrateField::Invalid => true,
                        _ => false,
                    }
                }
            },
            VoiceCreateOutcome::Done { name: ch, created, quality, bitrate } => {
                &&& name is Some && ch@ == name.unwrap()@
                &&& spec_valid_name(ch@, MAX_CHANNEL_NAME_LEN as int)
                &&& session_user is Some
                &&& old(hub).registry.spec_can_manage(
                    cfg.admin_token_configured,
                    session_user.unwrap()@,
                )
                &&& spec_valid_quality(resolved_quality(view_opt(*quality_field)))
                &&& match *bitrate_field {
                    BitrateField::Value(v) => 0 < v <= MAX_ALLOWED_VOICE_BITRATE as i64,
                    BitrateField::Invalid => false,
                    _ => true,
                }
                &&& quality@ == resolved_quality(view_opt(*quality_field))
                &&& bitrate == match *bitrate_field {
                    BitrateField::Absent => Some(crate::DEFAULT_VOICE_BITRATE),
                    BitrateField::Null => None::<i32>,
                    BitrateField::Value(v) => Some(v as i32),
                    BitrateField::Invalid => None::<i32>,
                }
                &&& created == !old(hub).voice.has_room(ch@)
                &&& final(hub).voice.has_room(ch@)
                &&& !created ==> final(hub).voice.rooms_seq() == old(hub).voice.rooms_seq()
                &&& created ==> final(hub).voice.members(ch@) == Set::<Seq<char>>::empty() && final(hub).voice.quality_of(ch@) == quality@ && final(hub).voice.bitrate_of(ch@) == bitrate
            },
        },
{
    let ch = match name {
        Some(ch) => ch,
        None => {
            return VoiceCreateOutcome::Ignored;
        },
    };
    if !validate_channel_name(ch.as_str()) {
        return VoiceCreateOutcome::Error(FrameError::InvalidChannelName);
    }
    let requester = match session_user {
        Some(u) => u,
        None => {
            return VoiceCreateOutcome::Error(FrameError::ChannelPermissionDenied);
        },
    };
    if !hub.registry.can_manage_channels(cfg.admin_token_configured, requester.as_str()) {
        return VoiceCreateOutcome::Error(FrameError::ChannelPermissionDenied);
    }
    let quality_value: String = match quality_field {
        Some(q) => {
            let t = trim_spaces(q.as_str());
            if t.as_str().unicode_len() == 0 {
                "standard".to_owned()
            } else {
                t
            }
        },
        None => "standard".to_owned(),
    };
    if !validate_voice_quality(quality_value.as_str()) {
        return VoiceCreateOutcome::Error(FrameError::InvalidVoiceQuality);
    }
    let bitrate_value: Option<i32> = match bitrate_field {
        BitrateField::Absent => Some(crate::DEFAULT_VOICE_BITRATE),
        BitrateField::Null => None,
        BitrateField::Value(v) => {
            match validate_bitrate(*v) {
                Some(valid) => Some(valid),
                None => {
                    return VoiceCreateOutcome::Error(FrameError::InvalidVoiceBitrate);
                },
            }
        },
        BitrateField::Invalid => {
            return VoiceCreateOutcome::Error(FrameError::InvalidVoiceBitrate);
        },
    };
    let created = hub.voice.create_room(ch.as_str(), quality_value.clone(), bitrate_value);
    VoiceCreateOutcome::Done { name: ch.clone(), created, quality: quality_value, bitrate: bitrate_value }
}

/// What an `update-voice-channel` frame decided.
pub enum VoiceUpdateOutcome {
    /// No name was given; the frame is ignored.
    Ignored,
    /// A validation, permission or existence error to report.
    Error(FrameError),
    /// The configuration to apply: the overridden or kept quality and
    /// bitrate. The store is updated first; on success the room in the hub
    /// follows via [`crate::voice::VoiceRooms::update_room`].
    Apply { name: String, quality: String, bitrate: Option<i32> },
}

/// Validate an `update-voice-channel` frame and resolve the next
/// configuration from the overrides and the existing room.
pub fn handle_update_voice_channel(
    hub: &Hub,
    cfg: &HubConfig,
    name: &Option<String>,
    session_user: &Option<String>,
    quality_field: &Option<String>,
    bitrate_field: &BitrateField,
) -> (r: VoiceUpdateOutcome)
    requires
        hub.wf(),
    ensures
        match r {
            VoiceUpdateOutcome::Ignored => name is None,
            VoiceUpdateOutcome::Error(e) => {
                &&& name is Some
                &&& if !spec_valid_name(name.unwrap()@, MAX_CHANNEL_NAME_LEN as int) {
                    e == FrameError::InvalidChannelName
                } else if session_user is None || !hub.registry.spec_can_manage(
                    cfg.admin_token_configured,
                    session_user.unwrap()@,
                ) {
                    e == FrameError::ChannelPermissionDenied
                } else if quality_field is Some && !spec_valid_quality(
                    trimmed(quality_field.unwrap()@),
                ) {
                    e == FrameError::InvalidVoiceQuality
                } else if match *bitrate_field {
                    BitrateField::Value(v) => !(0 < v <= MAX_ALLOWED_VOICE_BITRATE as i64),
                    BitrateField::Invalid => true,
                    _ => false,
                } {
                    e == FrameError::InvalidVoiceBitrate
                } else {
                    e == FrameError::UnknownVoiceChannel && !hub.voice.has_room(name.unwrap()@)
                }
            },
            VoiceUpdateOutcome::Apply { name: ch, quality, bitrate } => {
                &&& name is Some && ch@ == name.unwrap()@
                &&& spec_valid_name(ch@, MAX_CHANNEL_NAME_LEN as int)
                &&& session_user is Some
                &&& hub.registry.spec_can_manage(
                    cfg.admin_token_configured,
                    session_user.unwrap()@,
                )
                &&& quality_field is Some ==> spec_valid_quality(trimmed(quality_field.unwrap()@))
                &&& match *bitrate_field {
                    BitrateField::Value(v) => 0 < v <= MAX_ALLOWED_VOICE_BITRATE as i64,
                    BitrateField::Invalid => false,
                    _ => true,
                }
                &&& hub.voice.has_room(ch@)
                &&& quality@ == match view_opt(*quality_field) {
                    Some(q) => trimmed(q),
                    None => hub.voice.quality_of(ch@),
                }
                &&& bitrate == match *bitrate_field {
                    BitrateField::Null => None::<i32>,
                    BitrateField::Value(v) => Some(v as i32),
                    _ => hub.voice.bitrate_of(ch@),
                }
            },
        },
{
    let ch = match name {
        Some(ch) => ch,
        None => {
            return VoiceUpdateOutcome::Ignored;
        },
    };
    if !validate_channel_name(ch.as_str()) {
        return VoiceUpdateOutcome::Error(FrameError::InvalidChannelName);
    }
    let requester = match session_user {
        Some(u) => u,
        None => {
            return VoiceUpdateOutcome::Error(FrameError::ChannelPermissionDenied);
        },
    };
    if !hub.registry.can_manage_channels(cfg.admin_token_configured, requester.as_str()) {
        return VoiceUpdateOutcome::Error(FrameError::ChannelPermissionDenied);
    }
    let quality_override: Option<String> = match quality_field {
        Some(q) => {
            let t = trim_spaces(q.as_str());
            if !validate_voice_quality(t.as_str()) {
                proof {
                    crate::strutil::lemma_trim_stable(trimmed(q@));
                }
                return VoiceUpdateOutcome::Error(FrameError::InvalidVoiceQuality);
            }
            proof {
                crate::strutil::lemma_trim_stable(trimmed(q@));
            }
            Some(t)
        },
        None => None,
    };
    let bitrate_override: Option<Option<i32>> = match bitrate_field {
        BitrateField::Absent => None,
        BitrateField::Null => Some(None),
        BitrateField::Value(v) => {
            match validate_bitrate(*v) {
                Some(valid) => Some(Some(valid)),
                None => {
                    return VoiceUpdateOutcome::Error(FrameError::InvalidVoiceBitrate);
                },
            }
        },
        BitrateField::Invalid => {
            return VoiceUpdateOutcome::Error(FrameError::InvalidVoiceBitrate);
        },
    };
    let existing = match hub.voice.descriptor_of(ch.as_str()) {
        Some(d) => d,
        None => {
            return VoiceUpdateOutcome::Error(FrameError::UnknownVoiceChannel);
        },
    };
    let next_quality = match quality_override {
        Some(q) => q,
        None => existing.0,
    };
    let next_bitrate = match bitrate_override {
        Some(b) => b,
        None => existing.1,
    };
    VoiceUpdateOutcome::Apply { name: ch.clone(), quality: next_quality, bitrate: next_bitrate }
}

/// Handle a `delete-voice-channel` frame: validate, check the permission,
/// remove the room and clear the session's voice membership when it pointed
/// there. On `Ok(Some(name))` the store row is deleted and a
/// `voice-channel-remove` event is broadcast.
pub fn handle_delete_voice_channel(
    hub: &mut Hub,
    cfg: &HubConfig,
    name: &Option<String>,
    session: &mut Session,
) -> (r: Result<Option<String>, FrameError>)
    requires
        old(hub).wf(),
    ensures
        final(hub).wf(),
        final(hub).registry == old(hub).registry,
        final(hub).rate_limiter == old(hub).rate_limiter,
        match r {
            Ok(Some(ch)) => {
                &&& name is Some && ch@ == name.unwrap()@
                &&& spec_valid_name(ch@, MAX_CHANNEL_NAME_LEN as int)
                &&& old(session).user is Some
                &&& old(hub).registry.spec_can_manage(
                    cfg.admin_token_configured,
                    old(session).user.unwrap()@,
                )
                &&& !final(hub).voice.has_room(ch@)
                &&& (old(session).voice is Some && old(session).voice.unwrap()@ == ch@) ==> final(session).voice is None
                &&& !(old(session).voice is Some && old(session).voice.unwrap()@ == ch@) ==> final(session).voice == old(session).voice
            },
            Ok(None) => name is None && final(hub).voice == old(hub).voice && *final(session)
                == *old(session),
            Err(e) => {
                &&& final(hub).voice == old(hub).voice
                &&& *final(session) == *old(session)
                &&& name is Some
                &&& if !spec_valid_name(name.unwrap()@, MAX_CHANNEL_NAME_LEN as int) {
                    e == FrameError::InvalidChannelName
                } else {
                    e == FrameError::ChannelPermissionDenied && (old(session).user is None || !old(hub).registry.spec_can_manage(
                        cfg.admin_token_configured,
                        old(session).user.unwrap()@,
                    ))
                }
            },
        },
{
    let ch = match name {
        Some(ch) => ch,
        None => {
            return Ok(None);
        },
    };
    if !validate_channel_name(ch.as_str()) {
        return Err(FrameError::InvalidChannelName);
    }
    let allowed = match &session.user {
        Some(u) => hub.registry.can_manage_channels(cfg.admin_token_configured, u.as_str()),
        None => false,
    };
    if !allowed {
        return Err(FrameError::ChannelPermissionDenied);
    }
    hub.voice.remove_room(ch.as_str());
    let was_here = match &session.voice {
        Some(v) => str_eq(v.as_str(), ch.as_str()),
        None => false,
    };
    if was_here {
        session.voice = None;
    }
    Ok(Some(ch.clone()))
}

/// Gate a `chat` frame on the per-user message limit. A session without a
/// registered user is not limited, as the engine has nothing to key by.
pub fn chat_rate_gate(hub: &mut Hub, user: &Option<String>, now: i64, limit: usize) -> (allowed:
    bool)
    requires
        old(hub).wf(),
    ensures
        final(hub).wf(),
        final(hub).registry == old(hub).registry,
        final(hub).voice == old(hub).voice,
        allowed == match view_opt(*user) {
            Some(u) => old(hub).rate_limiter.message_times.spec_allowed(u, now, limit),
            None => true,
        },
        user is None ==> final(hub).rate_limiter == old(hub).rate_limiter,
{
    match user {
        Some(u) => check_message_rate_limit(&mut hub.rate_limiter, u.as_str(), now, limit),
        None => true,
    }
}

/// The normalized stamps of a chat message.
pub struct ChatStamp {
    /// The message timestamp in milliseconds: the parsed `timestamp` field,
    /// or the current time when the field is absent or malformed.
    pub timestamp_ms: i64,
    /// The RFC 3339 rendering written back into the message.
    pub timestamp_str: Option<String>,
    /// The `hh:mm:ss` rendering, filled in when the message had no `time`.
    pub time_str: Option<String>,
    /// The clamped expiry, when the message is ephemeral.
    pub expires_at_ms: Option<i64>,
    /// The RFC 3339 rendering of the clamped expiry.
    pub expires_at_str: Option<String>,
}

/// The expiry clamped into the allowed ephemeral window around the message
/// timestamp, computed without overflow.
pub open spec fn spec_clamped_expiry(raw: i64, ts: i64) -> i64 {
    let lo = ts + MIN_EPHEMERAL_SECONDS * 1000;
    let hi = ts + MAX_EPHEMERAL_SECONDS * 1000;
    let clamped = if raw < lo {
        lo
    } else if raw > hi {
        hi
    } else {
        raw as int
    };
    if clamped > i64::MAX {
        i64::MAX
    } else if clamped < i64::MIN {
        i64::MIN
    } else {
        clamped as i64
    }
}

/// Normalize the timestamp, clock-face time and expiry of a chat message.
pub fn stamp_chat(
    timestamp_field: &Option<String>,
    expires_field: &Option<String>,
    time_present: bool,
    now: i64,
) -> (r: ChatStamp)
    ensures
        r.timestamp_ms == match view_opt(*timestamp_field) {
            Some(s) => match rfc3339_millis_of(s) {
                Some(ms) => ms,
                None => now,
            },
            None => now,
        },
        match r.timestamp_str {
            Some(s) => rfc3339_string_of(r.timestamp_ms) == Some(s@),
            None => rfc3339_string_of(r.timestamp_ms) is None,
        },
        time_present ==> r.time_str is None,
        !time_present ==> match r.time_str {
            Some(s) => hms_string_of(r.timestamp_ms) == Some(s@) && s@
                == crate::clock::spec_hms_of(r.timestamp_ms),
            None => hms_string_of(r.timestamp_ms) is None,
        },
        r.expires_at_ms == match view_opt(*expires_field) {
            Some(e) => match rfc3339_millis_of(e) {
                Some(raw) => Some(spec_clamped_expiry(raw, r.timestamp_ms)),
                None => None::<i64>,
            },
            None => None::<i64>,
        },
        match (r.expires_at_str, r.expires_at_ms) {
            (Some(s), Some(ms)) => rfc3339_string_of(ms) == Some(s@),
            (None, Some(ms)) => rfc3339_string_of(ms) is None,
            (None, None) => true,
            (Some(_), None) => false,
        },
{
    let timestamp_ms = match timestamp_field {
        Some(s) => match parse_rfc3339_millis(s.as_str()) {
            Some(ms) => ms,
            None => now,
        },
        None => now,
    };
    let timestamp_str = format_rfc3339_millis(timestamp_ms);
    let time_str = if time_present {
        None
    } else {
        format_time_hms(timestamp_ms)
    };
    let expires_at_ms: Option<i64> = match expires_field {
        Some(e) => match parse_rfc3339_millis(e.as_str()) {
            Some(raw) => {
                let ts_w = timestamp_ms as i128;
                let lo = ts_w + (MIN_EPHEMERAL_SECONDS * 1000) as i128;
                let hi = ts_w + (MAX_EPHEMERAL_SECONDS * 1000) as i128;
                let mut clamped: i128 = raw as i128;
                if clamped < lo {
                    clamped = lo;
                }
                if clamped > hi {
                    clamped = hi;
                }
                let bounded: i64 = if clamped > i64::MAX as i128 {
                    i64::MAX
                } else if clamped < i64::MIN as i128 {
                    i64::MIN
                } else {
                    clamped as i64
                };
                Some(bounded)
            },
            None => None,
        },
        None => None,
    };
    let expires_at_str = match expires_at_ms {
        Some(ms) => format_rfc3339_millis(ms),
        None => None,
    };
    ChatStamp { timestamp_ms, timestamp_str, time_str, expires_at_ms, expires_at_str }
}

/// How long an ephemeral deletion task sleeps: the time until the expiry,
/// clamped into the allowed window.
pub fn ephemeral_delay_ms(expiry_ms: i64, now: i64) -> (r: i64)
    ensures
        r == {
            let d = expiry_ms - now;
            if d < 0 {
                0int
            } else if d > MAX_EPHEMERAL_SECONDS * 1000 {
                MAX_EPHEMERAL_SECONDS * 1000
            } else {
                d
            }
        },
{
    let d = (expiry_ms as i128) - (now as i128);
    if d < 0 {
        0
    } else if d > (MAX_EPHEMERAL_SECONDS * 1000) as i128 {
        MAX_EPHEMERAL_SECONDS * 1000
    } else {
        d as i64
    }
}

/// Validate the target of a `delete-message` frame: the requester and the
/// message id, which must fit the store's id type.
pub fn delete_message_decide(requester: &Option<String>, raw_id: &Option<i64>) -> (r: Result<
    i32,
    FrameError,
>)
    ensures
        r == if requester is None {
            Err::<i32, FrameError>(FrameError::NotAuthenticated)
        } else {
            match *raw_id {
                None => Err::<i32, FrameError>(FrameError::InvalidMessageId),
                Some(v) => if i32::MIN <= v <= i32::MAX {
                    Ok::<i32, FrameError>(v as i32)
                } else {
                    Err::<i32, FrameError>(FrameError::InvalidMessageId)
                },
            }
        },
{
    if requester.is_none() {
        return Err(FrameError::NotAuthenticated);
    }
    let v = match raw_id {
        Some(v) => *v,
        None => {
            return Err(FrameError::InvalidMessageId);
        },
    };
    if v < i32::MIN as i64 || v > i32::MAX as i64 {
        return Err(FrameError::InvalidMessageId);
    }
    Ok(v as i32)
}

/// Decide whether a requester may delete a message: it must sit in the
/// session's current channel, and the requester must be its author or hold
/// the channel-manage permission.
pub fn delete_message_permission(
    record_channel: &str,
    session_channel: &str,
    owner: &Option<String>,
    requester: &str,
    can_manage: bool,
) -> (r: Result<(), FrameError>)
    ensures
        r == if record_channel@ != session_channel@ {
            Err::<(), FrameError>(FrameError::MessageWrongChannel)
        } else if (owner is Some && owner.unwrap()@ == requester@) || can_manage {
            Ok::<(), FrameError>(())
        } else {
            Err::<(), FrameError>(FrameError::MessagePermissionDenied)
        },
{
    if !str_eq(record_channel, session_channel) {
        return Err(FrameError::MessageWrongChannel);
    }
    let is_owner = match owner {
        Some(o) => str_eq(o.as_str(), requester),
        None => false,
    };
    if is_owner || can_manage {
        Ok(())
    } else {
        Err(FrameError::MessagePermissionDenied)
    }
}

/// A validated `react` frame.
pub struct ReactPlan {
    pub message_id: i32,
    /// True for `add`, false for `remove`.
    pub add: bool,
    pub emoji: String,
}

/// Validate a `react` frame: requester, message id, action and emoji.
pub fn react_validate(
    requester: &Option<String>,
    message_id: &Option<i64>,
    action: &Option<String>,
    emoji: &Option<String>,
) -> (r: Result<ReactPlan, FrameError>)
    ensures
        match r {
            Ok(plan) => {
                &&& requester is Some
                &&& message_id == Some(plan.message_id as i64)
                &&& action is Some
                &&& (plan.add ==> action.unwrap()@ == "add"@)
                &&& (!plan.add ==> action.unwrap()@ == "remove"@)
                &&& emoji is Some && plan.emoji@ == trimmed(emoji.unwrap()@) && spec_valid_emoji(
                    plan.emoji@,
                )
            },
            Err(e) => if requester is None {
                e == FrameError::NotAuthenticated
            } else if message_id is None {
                e == FrameError::InvalidMessageId
            } else if action is None {
                e == FrameError::InvalidReactionAction
            } else if emoji is None || !spec_valid_emoji(trimmed(emoji.unwrap()@)) {
                e == FrameError::InvalidEmoji
            } else if !(i32::MIN <= message_id.unwrap() <= i32::MAX) {
                e == FrameError::InvalidMessageId
            } else {
                e == FrameError::InvalidReactionAction && action.unwrap()@ != "add"@
                    && action.unwrap()@ != "remove"@
            },
        },
{
    if requester.is_none() {
        return Err(FrameError::NotAuthenticated);
    }
    let mid = match message_id {
        Some(v) => *v,
        None => {
            return Err(FrameError::InvalidMessageId);
        },
    };
    let act = match action {
        Some(a) => a,
        None => {
            return Err(FrameError::InvalidReactionAction);
        },
    };
    let raw_emoji = match emoji {
        Some(e) => e,
        None => {
            return Err(FrameError::InvalidEmoji);
        },
    };
    let trimmed_emoji = trim_spaces(raw_emoji.as_str());
    if !validate_emoji(trimmed_emoji.as_str()) {
        return Err(FrameError::InvalidEmoji);
    }
    if mid < i32::MIN as i64 || mid > i32::MAX as i64 {
        return Err(FrameError::InvalidMessageId);
    }
    let add = if str_eq(act.as_str(), "add") {
        true
    } else if str_eq(act.as_str(), "remove") {
        false
    } else {
        return Err(FrameError::InvalidReactionAction);
    };
    Ok(ReactPlan { message_id: mid as i32, add, emoji: trimmed_emoji })
}

/// Handle a `status-update` frame: normalize the status and record it.
pub fn handle_status_update(
    hub: &mut Hub,
    requester: &Option<String>,
    status_field: &Option<String>,
) -> (r: Result<&'static str, FrameError>)
    requires
        old(hub).wf(),
    ensures
        final(hub).wf(),
        final(hub).voice == old(hub).voice,
        final(hub).rate_limiter == old(hub).rate_limiter,
        match r {
            Ok(s) => {
                &&& requester is Some
                &&& status_field is Some
                &&& spec_status_of(status_field.unwrap()@) == Some(s@)
                &&& final(hub).registry.statuses@.contains_key(requester.unwrap()@)
                &&& final(hub).registry.statuses@[requester.unwrap()@]@ == s@
                &&& final(hub).registry.online@ == old(hub).registry.online@
                &&& final(hub).registry.known@ == old(hub).registry.known@
                &&& final(hub).registry.roles@ == old(hub).registry.roles@
            },
            Err(e) => {
                &&& final(hub).registry == old(hub).registry
                &&& if requester is None {
                    e == FrameError::NotAuthenticated
                } else {
                    e == FrameError::InvalidStatus && (status_field is None || spec_status_of(
                        status_field.unwrap()@,
                    ) is None)
                }
            },
        },
{
    let user = match requester {
        Some(u) => u,
        None => {
            return Err(FrameError::NotAuthenticated);
        },
    };
    let raw = match status_field {
        Some(s) => s,
        None => {
            return Err(FrameError::InvalidStatus);
        },
    };
    let status = match normalize_status(raw.as_str()) {
        Some(s) => s,
        None => {
            return Err(FrameError::InvalidStatus);
        },
    };
    hub.registry.set_status(user.as_str(), status.to_owned());
    Ok(status)
}

/// Handle a `voice-join` frame: move the user into the room (creating it
/// with defaults when absent) and remember the membership in the session.
/// The name of the room the user vacated is returned so that its member
/// list can be broadcast alongside the target room's. The raw frame is
/// relayed on the global bus either way.
pub fn handle_voice_join(
    hub: &mut Hub,
    session: &mut Session,
    user: &Option<String>,
    channel: &Option<String>,
) -> (r: (bool, Option<String>))
    requires
        old(hub).wf(),
    ensures
        final(hub).wf(),
        final(hub).registry == old(hub).registry,
        final(hub).rate_limiter == old(hub).rate_limiter,
        (user is None || channel is None) ==> final(hub).voice == old(hub).voice && *final(session)
            == *old(session) && r == (false, None::<String>),
        (user is Some && channel is Some) ==> {
            let u = user.unwrap()@;
            let ch = channel.unwrap()@;
            &&& r.0 == !old(hub).voice.has_room(ch)
            &&& final(hub).voice.in_room(ch, u)
            &&& final(hub).voice.members(ch) == old(hub).voice.members(ch).insert(u)
            &&& forall|c: Seq<char>|
                c != ch ==> final(hub).voice.members(c) == old(hub).voice.members(c).remove(u)
            &&& final(session).voice is Some && final(session).voice.unwrap()@ == ch
            &&& r.0 ==> final(hub).voice.quality_of(ch) == crate::default_voice_quality()
                && final(hub).voice.bitrate_of(ch) == Some(crate::DEFAULT_VOICE_BITRATE)
            &&& match r.1 {
                Some(vacated) => old(hub).voice.in_room(vacated@, u),
                None => forall|c: Seq<char>| !old(hub).voice.in_room(c, u),
            }
        },
{
    match (user, channel) {
        (Some(u), Some(ch)) => {
            let ghost orig = old(hub).voice;
            let vacated = hub.voice.remove_user_everywhere(u.as_str());
            let ghost mid = hub.voice;
            let created = hub.voice.join(u.as_str(), ch.as_str());
            session.voice = Some(ch.clone());
            proof {
                assert(old(hub).voice.members(ch@).remove(u@).insert(u@) =~= old(
                    hub,
                ).voice.members(ch@).insert(u@));
                assert forall|c: Seq<char>|
                    c != ch@ implies final(hub).voice.members(c) == old(hub).voice.members(
                    c,
                ).remove(u@) by {
                    assert(old(hub).voice.members(c).remove(u@).remove(u@) =~= old(
                        hub,
                    ).voice.members(c).remove(u@));
                }
            }
            (created, vacated)
        },
        _ => (false, None),
    }
}

/// Handle a `voice-leave` frame: remove the user from the room and clear
/// the session's membership when it pointed there. The raw frame is
/// relayed on the global bus either way.
pub fn handle_voice_leave(
    hub: &mut Hub,
    session: &mut Session,
    user: &Option<String>,
    channel: &Option<String>,
)
    requires
        old(hub).wf(),
    ensures
        final(hub).wf(),
        final(hub).registry == old(hub).registry,
        final(hub).rate_limiter == old(hub).rate_limiter,
        (user is None || channel is None) ==> final(hub).voice == old(hub).voice && *final(session)
            == *old(session),
        (user is Some && channel is Some) ==> {
            let u = user.unwrap()@;
            let ch = channel.unwrap()@;
            &&& final(hub).voice.members(ch) == old(hub).voice.members(ch).remove(u)
            &&& forall|c: Seq<char>| c != ch ==> final(hub).voice.members(c) == old(hub).voice.members(c)
            &&& (old(session).voice is Some && old(session).voice.unwrap()@ == ch) ==> final(session).voice is None
            &&& !(old(session).voice is Some && old(session).voice.unwrap()@ == ch) ==> final(session).voice == old(session).voice
        },
{
    match (user, channel) {
        (Some(u), Some(ch)) => {
            hub.voice.leave(u.as_str(), ch.as_str());
            let was_here = match &session.voice {
                Some(v) => str_eq(v.as_str(), ch.as_str()),
                None => false,
            };
            if was_here {
                session.voice = None;
            }
        },
        _ => {},
    }
}

/// Clean up after a disconnect: the user leaves the online set, is marked
/// offline, and leaves its voice room; the room's name is returned so that
/// its member list can be broadcast. Roles, keys and the known set are
/// preserved.
///
/// After this call the user is absent from the online set, still known
/// whenever it was, and its presence reads `offline`.
pub fn handle_disconnect(hub: &mut Hub, user_name: &Option<String>) -> (voice_room: Option<String>)
    requires
        old(hub).wf(),
    ensures
        final(hub).wf(),
        final(hub).rate_limiter == old(hub).rate_limiter,
        user_name is None ==> final(hub).registry == old(hub).registry && final(hub).voice == old(hub).voice && voice_room is None,
        user_name is Some ==> {
            let u = user_name.unwrap()@;
            &&& !final(hub).registry.online@.contains(u)
            &&& final(hub).registry.online@ == old(hub).registry.online@.remove(u)
            &&& final(hub).registry.known@ == old(hub).registry.known@
            &&& (old(hub).registry.known@.contains(u) ==> final(hub).registry.known@.contains(u))
            &&& final(hub).registry.statuses@[u]@ == "offline"@
            &&& final(hub).registry.roles@ == old(hub).registry.roles@
            &&& final(hub).registry.user_keys@ == old(hub).registry.user_keys@
            &&& match voice_room {
                Some(name) => old(hub).voice.in_room(name@, u) && final(hub).voice.members(name@)
                    == old(hub).voice.members(name@).remove(u),
                None => final(hub).voice.rooms_seq() == old(hub).voice.rooms_seq(),
            }
        },
{
    let u = match user_name {
        Some(u) => u,
        None => {
            return None;
        },
    };
    hub.registry.disconnect_user(u.as_str());
    hub.voice.remove_user_everywhere(u.as_str())
}

} // verus!
