//! The administrative role assignment: constant-time token comparison and
//! the rebuild of the role map for every session bound to a public key.

use subtle::ConstantTimeEq;
use vstd::prelude::*;

use crate::engine::Hub;
use crate::roles::{default_color, spec_default_color, RoleInfo};

verus! {

/// Whether a user name occurs in a list.
pub open spec fn in_list(l: Seq<String>, u: Seq<char>) -> bool {
    exists|q: int| 0 <= q < l.len() && l[q]@ == u
}

/// A role assignment request.
pub struct RoleBody {
    pub key: String,
    pub role: String,
    pub color: Option<String>,
}

/// Relies on subtle's `ConstantTimeEq` for byte slices: the comparison is
/// true exactly when the slices are equal, and runs in constant time for
/// equal lengths; since UTF-8 encoding is injective, byte equality is
/// string equality.
#[verifier::external_body]
fn token_eq(a: &str, b: &str) -> (r: bool)
    ensures
        r == (a@ == b@),
{
    a.as_bytes().ct_eq(b.as_bytes()).into()
}

/// Whether a bearer token authorizes administrative requests: a token must
/// be configured and match exactly. The comparison is constant-time.
pub fn admin_authorized(admin_token: &Option<String>, bearer: &str) -> (r: bool)
    ensures
        r == match crate::auth::view_opt(*admin_token) {
            Some(t) => t == bearer@,
            None => false,
        },
{
    match admin_token {
        Some(t) => token_eq(t.as_str(), bearer),
        None => false,
    }
}

/// Install a role for every user whose recorded public key matches the
/// request, resolving the color from the role's defaults when absent.
///
/// Returns the affected user names and the resolved color. On return the
/// role map holds the new role for exactly the affected users; every other
/// user's role is unchanged.
pub fn apply_role_assignment(hub: &mut Hub, body: &RoleBody) -> (r: (Vec<String>, Option<String>))
    requires
        old(hub).wf(),
    ensures
        final(hub).wf(),
        final(hub).voice == old(hub).voice,
        final(hub).rate_limiter == old(hub).rate_limiter,
        final(hub).registry.online@ == old(hub).registry.online@,
        final(hub).registry.known@ == old(hub).registry.known@,
        final(hub).registry.statuses@ == old(hub).registry.statuses@,
        final(hub).registry.user_keys@ == old(hub).registry.user_keys@,
        match (r.1, body.color) {
            (Some(c), Some(given)) => c@ == given@,
            (Some(c), None) => spec_default_color(body.role@) == Some(c@),
            (None, None) => spec_default_color(body.role@) is None,
            (None, Some(_)) => false,
        },
        // The affected users are exactly those bound to the key.
        forall|u: Seq<char>|
            #![trigger in_list(r.0@, u)]
            in_list(r.0@, u) <==> (old(hub).registry.user_keys@.contains_key(u) && old(hub).registry.user_keys@[u]@ == body.key@),
        // Affected users now carry the new role; everyone else is untouched.
        forall|p: int|
            0 <= p < r.0@.len() ==> final(hub).registry.roles@.contains_key(r.0@[p]@) && final(hub).registry.roles@[r.0@[p]@].role@ == body.role@,
        forall|u: Seq<char>|
            #![trigger final(hub).registry.roles@.contains_key(u)]
            !(old(hub).registry.user_keys@.contains_key(u) && old(hub).registry.user_keys@[u]@
                == body.key@) ==> (final(hub).registry.roles@.contains_key(u) == old(hub).registry.roles@.contains_key(u) && (old(hub).registry.roles@.contains_key(u)
                ==> final(hub).registry.roles@[u] == old(hub).registry.roles@[u])),
{
    let color: Option<String> = match &body.color {
        Some(c) => Some(c.clone()),
        None => default_color(body.role.as_str()),
    };
    // Collect the users bound to the key.
    let mut affected: Vec<String> = Vec::new();
    let n = hub.registry.user_keys.len();
    for i in 0..n
        invariant
            hub == old(hub),
            hub.wf(),
            n == hub.registry.user_keys.seq().len(),
            forall|p: int|
                0 <= p < affected@.len() ==> hub.registry.user_keys@.contains_key(affected@[p]@)
                    && hub.registry.user_keys@[affected@[p]@]@ == body.key@,
            forall|j: int|
                0 <= j < i && hub.registry.user_keys.seq()[j].1@ == body.key@ ==> in_list(
                    affected@,
                    hub.registry.user_keys.seq()[j].0,
                ),
    {
        proof {
            hub.registry.user_keys.lemma_entries();
        }
        let key = hub.registry.user_keys.value_at(i);
        if crate::strutil::str_eq(key.as_str(), body.key.as_str()) {
            let user = hub.registry.user_keys.key_at(i).clone();
            let ghost pre_affected = affected@;
            affected.push(user);
            proof {
                assert(affected@[affected@.len() - 1]@ == hub.registry.user_keys.seq()[
                    i as int].0);
                assert forall|p: int|
                    0 <= p < affected@.len() implies hub.registry.user_keys@.contains_key(
                    affected@[p]@,
                ) && hub.registry.user_keys@[affected@[p]@]@ == body.key@ by {
                    if p < affected@.len() - 1 {
                        assert(affected@[p] == pre_affected[p]);
                    } else {
                        assert(affected@[p]@ == hub.registry.user_keys.seq()[i as int].0);
                        assert(hub.registry.user_keys@.contains_key(
                            hub.registry.user_keys.seq()[i as int].0,
                        ));
                        assert(hub.registry.user_keys@[hub.registry.user_keys.seq()[i as int].0]
                            == hub.registry.user_keys.seq()[i as int].1);
                    }
                }
                assert forall|j: int|
                    0 <= j < i + 1 && hub.registry.user_keys.seq()[j].1@ == body.key@ implies
                    in_list(affected@, hub.registry.user_keys.seq()[j].0) by {
                    if j < i {
                        assert(in_list(pre_affected, hub.registry.user_keys.seq()[j].0));
                        let q = choose|q: int|
                            0 <= q < pre_affected.len() && pre_affected[q]@
                                == hub.registry.user_keys.seq()[j].0;
                        assert(affected@[q]@ == hub.registry.user_keys.seq()[j].0);
                    } else {
                        assert(affected@[affected@.len() - 1]@ == hub.registry.user_keys.seq()[j].0);
                    }
                }
            }
        }
    }
    proof {
        hub.registry.user_keys.lemma_entries();
        assert forall|u: Seq<char>|
            #![trigger in_list(affected@, u)]
            in_list(affected@, u) <==> (old(hub).registry.user_keys@.contains_key(u) && old(hub).registry.user_keys@[u]@
                == body.key@) by {
            if in_list(affected@, u) {
                let q = choose|q: int| 0 <= q < affected@.len() && affected@[q]@ == u;
            }
            if old(hub).registry.user_keys@.contains_key(u) && old(hub).registry.user_keys@[u]@
                == body.key@ {
                let j = choose|j: int|
                    0 <= j < hub.registry.user_keys.seq().len()
                        && hub.registry.user_keys.seq()[j].0 == u;
                assert(hub.registry.user_keys.seq()[j].1@ == body.key@);
            }
        }
    }
    // Install the role for each affected user.
    let m = affected.len();
    let ghost orig_roles = hub.registry.roles@;
    for p in 0..m
        invariant
            m == affected@.len(),
            hub.wf(),
            hub.registry.online@ == old(hub).registry.online@,
            hub.registry.known@ == old(hub).registry.known@,
            hub.registry.statuses@ == old(hub).registry.statuses@,
            hub.registry.user_keys@ == old(hub).registry.user_keys@,
            hub.voice == old(hub).voice,
            hub.rate_limiter == old(hub).rate_limiter,
            forall|q: int|
                0 <= q < p ==> hub.registry.roles@.contains_key(affected@[q]@)
                    && hub.registry.roles@[affected@[q]@].role@ == body.role@,
            forall|u: Seq<char>|
                #![trigger hub.registry.roles@.contains_key(u)]
                !in_list(affected@, u) ==> (
                hub.registry.roles@.contains_key(u) == orig_roles.contains_key(u) && (
                orig_roles.contains_key(u) ==> hub.registry.roles@[u] == orig_roles[u])),
    {
        let resolved: Option<String> = match &color {
            Some(c) => Some(c.clone()),
            None => None,
        };
        let info = RoleInfo { role: body.role.clone(), color: resolved };
        let ghost pre_roles = hub.registry.roles@;
        hub.registry.install_role(affected[p].as_str(), info);
        proof {
            let key = affected@[p as int]@;
            assert forall|q: int|
                0 <= q < p + 1 implies hub.registry.roles@.contains_key(affected@[q]@)
                && hub.registry.roles@[affected@[q]@].role@ == body.role@ by {
                if affected@[q]@ != key {
                    assert(hub.registry.roles@[affected@[q]@] == pre_roles[affected@[q]@]);
                }
            }
            assert forall|u: Seq<char>|
                #![trigger hub.registry.roles@.contains_key(u)]
                !in_list(affected@, u) implies (
                hub.registry.roles@.contains_key(u) == orig_roles.contains_key(u) && (
                orig_roles.contains_key(u) ==> hub.registry.roles@[u] == orig_roles[u])) by {
                if u == key {
                    assert(affected@[p as int]@ == u);
                    assert(in_list(affected@, u));
                    assert(false);
                }
                assert(pre_roles.contains_key(u) == orig_roles.contains_key(u));
                assert(hub.registry.roles@.contains_key(u) == pre_roles.contains_key(u));
                if pre_roles.contains_key(u) {
                    assert(hub.registry.roles@[u] == pre_roles[u]);
                }
            }
        }
    }
    (affected, color)
}

} // verus!
