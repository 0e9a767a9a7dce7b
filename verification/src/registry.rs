//! The shared presence registry: online users, known users, statuses,
//! user keys and installed roles.

use vstd::prelude::*;

use crate::collections::{StrMap, StrSet};
use crate::roles::{is_manage_role, role_allows_manage, RoleInfo};

verus! {

/// `post` is `pre` with the string value under `k` set to `v`, all other
/// entries untouched.
pub open spec fn str_value_set(
    pre: Map<Seq<char>, String>,
    post: Map<Seq<char>, String>,
    k: Seq<char>,
    v: Seq<char>,
) -> bool {
    &&& post.dom() == pre.dom().insert(k)
    &&& post.contains_key(k) && post[k]@ == v
    &&& forall|x: Seq<char>| pre.contains_key(x) && x != k ==> post.contains_key(x) && post[x]
        == pre[x]
}

/// The in-memory presence registry shared by all sessions.
pub struct Registry {
    /// Users currently holding an open authenticated socket.
    pub online: StrSet,
    /// Every user that authenticated since process start.
    pub known: StrSet,
    /// Last announced status of each user.
    pub statuses: StrMap<String>,
    /// Base64 public key each user authenticated with.
    pub user_keys: StrMap<String>,
    /// Roles installed for users.
    pub roles: StrMap<RoleInfo>,
}

impl Registry {
    pub open spec fn wf(&self) -> bool {
        &&& self.online.wf()
        &&& self.known.wf()
        &&& self.statuses.wf()
        &&& self.user_keys.wf()
        &&& self.roles.wf()
    }

    pub fn new() -> (r: Registry)
        ensures
            r.wf(),
            r.online@ == Set::<Seq<char>>::empty(),
            r.known@ == Set::<Seq<char>>::empty(),
            r.statuses@ == Map::<Seq<char>, String>::empty(),
            r.user_keys@ == Map::<Seq<char>, String>::empty(),
            r.roles@ == Map::<Seq<char>, RoleInfo>::empty(),
    {
        Registry {
            online: StrSet::new(),
            known: StrSet::new(),
            statuses: StrMap::new(),
            user_keys: StrMap::new(),
            roles: StrMap::new(),
        }
    }

    /// Register a user after successful authentication: the user joins the
    /// online and known sets and is marked `online`.
    ///
    /// After this call the user is in both `online` and `known`, and the
    /// user's status is `online`.
    pub fn register_user(&mut self, user: &str)
        requires
            old(self).wf(),
        ensures
            final(self).wf(),
            final(self).online@ == old(self).online@.insert(user@),
            final(self).known@ == old(self).known@.insert(user@),
            str_value_set(old(self).statuses@, final(self).statuses@, user@, "online"@),
            final(self).user_keys@ == old(self).user_keys@,
            final(self).roles@ == old(self).roles@,
            final(self).online@.contains(user@),
            final(self).known@.contains(user@),
            final(self).statuses@[user@]@ == "online"@,
    {
        self.online.insert(user);
        self.known.insert(user);
        self.statuses.insert(user, "online".to_owned());
    }

    /// Clean up after a disconnect: the user leaves the online set and is
    /// marked `offline`; the known set, keys and roles are preserved.
    ///
    /// After this call the user is absent from `online`, still in `known`
    /// whenever it was before, and its status is `offline`.
    pub fn disconnect_user(&mut self, user: &str)
        requires
            old(self).wf(),
        ensures
            final(self).wf(),
            final(self).online@ == old(self).online@.remove(user@),
            final(self).known@ == old(self).known@,
            str_value_set(old(self).statuses@, final(self).statuses@, user@, "offline"@),
            final(self).user_keys@ == old(self).user_keys@,
            final(self).roles@ == old(self).roles@,
            !final(self).online@.contains(user@),
            old(self).known@.contains(user@) ==> final(self).known@.contains(user@),
            final(self).statuses@[user@]@ == "offline"@,
    {
        self.online.remove(user);
        self.statuses.insert(user, "offline".to_owned());
    }

    /// Record a user's announced status.
    pub fn set_status(&mut self, user: &str, status: String)
        requires
            old(self).wf(),
        ensures
            final(self).wf(),
            str_value_set(old(self).statuses@, final(self).statuses@, user@, status@),
            final(self).online@ == old(self).online@,
            final(self).known@ == old(self).known@,
            final(self).user_keys@ == old(self).user_keys@,
            final(self).roles@ == old(self).roles@,
    {
        self.statuses.insert(user, status);
    }

    /// Record the public key a user authenticated with.
    pub fn record_key(&mut self, user: &str, key: String)
        requires
            old(self).wf(),
        ensures
            final(self).wf(),
            str_value_set(old(self).user_keys@, final(self).user_keys@, user@, key@),
            final(self).online@ == old(self).online@,
            final(self).known@ == old(self).known@,
            final(self).statuses@ == old(self).statuses@,
            final(self).roles@ == old(self).roles@,
    {
        self.user_keys.insert(user, key);
    }

    /// Install a role for a user.
    pub fn install_role(&mut self, user: &str, info: RoleInfo)
        requires
            old(self).wf(),
        ensures
            final(self).wf(),
            final(self).roles@ == old(self).roles@.insert(user@, info),
            final(self).online@ == old(self).online@,
            final(self).known@ == old(self).known@,
            final(self).statuses@ == old(self).statuses@,
            final(self).user_keys@ == old(self).user_keys@,
    {
        self.roles.insert(user, info);
    }

    /// Whether a user may manage channels.
    ///
    /// Without a configured admin token every authenticated user may manage
    /// channels; with one, the user's installed role must be `Admin`, `Mod`
    /// or `Owner`, case-insensitively.
    pub open spec fn spec_can_manage(&self, admin_token_configured: bool, user: Seq<char>) -> bool {
        !admin_token_configured || (self.roles@.contains_key(user) && is_manage_role(
            self.roles@[user].role@,
        ))
    }

    /// Decide the channel-manage permission for a user.
    pub fn can_manage_channels(&self, admin_token_configured: bool, user: &str) -> (r: bool)
        requires
            self.wf(),
        ensures
            r == self.spec_can_manage(admin_token_configured, user@),
    {
        if !admin_token_configured {
            return true;
        }
        match self.roles.get(user) {
            Some(info) => role_allows_manage(info.role.as_str()),
            None => false,
        }
    }

    /// Collect the online users and all known users.
    pub fn get_user_lists(&self) -> (r: (Vec<String>, Vec<String>))
        requires
            self.wf(),
        ensures
            crate::collections::set_of_strings(r.0@) == self.online@,
            crate::collections::set_of_strings(r.1@) == self.known@,
    {
        (self.online.to_vec(), self.known.to_vec())
    }
}

} // verus!
