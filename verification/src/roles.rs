//! Role records, default role colors, and the channel-manage permission.

use vstd::prelude::*;

use crate::strutil::{eq_ignore_ascii_case, str_eq_ignore_ascii_case};

verus! {

/// A role assignment: role name and optional display color.
pub struct RoleInfo {
    pub role: String,
    pub color: Option<String>,
}

impl RoleInfo {
    /// A field-by-field copy.
    pub fn duplicate(&self) -> (r: RoleInfo)
        ensures
            r.role@ == self.role@,
            match (r.color, self.color) {
                (Some(a), Some(b)) => a@ == b@,
                (None, None) => true,
                _ => false,
            },
    {
        RoleInfo {
            role: self.role.clone(),
            color: match &self.color {
                Some(c) => Some(c.clone()),
                None => None,
            },
        }
    }
}

/// The default color attached to a role name, if any.
pub open spec fn spec_default_color(role: Seq<char>) -> Option<Seq<char>> {
    if eq_ignore_ascii_case(role, "Admin"@) {
        Some("#eab308"@)
    } else if eq_ignore_ascii_case(role, "Mod"@) {
        Some("#10b981"@)
    } else if eq_ignore_ascii_case(role, "Owner"@) {
        Some("#3b82f6"@)
    } else {
        None
    }
}

/// Return the default color for a role, if one is defined.
///
/// Role names are compared case-insensitively.
pub fn default_color(role: &str) -> (r: Option<String>)
    ensures
        match r {
            Some(c) => spec_default_color(role@) == Some(c@),
            None => spec_default_color(role@) is None,
        },
{
    if str_eq_ignore_ascii_case(role, "Admin") {
        Some("#eab308".to_owned())
    } else if str_eq_ignore_ascii_case(role, "Mod") {
        Some("#10b981".to_owned())
    } else if str_eq_ignore_ascii_case(role, "Owner") {
        Some("#3b82f6".to_owned())
    } else {
        None
    }
}

/// Roles that may create, update or delete channels when an admin token is
/// configured.
pub open spec fn is_manage_role(role: Seq<char>) -> bool {
    eq_ignore_ascii_case(role, "Admin"@) || eq_ignore_ascii_case(role, "Mod"@)
        || eq_ignore_ascii_case(role, "Owner"@)
}

/// Whether a role name grants the channel-manage permission.
pub fn role_allows_manage(role: &str) -> (r: bool)
    ensures
        r == is_manage_role(role@),
{
    str_eq_ignore_ascii_case(role, "Admin") || str_eq_ignore_ascii_case(role, "Mod")
        || str_eq_ignore_ascii_case(role, "Owner")
}

} // verus!
