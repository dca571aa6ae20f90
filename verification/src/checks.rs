//! Who may use a family of commands.

use crate::model::SettingRole;
use vstd::prelude::*;

verus! {

/// Why a member may not use a command.
#[derive(Clone, Copy, Debug, PartialEq, Eq, Structural)]
pub enum CheckError {
    /// The guild requires a role that the member does not have.
    MissingRole(SettingRole),
}

/// Whether a member lacks the role that a guild requires: the guild has set
/// a role, the roles of the member are known, and the role is not among
/// them.
pub open spec fn lacks_role(required: Option<u64>, member_roles: Option<Seq<u64>>) -> bool {
    required matches Some(role) && member_roles matches Some(roles) && !roles.contains(role)
}

/// The roles of a member as a sequence, where they are known.
pub open spec fn known_roles(member_roles: Option<&Vec<u64>>) -> Option<Seq<u64>> {
    match member_roles {
        Some(roles) => Some(roles@),
        None => None,
    }
}

/// Checks that a member may use the commands that `setting_role` guards. A
/// guild that has set no role lets everyone in, and so does a member whose
/// roles are not known.
pub fn has_role(
    required: Option<u64>,
    member_roles: Option<&Vec<u64>>,
    setting_role: SettingRole,
) -> (checked: Result<(), CheckError>)
    ensures
        checked is Err <==> lacks_role(required, known_roles(member_roles)),
        checked matches Err(error) ==> error == CheckError::MissingRole(setting_role),
{
    match (required, member_roles) {
        (Some(role), Some(roles)) => {
            let mut i: usize = 0;
            while i < roles.len()
                invariant
                    i <= roles.len(),
                    required == Some(role),
                    member_roles == Some(roles),
                    forall|j: int| 0 <= j < i ==> roles@[j] != role,
                decreases roles.len() - i,
            {
                if roles[i] == role {
                    assert(roles@.contains(roles@[i as int]));
                    return Ok(());
                }
                i += 1;
            }
            Err(CheckError::MissingRole(setting_role))
        },
        _ => Ok(()),
    }
}

/// What a member is told who may not use a command.
pub open spec fn check_error_text(error: CheckError) -> Seq<char> {
    match error {
        CheckError::MissingRole(SettingRole::Movies) =>
            "You are missing the role: `movies`. Please ask a server administrator for the role."@,
    }
}

impl CheckError {
    /// What the member is told.
    pub fn describe(&self) -> (text: &'static str)
        ensures
            text@ == check_error_text(*self),
    {
        match self {
            CheckError::MissingRole(SettingRole::Movies) => {
                "You are missing the role: `movies`. Please ask a server administrator for the role."
            },
        }
    }
}

} // verus!
