//! Planning of the basic provisioning actions.
//!
//! Each `plan` takes what was observed of the host as plain values and
//! decides whether the action is needed, already done, or impossible.
use vstd::prelude::*;

use crate::action::{ActionError, ActionErrorKind, ActionState, ActionTag, StatefulAction};
use crate::text::{has_prefix, starts_with, texts_of};

verus! {

/// Which group management commands the host offers.
#[derive(Clone, Copy, Debug)]
pub struct GroupTools {
    pub groupadd: bool,
    pub addgroup: bool,
    pub groupdel: bool,
    pub delgroup: bool,
}

/// Create an operating system level user group.
#[derive(Clone, Debug)]
pub struct CreateGroup {
    pub name: String,
    pub gid: u32,
}

impl CreateGroup {
    pub open spec fn spec_tag() -> Seq<char> {
        "create_group"@
    }

    pub fn action_tag() -> (r: ActionTag)
        ensures
            r.0@ == Self::spec_tag(),
    {
        proof {
            reveal_strlit("create_group");
        }
        ActionTag("create_group".to_string())
    }

    /// Plan creating group `name` with `gid`.
    ///
    /// `is_macos` says whether the host is macOS, where the group tools are
    /// always present; `tools` says which group commands the host offers;
    /// `existing_gid` is the GID of an existing group called `name`, if any,
    /// or why looking it up failed.
    pub fn plan(name: String, gid: u32, is_macos: bool, tools: GroupTools, existing_gid: Result<Option<u32>, String>) -> (r:
        Result<StatefulAction<Self>, ActionError>)
        ensures
            r is Err ==> r->Err_0.action_tag.0@ == Self::spec_tag(),
            !is_macos && !tools.groupadd && !tools.addgroup ==> r is Err && r->Err_0.kind
                == ActionErrorKind::MissingGroupCreationCommand,
            !is_macos && (tools.groupadd || tools.addgroup) && !tools.groupdel && !tools.delgroup ==> r is Err
                && r->Err_0.kind == ActionErrorKind::MissingGroupDeletionCommand,
            is_macos || ((tools.groupadd || tools.addgroup) && (tools.groupdel || tools.delgroup)) ==> match existing_gid {
                Err(cause) => r is Err && r->Err_0.kind == ActionErrorKind::GettingGroupId(name, cause),
                Ok(Some(found)) => if found != gid {
                    r is Err && r->Err_0.kind == ActionErrorKind::GroupGidMismatch(name, found, gid)
                } else {
                    r is Ok && r->Ok_0@.state == ActionState::Completed && r->Ok_0.spec_inner().name == name
                        && r->Ok_0.spec_inner().gid == gid
                },
                Ok(None) => r is Ok && r->Ok_0@.state == ActionState::Uncompleted && r->Ok_0.spec_inner().name == name
                    && r->Ok_0.spec_inner().gid == gid,
            },
    {
        if !is_macos {
            if !(tools.groupadd || tools.addgroup) {
                return Err(ActionError::new(Self::action_tag(), ActionErrorKind::MissingGroupCreationCommand));
            }
            if !(tools.groupdel || tools.delgroup) {
                return Err(ActionError::new(Self::action_tag(), ActionErrorKind::MissingGroupDeletionCommand));
            }
        }
        match existing_gid {
            Err(cause) => Err(ActionError::new(Self::action_tag(), ActionErrorKind::GettingGroupId(name, cause))),
            Ok(Some(found)) => {
                if found != gid {
                    Err(ActionError::new(Self::action_tag(), ActionErrorKind::GroupGidMismatch(name, found, gid)))
                } else {
                    Ok(StatefulAction::completed(CreateGroup { name, gid }))
                }
            },
            Ok(None) => Ok(StatefulAction::uncompleted(CreateGroup { name, gid })),
        }
    }
}

/// Delete an operating system level user left behind by a previous install.
#[derive(Clone, Debug)]
pub struct DeleteUser {
    pub name: String,
}

impl DeleteUser {
    pub open spec fn spec_tag() -> Seq<char> {
        "delete_user"@
    }

    pub fn action_tag() -> (r: ActionTag)
        ensures
            r.0@ == Self::spec_tag(),
    {
        proof {
            reveal_strlit("delete_user");
        }
        ActionTag("delete_user".to_string())
    }

    /// Plan deleting user `name`.
    ///
    /// `is_macos` says whether the host is macOS; `has_delete_command` whether
    /// `userdel` or `deluser` is available; `user_exists` whether the user
    /// exists, or why looking it up failed. A user that is to be deleted must
    /// exist, so the action is never planned as already done.
    pub fn plan(name: String, is_macos: bool, has_delete_command: bool, user_exists: Result<bool, String>) -> (r:
        Result<StatefulAction<Self>, ActionError>)
        ensures
            r is Err ==> r->Err_0.action_tag.0@ == Self::spec_tag(),
            !is_macos && !has_delete_command ==> r is Err && r->Err_0.kind == ActionErrorKind::MissingUserDeletionCommand,
            is_macos || has_delete_command ==> match user_exists {
                Err(cause) => r is Err && r->Err_0.kind == ActionErrorKind::GettingUserId(name, cause),
                Ok(false) => r is Err && r->Err_0.kind == ActionErrorKind::NoUser(name),
                Ok(true) => r is Ok && r->Ok_0@.state == ActionState::Uncompleted && r->Ok_0.spec_inner().name == name,
            },
    {
        if !is_macos && !has_delete_command {
            return Err(ActionError::new(Self::action_tag(), ActionErrorKind::MissingUserDeletionCommand));
        }
        match user_exists {
            Err(cause) => Err(ActionError::new(Self::action_tag(), ActionErrorKind::GettingUserId(name, cause))),
            Ok(false) => Err(ActionError::new(Self::action_tag(), ActionErrorKind::NoUser(name))),
            Ok(true) => Ok(StatefulAction::uncompleted(DeleteUser { name })),
        }
    }
}

/// Unpack the bundled runtime archive into a destination directory.
#[derive(Clone, Debug)]
pub struct FetchAndUnpackNix {
    pub dest: String,
}

impl FetchAndUnpackNix {
    /// Plan unpacking into `dest`; the archive is always unpacked afresh.
    pub fn plan(dest: String) -> (r: Result<StatefulAction<Self>, ActionError>)
        ensures
            r is Ok,
            r->Ok_0@.state == ActionState::Uncompleted,
            r->Ok_0.spec_inner().dest == dest,
    {
        Ok(StatefulAction::uncompleted(FetchAndUnpackNix { dest }))
    }
}

/// Why unpacking the bundled archive failed.
#[derive(Clone, Debug)]
pub enum UnpackError {
    /// Decompression failed: the cause.
    Zstd(String),
    /// Extracting the archive failed: the cause.
    Unarchive(String),
}

/// Set up the default profile with the runtime and its certificate bundle.
#[derive(Clone, Debug)]
pub struct SetupDefaultProfile {
    pub unpacked_path: String,
}

impl SetupDefaultProfile {
    /// Plan setting up the default profile from what was unpacked at `unpacked_path`.
    pub fn plan(unpacked_path: String) -> (r: Result<StatefulAction<Self>, ActionError>)
        ensures
            r is Ok,
            r->Ok_0@.state == ActionState::Uncompleted,
            r->Ok_0.spec_inner().unpacked_path == unpacked_path,
    {
        Ok(StatefulAction::uncompleted(SetupDefaultProfile { unpacked_path }))
    }
}

/// The entries of `entries` whose names start with `prefix`, in order.
pub open spec fn entries_starting(entries: Seq<Seq<char>>, prefix: Seq<char>) -> Seq<Seq<char>>
    decreases entries.len(),
{
    if entries.len() == 0 {
        Seq::empty()
    } else {
        let rest = entries_starting(entries.drop_last(), prefix);
        if starts_with(entries.last(), prefix) {
            rest.push(entries.last())
        } else {
            rest
        }
    }
}

impl SetupDefaultProfile {
    pub open spec fn spec_tag() -> Seq<char> {
        "setup_default_profile"@
    }

    pub fn action_tag() -> (r: ActionTag)
        ensures
            r.0@ == Self::spec_tag(),
    {
        proof {
            reveal_strlit("setup_default_profile");
        }
        ActionTag("setup_default_profile".to_string())
    }

    /// The runtime directory among the names `entries` of what was unpacked:
    /// the one name that starts with `nix-` and the runtime's version
    /// `nix_version`. Anything but exactly one such name is a malformed bundle.
    pub fn find_unpacked_nix(entries: &Vec<String>, nix_version: &str) -> (r: Result<String, ActionError>)
        ensures
            ({
                let found = entries_starting(texts_of(entries@), "nix-"@ + nix_version@);
                &&& r is Ok <==> found.len() == 1
                &&& r is Ok ==> r->Ok_0@ == found[0]
                &&& r is Err ==> r->Err_0.action_tag.0@ == Self::spec_tag()
                    && r->Err_0.kind == ActionErrorKind::MalformedBinaryTarball
            }),
    {
        let prefix = "nix-".to_string().concat(nix_version);
        let ghost t = texts_of(entries@);
        let mut found: Vec<String> = Vec::new();
        let mut q: usize = 0;
        while q < entries.len()
            invariant
                t == texts_of(entries@),
                prefix@ == "nix-"@ + nix_version@,
                0 <= q <= entries@.len(),
                texts_of(found@) == entries_starting(t.subrange(0, q as int), prefix@),
            decreases entries@.len() - q,
        {
            assert(t.subrange(0, q + 1).drop_last() =~= t.subrange(0, q as int));
            assert(t.subrange(0, q + 1).last() == t[q as int]);
            if has_prefix(entries[q].as_str(), prefix.as_str()) {
                let ghost before = found@;
                let s = entries[q].clone();
                found.push(s);
                assert(texts_of(found@) =~= texts_of(before).push(s@));
            }
            q = q + 1;
        }
        assert(t.subrange(0, entries@.len() as int) =~= t);
        if found.len() == 1 {
            let dir = found.remove(0);
            assert(dir@ == texts_of(found@.insert(0, dir))[0]);
            Ok(dir)
        } else {
            Err(ActionError::new(Self::action_tag(), ActionErrorKind::MalformedBinaryTarball))
        }
    }
}

/// Why setting up the default profile failed.
#[derive(Debug, Clone)]
pub enum SetupDefaultProfileError {
    /// The superuser's home directory is unknown.
    NoRootHome,
    /// Merging the packages into the profile failed.
    NixProfile(crate::profile::ProfileError),
}

} // verus!
