//! Planning of the actions that configure the runtime and its service.
use vstd::prelude::*;

use crate::action::{ActionError, ActionErrorKind, ActionState, ActionTag, StatefulAction};
use crate::settings::InitSystem;

verus! {

/// Where the content of a unit file comes from.
#[derive(Clone, Debug)]
pub enum UnitSrc {
    /// A file to link to.
    Path(String),
    /// The text of the unit itself.
    Literal(String),
}

/// A socket unit to place for the daemon.
#[derive(Clone, Debug)]
pub struct SocketFile {
    pub name: String,
    pub src: UnitSrc,
    pub dest: String,
}

/// Configure the init system to run the daemon.
#[derive(Clone, Debug)]
pub struct ConfigureInitService {
    pub init: InitSystem,
    pub start_daemon: bool,
    pub service_src: Option<UnitSrc>,
    pub service_name: Option<String>,
    pub service_dest: Option<String>,
    pub socket_files: Vec<SocketFile>,
}

/// What was found at the destination of a unit file.
#[derive(Debug)]
pub enum UnitFound {
    /// Nothing (or a dangling link).
    Nothing,
    /// A symbolic link: its target, or why it could not be read.
    Symlink(Result<String, String>),
    /// Another file: its content, or why it could not be read.
    File(Result<String, String>),
}

/// The directory of overrides of the unit placed at `dest`.
pub open spec fn override_dir(dest: Seq<char>) -> Seq<char> {
    dest + ".d"@
}

impl ConfigureInitService {
    /// Check that a unit from `src` can be placed at `dest`, given what was
    /// `found` there and whether its override directory exists: what is there
    /// must already be that unit, and no overrides may exist.
    pub fn check_if_systemd_unit_exists(src: &UnitSrc, dest: &str, found: UnitFound, override_dir_exists: bool) -> (r: Result<(), ActionErrorKind>)
        ensures
            match (src, found) {
                (_, UnitFound::Nothing) => true,
                (UnitSrc::Path(target), UnitFound::Symlink(Ok(link))) => link@ != target@ ==> r is Err
                    && r->Err_0 is SymlinkExists && r->Err_0->SymlinkExists_0@ == dest@,
                (UnitSrc::Path(_), UnitFound::Symlink(Err(cause))) => r is Err && r->Err_0 is ReadSymlink
                    && r->Err_0->ReadSymlink_0@ == dest@ && r->Err_0->ReadSymlink_1 == cause,
                (UnitSrc::Path(_), UnitFound::File(_)) => r is Err && r->Err_0 is FileExists && r->Err_0->FileExists_0@ == dest@,
                (UnitSrc::Literal(_), UnitFound::Symlink(_)) => r is Err && r->Err_0 is FileExists
                    && r->Err_0->FileExists_0@ == dest@,
                (UnitSrc::Literal(content), UnitFound::File(Ok(actual))) => actual@ != content@ ==> r is Err
                    && r->Err_0 is DifferentContent && r->Err_0->DifferentContent_0@ == dest@,
                (UnitSrc::Literal(_), UnitFound::File(Err(cause))) => r is Err && r->Err_0 is Read
                    && r->Err_0->Read_0@ == dest@ && r->Err_0->Read_1 == cause,
            },
            r is Ok <==> {
                &&& !override_dir_exists
                &&& match (src, found) {
                    (_, UnitFound::Nothing) => true,
                    (UnitSrc::Path(target), UnitFound::Symlink(Ok(link))) => link@ == target@,
                    (UnitSrc::Literal(content), UnitFound::File(Ok(actual))) => actual@ == content@,
                    _ => false,
                }
            },
            override_dir_exists && match (src, found) {
                (_, UnitFound::Nothing) => true,
                (UnitSrc::Path(target), UnitFound::Symlink(Ok(link))) => link@ == target@,
                (UnitSrc::Literal(content), UnitFound::File(Ok(actual))) => actual@ == content@,
                _ => false,
            } ==> r is Err && r->Err_0 is DirExists && r->Err_0->DirExists_0@ == override_dir(dest@),
    {
        let path = dest.to_string();
        match (src, found) {
            (_, UnitFound::Nothing) => {},
            (UnitSrc::Path(target), UnitFound::Symlink(link)) => match link {
                Err(cause) => return Err(ActionErrorKind::ReadSymlink(path, cause)),
                Ok(link) => {
                    if !(link == *target) {
                        return Err(ActionErrorKind::SymlinkExists(path));
                    }
                },
            },
            (UnitSrc::Path(_), UnitFound::File(_)) => return Err(ActionErrorKind::FileExists(path)),
            (UnitSrc::Literal(_), UnitFound::Symlink(_)) => return Err(ActionErrorKind::FileExists(path)),
            (UnitSrc::Literal(content), UnitFound::File(actual)) => match actual {
                Err(cause) => return Err(ActionErrorKind::Read(path, cause)),
                Ok(actual) => {
                    if !(actual == *content) {
                        return Err(ActionErrorKind::DifferentContent(path));
                    }
                },
            },
        }
        if override_dir_exists {
            return Err(ActionErrorKind::DirExists(path.concat(".d")));
        }
        Ok(())
    }

    pub open spec fn spec_tag() -> Seq<char> {
        "configure_init_service"@
    }

    pub fn action_tag() -> (r: ActionTag)
        ensures
            r.0@ == Self::spec_tag(),
    {
        proof {
            reveal_strlit("configure_init_service");
        }
        ActionTag("configure_init_service".to_string())
    }

    /// Plan configuring `init` to run the daemon.
    ///
    /// `systemd_booted` says whether the host was booted with systemd, and
    /// `has_systemctl` whether `systemctl` is available. With systemd, both
    /// are needed when the daemon is to be started, and `systemctl` always.
    pub fn plan(
        init: InitSystem,
        start_daemon: bool,
        service_src: Option<UnitSrc>,
        service_dest: Option<String>,
        service_name: Option<String>,
        socket_files: Vec<SocketFile>,
        systemd_booted: bool,
        has_systemctl: bool,
    ) -> (r: Result<StatefulAction<Self>, ActionError>)
        ensures
            r is Err <==> init == InitSystem::Systemd && ((start_daemon && !systemd_booted) || !has_systemctl),
            r is Err ==> r->Err_0.action_tag.0@ == Self::spec_tag() && r->Err_0.kind == ActionErrorKind::SystemdMissing,
            r is Ok ==> {
                &&& r->Ok_0@.state == ActionState::Uncompleted
                &&& r->Ok_0.spec_inner().init == init
                &&& r->Ok_0.spec_inner().start_daemon == start_daemon
                &&& r->Ok_0.spec_inner().service_src == service_src
                &&& r->Ok_0.spec_inner().service_dest == service_dest
                &&& r->Ok_0.spec_inner().service_name == service_name
                &&& r->Ok_0.spec_inner().socket_files == socket_files
            },
    {
        match init {
            InitSystem::Systemd => {
                if start_daemon && !systemd_booted {
                    return Err(ActionError::new(Self::action_tag(), ActionErrorKind::SystemdMissing));
                }
                if !has_systemctl {
                    return Err(ActionError::new(Self::action_tag(), ActionErrorKind::SystemdMissing));
                }
            },
            InitSystem::Launchd => {},
            InitSystem::NoInit => {},
        }
        Ok(
            StatefulAction::uncompleted(
                ConfigureInitService { init, start_daemon, service_src, service_name, service_dest, socket_files },
            ),
        )
    }
}

/// Why configuring the daemon service failed.
#[derive(Clone, Debug)]
pub enum ConfigureNixDaemonServiceError {
    /// No supported init system was found.
    InitNotSupported,
}

/// The channel list written for the superuser.
pub const DEFAULT_CHANNELS: &'static str = "https://nixos.org/channels/nixpkgs-unstable nixpkgs\n";

/// The name of the channel list file in a home directory.
pub const CHANNELS_FILE: &'static str = "/.nix-channels";

/// Set up the default system channel.
#[derive(Clone, Debug)]
pub struct SetupChannels {
    /// The channel list file to create.
    pub path: String,
    /// What the channel list holds.
    pub contents: String,
}

impl SetupChannels {
    pub open spec fn spec_tag() -> Seq<char> {
        "setup_channels"@
    }

    pub fn action_tag() -> (r: ActionTag)
        ensures
            r.0@ == Self::spec_tag(),
    {
        proof {
            reveal_strlit("setup_channels");
        }
        ActionTag("setup_channels".to_string())
    }

    /// Plan writing the default channel list into the home directory of the
    /// superuser, `root_home`, which may be unknown.
    pub fn plan(root_home: Option<String>) -> (r: Result<StatefulAction<Self>, ActionError>)
        ensures
            r is Err <==> root_home is None,
            r is Err ==> r->Err_0.action_tag.0@ == Self::spec_tag()
                && r->Err_0.kind == ActionErrorKind::SetupChannels(SetupChannelsError::NoRootHome),
            r is Ok ==> {
                &&& r->Ok_0@.state == ActionState::Uncompleted
                &&& r->Ok_0.spec_inner().path@ == root_home->Some_0@ + CHANNELS_FILE@
                &&& r->Ok_0.spec_inner().contents@ == DEFAULT_CHANNELS@
            },
    {
        match root_home {
            None => Err(
                ActionError::new(Self::action_tag(), ActionErrorKind::SetupChannels(SetupChannelsError::NoRootHome)),
            ),
            Some(home) => {
                let path = home.concat(CHANNELS_FILE);
                Ok(StatefulAction::uncompleted(SetupChannels { path, contents: DEFAULT_CHANNELS.to_string() }))
            },
        }
    }
}

/// Why setting up channels failed.
#[derive(Clone, Debug)]
pub enum SetupChannelsError {
    /// The superuser's home directory is unknown.
    NoRootHome,
}

} // verus!
