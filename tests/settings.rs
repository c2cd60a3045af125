use nix_installer::action::base::{CreateGroup, DeleteUser, FetchAndUnpackNix, GroupTools, SetupDefaultProfile};
use nix_installer::action::common::{ConfigureInitService, SetupChannels, SetupChannelsError, UnitFound, UnitSrc};
use nix_installer::action::linux::{ProvisionSelinux, SystemctlDaemonReload};
use nix_installer::cli::interaction::{choice_for_answer, PromptChoice};
use nix_installer::os::diskutil::DiskUtilInfoOutput;
use nix_installer::planner::macos::{check_suis, MacosError};
use nix_installer::settings::{
    CommonSettings, HostArchitecture, HostOs, InitSettings, InitSystem, InstallSettingsError, UrlOrPathOrString,
};
use nix_installer::{der_from, parse_ssl_cert, ActionErrorKind, ActionState};

const ALL_TOOLS: GroupTools = GroupTools { groupadd: true, addgroup: false, groupdel: true, delgroup: false };

#[test]
fn url_or_path_or_string_parses() {
    let parse = |s: &str| UrlOrPathOrString::from_str(s, std::path::Path::new(s).exists());
    assert_eq!(
        parse("https://boop.bleat").unwrap(),
        UrlOrPathOrString::Url(url::Url::parse("https://boop.bleat").unwrap().to_string()),
    );
    assert_eq!(
        parse("file:///boop/bleat").unwrap(),
        UrlOrPathOrString::Url(url::Url::parse("file:///boop/bleat").unwrap().to_string()),
    );
    // The file *must* exist!
    let file = tempfile::NamedTempFile::new().unwrap();
    let path = file.path().to_str().unwrap().to_string();
    assert_eq!(parse(&path).unwrap(), UrlOrPathOrString::Path(path.clone()));
    assert_eq!(parse("Boop").unwrap(), UrlOrPathOrString::String("Boop".to_string()));
}

#[test]
fn url_text_is_normalized() {
    assert_eq!(
        UrlOrPathOrString::from_str("HTTPS://Boop.Bleat", false).unwrap(),
        UrlOrPathOrString::Url("https://boop.bleat/".to_string())
    );
    assert!(matches!(UrlOrPathOrString::from_str("http://[::1", false), Err(InstallSettingsError::Parse(_))));
}

#[test]
fn init_settings_builders() {
    let mut s = InitSettings::default(HostArchitecture::X86_64, HostOs::Linux, "x86_64-unknown-linux-gnu".to_string(), false)
        .unwrap();
    assert_eq!(s.init, InitSystem::Systemd);
    assert!(!s.start_daemon);
    s.init(InitSystem::NoInit).start_daemon(true);
    assert_eq!(s.init, InitSystem::NoInit);
    assert!(s.start_daemon);
    assert_eq!(s.init.as_str(), "none");
}

#[test]
fn macos_defaults() {
    let init = InitSettings::default(HostArchitecture::Aarch64, HostOs::MacOs, "aarch64-apple-darwin".to_string(), false)
        .unwrap();
    assert_eq!(init.init, InitSystem::Launchd);
    assert!(init.start_daemon);
    let common = CommonSettings::default(HostArchitecture::Aarch64, HostOs::MacOs, "aarch64-apple-darwin".to_string()).unwrap();
    assert_eq!(common.nix_build_user_prefix, "_nixbld");
    assert_eq!(common.nix_build_group_id, 350);
    assert_eq!(common.nix_build_user_id_base, 350);
    assert_eq!(common.nix_build_user_count, 32);
    assert_eq!(common.nix_build_group_name, "nixbld");
}

#[test]
fn linux_defaults() {
    let common = CommonSettings::default(HostArchitecture::X86_64, HostOs::Linux, "x86_64-unknown-linux-gnu".to_string()).unwrap();
    assert_eq!(common.nix_build_user_prefix, "nixbld");
    assert_eq!(common.nix_build_group_id, 30_000);
    assert_eq!(common.nix_build_user_id_base, 30_000);
    assert!(common.modify_profile);
}

#[test]
fn unsupported_host_is_refused() {
    match CommonSettings::default(HostArchitecture::X86_32, HostOs::MacOs, "i686-apple-darwin".to_string()) {
        Err(InstallSettingsError::UnsupportedArchitecture(t)) => assert_eq!(t, "i686-apple-darwin"),
        other => panic!("unexpected {:?}", other),
    }
    assert!(InitSettings::default(HostArchitecture::Other, HostOs::Linux, "riscv".to_string(), true).is_err());
}

#[test]
fn create_group_plan_outcomes() {
    let done = CreateGroup::plan("nixbld".to_string(), 30_000, false, ALL_TOOLS, Ok(Some(30_000))).unwrap();
    assert_eq!(done.state(), ActionState::Completed);
    let todo = CreateGroup::plan("nixbld".to_string(), 30_000, false, ALL_TOOLS, Ok(None)).unwrap();
    assert_eq!(todo.state(), ActionState::Uncompleted);
    assert_eq!(todo.inner().gid, 30_000);
    match CreateGroup::plan("nixbld".to_string(), 30_000, false, ALL_TOOLS, Ok(Some(1))) {
        Err(e) => {
            assert_eq!(e.action_tag.0, "create_group");
            assert!(matches!(e.kind, ActionErrorKind::GroupGidMismatch(ref n, 1, 30_000) if n == "nixbld"));
        },
        Ok(_) => panic!("mismatched gid accepted"),
    }
    let none = GroupTools { groupadd: false, addgroup: false, groupdel: true, delgroup: true };
    assert!(matches!(
        CreateGroup::plan("g".to_string(), 1, false, none, Ok(None)).map(|_| ()).unwrap_err().kind,
        ActionErrorKind::MissingGroupCreationCommand
    ));
    let no_del = GroupTools { groupadd: false, addgroup: true, groupdel: false, delgroup: false };
    assert!(matches!(
        CreateGroup::plan("g".to_string(), 1, false, no_del, Ok(None)).map(|_| ()).unwrap_err().kind,
        ActionErrorKind::MissingGroupDeletionCommand
    ));
    assert!(CreateGroup::plan("g".to_string(), 1, true, none, Ok(None)).is_ok());
    assert!(matches!(
        CreateGroup::plan("g".to_string(), 1, true, none, Err("boom".to_string())).map(|_| ()).unwrap_err().kind,
        ActionErrorKind::GettingGroupId(..)
    ));
}

#[test]
fn delete_user_plan_outcomes() {
    assert_eq!(DeleteUser::plan("u".to_string(), false, true, Ok(true)).unwrap().state(), ActionState::Uncompleted);
    assert!(matches!(
        DeleteUser::plan("u".to_string(), false, false, Ok(true)).map(|_| ()).unwrap_err().kind,
        ActionErrorKind::MissingUserDeletionCommand
    ));
    assert!(matches!(
        DeleteUser::plan("u".to_string(), true, false, Ok(false)).map(|_| ()).unwrap_err().kind,
        ActionErrorKind::NoUser(_)
    ));
}

#[test]
fn simple_plans_are_uncompleted() {
    let f = FetchAndUnpackNix::plan("/nix/temp-install-dir".to_string()).unwrap();
    assert_eq!(f.state(), ActionState::Uncompleted);
    assert_eq!(f.inner().dest, "/nix/temp-install-dir");
    let p = SetupDefaultProfile::plan("/nix/temp-install-dir".to_string()).unwrap();
    assert_eq!(p.inner().unpacked_path, "/nix/temp-install-dir");
    let s = ProvisionSelinux::plan("/usr/share/selinux/packages/nix.pp".to_string(), &[1, 2, 3]).unwrap();
    assert_eq!(s.inner().policy_content, vec![1, 2, 3]);
}

#[test]
fn systemd_actions_need_systemd() {
    assert!(SystemctlDaemonReload::plan(true, true).is_ok());
    assert!(matches!(SystemctlDaemonReload::plan(false, true).map(|_| ()).unwrap_err().kind, ActionErrorKind::SystemdMissing));
    let plan = |init, start, booted, ctl| ConfigureInitService::plan(init, start, None, None, None, vec![], booted, ctl);
    assert!(plan(InitSystem::Systemd, true, false, true).is_err());
    assert!(plan(InitSystem::Systemd, false, false, true).is_ok());
    assert!(plan(InitSystem::Systemd, false, true, false).is_err());
    assert!(plan(InitSystem::Launchd, true, false, false).is_ok());
    assert!(plan(InitSystem::NoInit, true, false, false).is_ok());
}

#[test]
fn channels_go_to_root_home() {
    let c = SetupChannels::plan(Some("/root".to_string())).unwrap();
    assert_eq!(c.inner().path, "/root/.nix-channels");
    assert_eq!(c.inner().contents, "https://nixos.org/channels/nixpkgs-unstable nixpkgs\n");
    assert!(matches!(
        SetupChannels::plan(None).map(|_| ()).unwrap_err().kind,
        ActionErrorKind::SetupChannels(SetupChannelsError::NoRootHome)
    ));
}

#[test]
fn prompt_answers() {
    assert_eq!(choice_for_answer("YES", PromptChoice::No), PromptChoice::Yes);
    assert_eq!(choice_for_answer("y", PromptChoice::No), PromptChoice::Yes);
    assert_eq!(choice_for_answer("No", PromptChoice::Yes), PromptChoice::No);
    assert_eq!(choice_for_answer("Explain", PromptChoice::No), PromptChoice::Explain);
    assert_eq!(choice_for_answer("", PromptChoice::Explain), PromptChoice::Explain);
    assert_eq!(choice_for_answer("maybe", PromptChoice::Yes), PromptChoice::No);
}

#[test]
fn mounted_volume_needs_a_mount_point() {
    let mut info = DiskUtilInfoOutput { parent_whole_disk: "disk1".to_string(), global_permissions_enabled: false, mount_point: None };
    assert!(!info.is_mounted());
    info.mount_point = Some(String::new());
    assert!(!info.is_mounted());
    info.mount_point = Some("/nix".to_string());
    assert!(info.is_mounted());
}

#[test]
fn suis_check_messages() {
    assert!(check_suis(None).is_ok());
    assert!(check_suis(Some(vec![])).is_ok());
    match check_suis(Some(vec!["Profile A".to_string()])) {
        Err(MacosError::BlockedBySystemUIServerPolicy(m)) => {
            assert!(m.starts_with("The following macOS configuration profile includes"));
            assert!(m.contains("\n\nProfile A\n\nSee https://dtr.mn/suis-premount-dissented"));
        },
        other => panic!("unexpected {:?}", other),
    }
    match check_suis(Some(vec!["Profile A".to_string(), "Profile B".to_string()])) {
        Err(MacosError::BlockedBySystemUIServerPolicy(m)) => {
            assert!(m.starts_with("The following macOS configuration profiles include"));
            assert!(m.ends_with(":\n\nProfile A\n\nProfile B\n\nSee https://dtr.mn/suis-premount-dissented"));
        },
        other => panic!("unexpected {:?}", other),
    }
}

#[test]
fn certificate_pem_is_decoded() {
    let pem_text = "-----BEGIN CERTIFICATE-----\nAQID\n-----END CERTIFICATE-----\n";
    assert_eq!(parse_ssl_cert(pem_text.as_bytes().to_vec()), vec![1, 2, 3]);
    assert_eq!(parse_ssl_cert(vec![0x30, 0x03, 0x01]), vec![0x30, 0x03, 0x01]);
    assert_eq!(der_from(vec![9], Some(vec![1])), vec![1]);
    assert_eq!(der_from(vec![9], None), vec![9]);
}

#[test]
fn unit_destination_checks() {
    let dest = "/etc/systemd/system/nix-daemon.service";
    let link = UnitSrc::Path("/nix/var/nix/profiles/default/lib/systemd/system/nix-daemon.service".to_string());
    let literal = UnitSrc::Literal("[Unit]\n".to_string());
    assert!(ConfigureInitService::check_if_systemd_unit_exists(&link, dest, UnitFound::Nothing, false).is_ok());
    let same = UnitFound::Symlink(Ok("/nix/var/nix/profiles/default/lib/systemd/system/nix-daemon.service".to_string()));
    assert!(ConfigureInitService::check_if_systemd_unit_exists(&link, dest, same, false).is_ok());
    let other = UnitFound::Symlink(Ok("/elsewhere".to_string()));
    assert!(matches!(
        ConfigureInitService::check_if_systemd_unit_exists(&link, dest, other, false),
        Err(ActionErrorKind::SymlinkExists(ref p)) if p == dest
    ));
    assert!(matches!(
        ConfigureInitService::check_if_systemd_unit_exists(&link, dest, UnitFound::File(Ok(String::new())), false),
        Err(ActionErrorKind::FileExists(_))
    ));
    assert!(ConfigureInitService::check_if_systemd_unit_exists(&literal, dest, UnitFound::File(Ok("[Unit]\n".to_string())), false).is_ok());
    assert!(matches!(
        ConfigureInitService::check_if_systemd_unit_exists(&literal, dest, UnitFound::File(Ok("x".to_string())), false),
        Err(ActionErrorKind::DifferentContent(_))
    ));
    assert!(matches!(
        ConfigureInitService::check_if_systemd_unit_exists(&literal, dest, UnitFound::Nothing, true),
        Err(ActionErrorKind::DirExists(ref d)) if d == "/etc/systemd/system/nix-daemon.service.d"
    ));
}

#[test]
fn unpacked_nix_directory_must_be_unique() {
    let names = |v: &[&str]| v.iter().map(|s| s.to_string()).collect::<Vec<String>>();
    assert_eq!(
        SetupDefaultProfile::find_unpacked_nix(&names(&["store", "nix-2.24.1-x86_64-linux", "README"]), "2.24.1").unwrap(),
        "nix-2.24.1-x86_64-linux"
    );
    assert!(matches!(
        SetupDefaultProfile::find_unpacked_nix(&names(&["store"]), "2.24.1").map(|_| ()).unwrap_err().kind,
        ActionErrorKind::MalformedBinaryTarball
    ));
    assert!(SetupDefaultProfile::find_unpacked_nix(&names(&["nix-2.24.1-a", "nix-2.24.1-b"]), "2.24.1").is_err());
}

#[test]
fn package_root_keeps_each_path_once() {
    let root = nix_installer::profile::PackageRoot::new(
        "/nix/store/x".to_string(),
        vec!["bin/a".to_string(), "bin/b".to_string(), "bin/a".to_string()],
    );
    assert_eq!(root.footprint, vec!["bin/a".to_string(), "bin/b".to_string()]);
}
