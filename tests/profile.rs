use nix_installer::profile::{NixEnv, PackageRoot, ProfileError, ProfileStep};

fn root(path: &str, files: &[&str]) -> PackageRoot {
    PackageRoot { path: path.to_string(), footprint: files.iter().map(|f| f.to_string()).collect() }
}

fn env(pkgs: Vec<PackageRoot>) -> NixEnv {
    NixEnv {
        nix_store_path: "/nix/var/nix/profiles/default/".to_string(),
        nss_ca_cert_path: "/nix/var/nix/profiles/default/".to_string(),
        profile: "profile".to_string(),
        pkgs,
    }
}

/// Install `pkgs` into `profile` the way the scratch profile is driven: validate, then merge.
fn install(profile: &Vec<PackageRoot>, pkgs: Vec<PackageRoot>) -> Result<Vec<PackageRoot>, ProfileError> {
    let env = env(pkgs);
    env.validate_paths_can_cohabitate()?;
    Ok(env.plan_merge(profile).profile)
}

fn owner(profile: &Vec<PackageRoot>, file: &str) -> Option<String> {
    profile.iter().find(|r| r.footprint.iter().any(|f| f == file)).map(|r| r.path.clone())
}

#[test]
fn test_detect_intersection() {
    let profile = vec![];
    let tree_1 = root("/nix/store/1-foo", &["foo"]);
    let tree_2 = root("/nix/store/2-bar", &["foo"]);
    assert!(install(&profile, vec![tree_1, tree_2]).is_err());
}

#[test]
fn test_no_intersection() {
    let profile = vec![];
    let profile = install(&profile, vec![root("/nix/store/1-foo", &["foo"]), root("/nix/store/2-bar", &["bar"])]).unwrap();
    assert_eq!(owner(&profile, "foo").unwrap(), "/nix/store/1-foo");
    assert_eq!(owner(&profile, "bar").unwrap(), "/nix/store/2-bar");
    let profile = install(&profile, vec![root("/nix/store/3-baz", &["baz"]), root("/nix/store/4-tux", &["tux"])]).unwrap();
    assert_eq!(owner(&profile, "baz").unwrap(), "/nix/store/3-baz");
    assert_eq!(owner(&profile, "tux").unwrap(), "/nix/store/4-tux");
    assert_eq!(profile.len(), 4);
}

#[test]
fn test_overlap_replaces() {
    let profile = vec![];
    let profile = install(&profile, vec![root("/nix/store/0-fizz", &["fizz"]), root("/nix/store/1-foo", &["foo"])]).unwrap();
    assert_eq!(owner(&profile, "fizz").unwrap(), "/nix/store/0-fizz");
    assert_eq!(owner(&profile, "foo").unwrap(), "/nix/store/1-foo");
    let profile = install(&profile, vec![root("/nix/store/2-foo", &["foo"])]).unwrap();
    assert_eq!(owner(&profile, "foo").unwrap(), "/nix/store/2-foo");
    let profile = install(&profile, vec![root("/nix/store/3-bar", &["foo"])]).unwrap();
    assert_eq!(owner(&profile, "foo").unwrap(), "/nix/store/3-bar");
    assert_eq!(owner(&profile, "fizz").unwrap(), "/nix/store/0-fizz");
    assert_eq!(profile.len(), 2);
}

#[test]
fn merge_evicts_conflicting_root_before_adding() {
    let profile = vec![];
    let profile = install(&profile, vec![root("A", &["bin/a"])]).unwrap();
    let profile = install(&profile, vec![root("B", &["bin/b"])]).unwrap();
    assert_eq!(owner(&profile, "bin/a").unwrap(), "A");
    assert_eq!(owner(&profile, "bin/b").unwrap(), "B");
    let env = env(vec![root("C", &["bin/a"])]);
    let merge = env.plan_merge(&profile);
    assert_eq!(merge.steps, vec![ProfileStep::Uninstall("A".to_string()), ProfileStep::Install("C".to_string())]);
    let paths: Vec<&str> = merge.profile.iter().map(|r| r.path.as_str()).collect();
    assert_eq!(paths, vec!["B", "C"]);
    assert_eq!(owner(&merge.profile, "bin/a").unwrap(), "C");
    assert_eq!(owner(&merge.profile, "bin/b").unwrap(), "B");
}

#[test]
fn simultaneous_conflict_leaves_profile_untouched() {
    let profile = vec![root("A", &["bin/a"])];
    let env = env(vec![root("D", &["bin/x", "bin/d"]), root("E", &["bin/e", "bin/x"])]);
    match env.validate_paths_can_cohabitate() {
        Err(ProfileError::PathConflict(pkg, shared)) => {
            assert_eq!(pkg, "E");
            assert_eq!(shared, vec!["bin/x".to_string()]);
        },
        other => panic!("unexpected {:?}", other),
    }
    assert!(install(&profile, env.pkgs.clone()).is_err());
    assert_eq!(profile.len(), 1);
    assert_eq!(profile[0].path, "A");
}

#[test]
fn validation_lists_all_new_paths() {
    let env = env(vec![root("D", &["bin/d", "share/d"]), root("E", &["bin/e"])]);
    assert_eq!(env.validate_paths_can_cohabitate().unwrap(), vec!["bin/d", "share/d", "bin/e"]);
}

#[test]
fn root_evicted_once_for_two_new_roots() {
    let profile = vec![root("R", &["bin/a", "bin/b"]), root("S", &["bin/s"])];
    let env = env(vec![root("X", &["bin/a"]), root("Y", &["bin/b"])]);
    let merge = env.plan_merge(&profile);
    assert_eq!(
        merge.steps,
        vec![
            ProfileStep::Uninstall("R".to_string()),
            ProfileStep::Install("X".to_string()),
            ProfileStep::Install("Y".to_string()),
        ]
    );
    let paths: Vec<&str> = merge.profile.iter().map(|r| r.path.as_str()).collect();
    assert_eq!(paths, vec!["S", "X", "Y"]);
}
