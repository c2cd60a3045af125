use nix_installer::plan::{install_receipt_due, settle_install, uninstall_receipt_due};
use nix_installer::version::ENGINE_VERSION;
use nix_installer::{
    cancel_signal, current_version, Action, ActionDescription, ActionError, ActionErrorKind, ActionState, ActionTag,
    InstallPlan, NixInstallerError, Planner, PlannerError, StatefulAction, Version,
};
use std::sync::atomic::Ordering;

#[derive(Clone, Debug)]
struct Step {
    name: String,
    fail_execute: bool,
    fail_revert: bool,
    executed: u32,
    reverted: u32,
}

fn step(name: &str) -> Step {
    Step { name: name.to_string(), fail_execute: false, fail_revert: false, executed: 0, reverted: 0 }
}

impl Action for Step {
    fn action_tag(&self) -> ActionTag {
        ActionTag(self.name.clone())
    }
    fn tracing_synopsis(&self) -> String {
        format!("Run {}", self.name)
    }
    fn execute_description(&self) -> Vec<ActionDescription> {
        vec![ActionDescription::new(self.tracing_synopsis(), vec![])]
    }
    fn revert_description(&self) -> Vec<ActionDescription> {
        vec![ActionDescription::new(format!("Undo {}", self.name), vec![])]
    }
    fn execute(&mut self) -> Result<(), ActionError> {
        self.executed += 1;
        if self.fail_execute {
            Err(ActionError::new(self.action_tag(), ActionErrorKind::Custom("execute failed".to_string())))
        } else {
            Ok(())
        }
    }
    fn revert(&mut self) -> Result<(), ActionError> {
        self.reverted += 1;
        if self.fail_revert {
            Err(ActionError::new(self.action_tag(), ActionErrorKind::Custom("revert failed".to_string())))
        } else {
            Ok(())
        }
    }
}

#[derive(Clone, Debug)]
struct Fixed {
    steps: Vec<Step>,
}

impl Planner for Fixed {
    type Action = Step;
    fn typetag_name(&self) -> String {
        "fixed".to_string()
    }
    fn platform_check(&self) -> Result<(), PlannerError> {
        Ok(())
    }
    fn pre_install_check(&self) -> Result<(), PlannerError> {
        Ok(())
    }
    fn pre_uninstall_check(&self) -> Result<(), PlannerError> {
        Ok(())
    }
    fn plan(&self) -> Result<Vec<StatefulAction<Step>>, PlannerError> {
        Ok(self.steps.iter().cloned().map(StatefulAction::uncompleted).collect())
    }
}

fn plan_of(steps: Vec<Step>) -> InstallPlan<Fixed> {
    InstallPlan::plan(Fixed { steps }).unwrap()
}

fn states(plan: &InstallPlan<Fixed>) -> Vec<ActionState> {
    plan.actions().iter().map(|a| a.state()).collect()
}

fn executed(plan: &InstallPlan<Fixed>) -> Vec<u32> {
    plan.actions().iter().map(|a| a.inner().executed).collect()
}

fn reverted(plan: &InstallPlan<Fixed>) -> Vec<u32> {
    plan.actions().iter().map(|a| a.inner().reverted).collect()
}

#[test]
fn ensure_version_allows_compatible() {
    let plan = InstallPlan::from_parts(current_version(), vec![], Fixed { steps: vec![] });
    assert!(plan.check_compatible().is_ok());
}

#[test]
fn ensure_version_denies_incompatible() {
    let bad = Version::new("9999999999999.9999999999.99999999".to_string());
    let plan = InstallPlan::from_parts(bad, vec![], Fixed { steps: vec![] });
    assert!(plan.check_compatible().is_err());
}

#[test]
fn version_check_names_both_versions() {
    let recorded = Version::new("9999999999.0.0".to_string());
    let plan = InstallPlan::from_parts(recorded.clone(), vec![], Fixed { steps: vec![] });
    match plan.check_compatible() {
        Err(NixInstallerError::IncompatibleVersion { binary, plan }) => {
            assert_eq!(binary, current_version());
            assert_eq!(binary.as_str(), ENGINE_VERSION);
            assert_eq!(plan, recorded);
        },
        other => panic!("unexpected {:?}", other),
    }
}

#[test]
fn version_check_refuses_other_minor_of_zero_major() {
    let plan = InstallPlan::from_parts(Version::new("0.2.0".to_string()), vec![], Fixed { steps: vec![] });
    assert!(matches!(plan.check_compatible(), Err(NixInstallerError::IncompatibleVersion { .. })));
}

#[test]
fn version_check_reports_unreadable_version() {
    let plan = InstallPlan::from_parts(Version::new("not a version".to_string()), vec![], Fixed { steps: vec![] });
    match plan.check_compatible() {
        Err(NixInstallerError::InvalidVersionRequirement(text, _)) => assert_eq!(text, "not a version"),
        other => panic!("unexpected {:?}", other),
    }
}

#[test]
fn plan_records_engine_version() {
    let plan = plan_of(vec![step("a")]);
    assert_eq!(plan.version().as_str(), "0.1.0");
    assert_eq!(plan.planner().typetag_name(), "fixed");
}

#[test]
fn execute_twice_runs_once() {
    let mut w = StatefulAction::uncompleted(step("a"));
    assert!(w.try_execute().is_ok());
    assert!(w.try_execute().is_ok());
    assert_eq!(w.inner().executed, 1);
    assert_eq!(w.state(), ActionState::Completed);
}

#[test]
fn failed_execute_leaves_state() {
    let mut s = step("a");
    s.fail_execute = true;
    let mut w = StatefulAction::uncompleted(s);
    assert!(w.try_execute().is_err());
    assert_eq!(w.state(), ActionState::Uncompleted);
    assert_eq!(w.inner().executed, 1);
}

#[test]
fn revert_of_uncompleted_is_noop() {
    let mut w = StatefulAction::uncompleted(step("a"));
    assert!(w.try_revert().is_ok());
    assert_eq!(w.inner().reverted, 0);
    assert_eq!(w.state(), ActionState::Uncompleted);
}

#[test]
fn completed_at_plan_time_is_not_executed() {
    let mut w = StatefulAction::completed(step("a"));
    assert!(w.try_execute().is_ok());
    assert_eq!(w.inner().executed, 0);
    assert!(w.describe_execute().is_empty());
    assert_eq!(w.describe_revert().len(), 1);
}

#[test]
fn install_then_uninstall_restores() {
    let mut plan = plan_of(vec![step("a"), step("b"), step("c")]);
    assert!(plan.install(None).is_ok());
    assert_eq!(states(&plan), vec![ActionState::Completed; 3]);
    assert!(plan.uninstall(None).is_ok());
    assert_eq!(states(&plan), vec![ActionState::Uncompleted; 3]);
    assert_eq!(executed(&plan), vec![1, 1, 1]);
    assert_eq!(reverted(&plan), vec![1, 1, 1]);
}

#[test]
fn install_stops_at_failing_step() {
    let mut failing = step("b");
    failing.fail_execute = true;
    let mut plan = plan_of(vec![step("a"), failing, step("c"), step("d")]);
    match plan.install(None) {
        Err(NixInstallerError::Action(e)) => assert_eq!(e.action_tag, ActionTag("b".to_string())),
        other => panic!("unexpected {:?}", other),
    }
    assert_eq!(executed(&plan), vec![1, 1, 0, 0]);
    assert_eq!(
        states(&plan),
        vec![ActionState::Completed, ActionState::Uncompleted, ActionState::Uncompleted, ActionState::Uncompleted]
    );
}

#[test]
fn cancelled_install_runs_nothing() {
    let signal = cancel_signal();
    signal.store(true, Ordering::Relaxed);
    let mut plan = plan_of(vec![step("a"), step("b")]);
    assert!(matches!(plan.install(Some(signal.clone())), Err(NixInstallerError::Cancelled)));
    assert_eq!(executed(&plan), vec![0, 0]);
    assert!(matches!(plan.uninstall(Some(signal)), Err(NixInstallerError::Cancelled)));
}

#[test]
fn uninstall_reports_single_failure_alone() {
    let mut failing = step("b");
    failing.fail_revert = true;
    let mut plan = plan_of(vec![step("a"), failing, step("c")]);
    plan.install(None).unwrap();
    match plan.uninstall(None) {
        Err(NixInstallerError::Action(e)) => assert_eq!(e.action_tag, ActionTag("b".to_string())),
        other => panic!("unexpected {:?}", other),
    }
    assert_eq!(reverted(&plan), vec![1, 1, 1]);
    assert_eq!(
        states(&plan),
        vec![ActionState::Uncompleted, ActionState::Completed, ActionState::Uncompleted]
    );
}

#[test]
fn uninstall_aggregates_two_failures_in_order() {
    let mut first = step("a");
    first.fail_revert = true;
    let mut third = step("c");
    third.fail_revert = true;
    let mut plan = plan_of(vec![first, step("b"), third]);
    plan.install(None).unwrap();
    match plan.uninstall(None) {
        Err(NixInstallerError::ActionRevert(errs)) => {
            assert_eq!(errs.len(), 2);
            assert_eq!(errs[0].action_tag, ActionTag("c".to_string()));
            assert_eq!(errs[1].action_tag, ActionTag("a".to_string()));
        },
        other => panic!("unexpected {:?}", other),
    }
    assert_eq!(reverted(&plan), vec![1, 1, 1]);
}

#[test]
fn receipt_is_due_after_install_outcomes() {
    assert!(install_receipt_due(&Ok(())));
    assert!(install_receipt_due(&Err(NixInstallerError::Cancelled)));
    assert!(!install_receipt_due(&Err(NixInstallerError::Planner(PlannerError::Custom("no".to_string())))));
    assert!(uninstall_receipt_due(&Err(NixInstallerError::Cancelled)));
    assert!(!uninstall_receipt_due(&Ok(())));
}

#[test]
fn failed_receipt_write_keeps_original_error() {
    let original = Err(NixInstallerError::Cancelled);
    let written = Err(NixInstallerError::RecordingReceipt("/nix".to_string(), "read-only".to_string()));
    assert!(matches!(settle_install(original, written), Err(NixInstallerError::Cancelled)));
    let written = Err(NixInstallerError::RecordingReceipt("/nix".to_string(), "read-only".to_string()));
    assert!(matches!(settle_install(Ok(()), written), Err(NixInstallerError::RecordingReceipt(..))));
    assert!(settle_install(Ok(()), Ok(())).is_ok());
}

#[test]
fn describe_install_lists_pending_steps() {
    let mut plan = plan_of(vec![step("a"), step("b")]);
    assert_eq!(
        plan.describe_install(false, &vec![]),
        "Nix install plan (v0.1.0)\nPlanner: fixed (with default settings)\n\nPlanned actions:\n* Run a\n* Run b\n"
    );
    plan.install(None).unwrap();
    let settings = vec!["* init: systemd".to_string(), "* start_daemon: true".to_string()];
    assert_eq!(
        plan.describe_uninstall(false, &settings),
        "Nix uninstall plan (v0.1.0)\n\nPlanner: fixed\n\nConfigured settings:\n* init: systemd\n* start_daemon: true\n\nPlanned actions:\n* Undo b\n* Undo a\n"
    );
}

#[test]
fn render_plan_explains_when_asked() {
    let descriptions = vec![
        ActionDescription::new("Create group".to_string(), vec!["needed by the daemon".to_string(), "once".to_string()]),
        ActionDescription::new("Reload".to_string(), vec![]),
    ];
    let head = "Nix install plan (v1.0.0)\n".to_string();
    assert_eq!(
        nix_installer::describe::render_plan(head.clone(), "linux".to_string(), &vec![], &descriptions, true),
        "Nix install plan (v1.0.0)\nPlanner: linux (with default settings)\n\nPlanned actions:\n* Create group\n  needed by the daemon\n  once\n* Reload\n"
    );
    assert_eq!(
        nix_installer::describe::render_plan(head, "linux".to_string(), &vec![], &descriptions, false),
        "Nix install plan (v1.0.0)\nPlanner: linux (with default settings)\n\nPlanned actions:\n* Create group\n* Reload\n"
    );
}

#[test]
fn composite_children_execute_in_order_and_stop() {
    let mut failing = step("b");
    failing.fail_execute = true;
    let mut children = vec![
        StatefulAction::uncompleted(step("a")),
        StatefulAction::uncompleted(failing),
        StatefulAction::uncompleted(step("c")),
    ];
    let r = nix_installer::steps::execute_children(&mut children);
    assert_eq!(r.unwrap_err().action_tag, ActionTag("b".to_string()));
    let ran: Vec<u32> = children.iter().map(|c| c.inner().executed).collect();
    assert_eq!(ran, vec![1, 1, 0]);
}

#[test]
fn composite_children_revert_all_and_collect() {
    let mut first = step("a");
    first.fail_revert = true;
    let mut second = step("b");
    second.fail_revert = true;
    let mut children = vec![
        StatefulAction::completed(first),
        StatefulAction::completed(second),
        StatefulAction::completed(step("c")),
    ];
    let errs = nix_installer::steps::revert_children(&mut children).unwrap_err();
    let tags: Vec<String> = errs.iter().map(|e| e.action_tag.0.clone()).collect();
    assert_eq!(tags, vec!["b".to_string(), "a".to_string()]);
    let reverted: Vec<u32> = children.iter().map(|c| c.inner().reverted).collect();
    assert_eq!(reverted, vec![1, 1, 1]);
    assert_eq!(children[2].state(), ActionState::Uncompleted);
    assert!(nix_installer::steps::revert_children(&mut vec![StatefulAction::uncompleted(step("d"))]).is_ok());
}

#[test]
fn uninstall_after_failed_install_reverts_only_completed_steps() {
    let mut failing = step("c");
    failing.fail_execute = true;
    let mut plan = plan_of(vec![step("a"), step("b"), failing, step("d")]);
    assert!(plan.install(None).is_err());
    assert!(plan.uninstall(None).is_ok());
    assert_eq!(reverted(&plan), vec![1, 1, 0, 0]);
    assert_eq!(states(&plan), vec![ActionState::Uncompleted; 4]);
}

#[test]
fn describe_sorts_settings_lines() {
    let plan = plan_of(vec![]);
    let settings = vec!["* start_daemon: true".to_string(), "* init: systemd".to_string()];
    assert_eq!(
        plan.describe_install(false, &settings),
        "Nix install plan (v0.1.0)\nPlanner: fixed\n\nConfigured settings:\n* init: systemd\n* start_daemon: true\n\nPlanned actions:\n\n"
    );
}

#[test]
fn sort_lines_orders_like_str() {
    let lines: Vec<String> = ["b", "ab", "a", "", "ab", "é", "z"].iter().map(|s| s.to_string()).collect();
    let mut expected = lines.clone();
    expected.sort();
    assert_eq!(nix_installer::text::sort_lines(&lines), expected);
    assert!(nix_installer::text::text_le_exec("ab", "abc"));
    assert!(!nix_installer::text::text_le_exec("b", "abc"));
}

#[test]
fn install_of_compatible_plan_without_signal_succeeds() {
    let mut plan = InstallPlan::from_parts(current_version(), vec![], Fixed { steps: vec![] });
    assert!(plan.install(None).is_ok());
    assert!(plan.uninstall(None).is_ok());
}

#[test]
fn install_of_incompatible_plan_runs_nothing() {
    let recorded = Version::new("9999999999.0.0".to_string());
    let mut plan = InstallPlan::from_parts(recorded, vec![StatefulAction::uncompleted(step("a"))], Fixed { steps: vec![] });
    assert!(matches!(plan.install(None), Err(NixInstallerError::IncompatibleVersion { .. })));
    assert_eq!(executed(&plan), vec![0]);
    assert!(matches!(plan.uninstall(None), Err(NixInstallerError::IncompatibleVersion { .. })));
}
