//! The plan container: sequencing, cancellation and version compatibility.
use vstd::prelude::*;

use std::sync::atomic::{AtomicBool, Ordering};
use std::sync::Arc;

use crate::action::{execute_step, revert_step, Action, ActionDescription, ActionError, ActionState, StatefulAction, WrapperView};
use crate::describe::{concat_all, entries_of, install_head, plan_text, render_plan, uninstall_head};
use crate::error::{NixInstallerError, PlannerError};
use crate::steps::{install_run, lemma_failures_skip, lemma_failures_suffix, revert_failures, uninstall_run, views, RunEnd};
use crate::text::{lines_sorted, sort_lines, texts_of};
use crate::version::{compatibility_verdict, current_version, requirement_matches, semver_matches, Version, ENGINE_VERSION};

verus! {

/// Where the receipt of a plan is kept.
pub const RECEIPT_LOCATION: &'static str = "/nix/receipt.json";

/// A cancellation flag shared with whoever may request cancellation.
pub type CancelSignal = Arc<AtomicBool>;

/// Create a new cancel signal, not yet raised.
pub fn cancel_signal() -> (r: CancelSignal) {
    Arc::new(AtomicBool::new(false))
}

/// Whether cancellation has been requested; never, without a signal.
fn cancel_requested(cancel_signal: &Option<CancelSignal>) -> (r: bool)
    ensures
        cancel_signal is None ==> !r,
{
    match cancel_signal {
        Some(signal) => signal.load(Ordering::Relaxed),
        None => false,
    }
}

/// Produces the ordered actions of a plan and checks the host it runs on.
///
/// The checks may inspect the host in any way; the engine relies only on the
/// `Ok` / `Err` they return.
pub trait Planner {
    type Action: Action;

    /// The stable tag of this planner.
    fn typetag_name(&self) -> String;

    /// Fail when the host platform cannot be served.
    fn platform_check(&self) -> Result<(), PlannerError>;

    /// Fail when the host is not ready for an install.
    fn pre_install_check(&self) -> Result<(), PlannerError>;

    /// Fail when the host is not ready for an uninstall.
    fn pre_uninstall_check(&self) -> Result<(), PlannerError>;

    /// The ordered actions that make up an install.
    fn plan(&self) -> Result<Vec<StatefulAction<Self::Action>>, PlannerError>;
}

/// What an install returns for a run that ended as `end` at position `k`.
pub open spec fn install_reports(post: Seq<WrapperView>, k: int, end: RunEnd, r: Result<(), NixInstallerError>) -> bool {
    match end {
        RunEnd::Finished => r is Ok,
        RunEnd::Cancelled => r == Err::<(), NixInstallerError>(NixInstallerError::Cancelled),
        RunEnd::Failed => r is Err && r->Err_0 is Action && post[k].last_error == Some(r->Err_0->Action_0),
    }
}

/// What an uninstall returns for the recorded `failures` when it was not cancelled.
pub open spec fn uninstall_reports(failures: Seq<ActionError>, r: Result<(), NixInstallerError>) -> bool {
    if failures.len() == 0 {
        r is Ok
    } else if failures.len() == 1 {
        r == Err::<(), NixInstallerError>(NixInstallerError::Action(failures[0]))
    } else {
        r is Err && r->Err_0 is ActionRevert && r->Err_0->ActionRevert_0@ == failures
    }
}

/// A run returned a version error exactly when the recorded `version` does not
/// satisfy the engine's version, and an incompatibility names both versions.
pub open spec fn version_checked(version: Version, r: Result<(), NixInstallerError>) -> bool {
    &&& (r is Err && (r->Err_0 is IncompatibleVersion || r->Err_0 is InvalidVersionRequirement))
        <==> !requirement_matches(version@, ENGINE_VERSION@)
    &&& r is Err && r->Err_0 is IncompatibleVersion ==> r->Err_0->binary@ == ENGINE_VERSION@ && r->Err_0->plan == version
}

/// Whether `r` is the outcome of a failed version or host check, before any step.
pub open spec fn refused_before_steps(r: Result<(), NixInstallerError>) -> bool {
    r is Err && (r->Err_0 is IncompatibleVersion || r->Err_0 is InvalidVersionRequirement || r->Err_0 is Planner)
}

proof fn lemma_install_witness(pre: Seq<WrapperView>, post: Seq<WrapperView>, k: int, end: RunEnd, r: Result<(), NixInstallerError>)
    requires
        install_run(pre, post, k, end),
        install_reports(post, k, end, r),
    ensures
        exists|k2: int, end2: RunEnd| #[trigger] install_run(pre, post, k2, end2) && install_reports(post, k2, end2, r),
{
}

proof fn lemma_uninstall_witness(pre: Seq<WrapperView>, post: Seq<WrapperView>, k: int, end: RunEnd)
    requires
        uninstall_run(pre, post, k, end),
    ensures
        exists|k2: int| #[trigger] uninstall_run(pre, post, k2, end),
{
}

/// A set of actions, with the version of the engine that planned them and the
/// planner that produced them, carried out in order by `install` and in
/// reverse order by `uninstall`.
pub struct InstallPlan<P: Planner> {
    pub(crate) version: Version,
    pub(crate) actions: Vec<StatefulAction<P::Action>>,
    pub(crate) planner: P,
}

impl<P: Planner> InstallPlan<P> {
    pub closed spec fn spec_version(&self) -> Version {
        self.version
    }

    pub closed spec fn spec_actions(&self) -> Seq<StatefulAction<P::Action>> {
        self.actions@
    }

    pub closed spec fn spec_planner(&self) -> P {
        self.planner
    }

    /// Put a plan together from its parts, as read back from a receipt.
    pub fn from_parts(version: Version, actions: Vec<StatefulAction<P::Action>>, planner: P) -> (r: Self)
        ensures
            r.spec_version() == version,
            r.spec_actions() == actions@,
            r.spec_planner() == planner,
    {
        InstallPlan { version, actions, planner }
    }

    /// Plan an install with `planner`, after its platform and host checks.
    pub fn plan(planner: P) -> (r: Result<Self, NixInstallerError>)
        ensures
            r is Ok ==> r->Ok_0.spec_version()@ == ENGINE_VERSION@ && r->Ok_0.spec_planner() == planner,
            r is Err ==> r->Err_0 is Planner,
    {
        if let Err(e) = planner.platform_check() {
            return Err(NixInstallerError::Planner(e));
        }
        if let Err(e) = planner.pre_install_check() {
            return Err(NixInstallerError::Planner(e));
        }
        match planner.plan() {
            Ok(actions) => Ok(InstallPlan { version: current_version(), actions, planner }),
            Err(e) => Err(NixInstallerError::Planner(e)),
        }
    }

    pub fn version(&self) -> (r: &Version)
        ensures
            *r == self.spec_version(),
    {
        &self.version
    }

    pub fn actions(&self) -> (r: &Vec<StatefulAction<P::Action>>)
        ensures
            r@ == self.spec_actions(),
    {
        &self.actions
    }

    pub fn planner(&self) -> (r: &P)
        ensures
            *r == self.spec_planner(),
    {
        &self.planner
    }

    /// Run the planner's platform and uninstall checks.
    pub fn pre_uninstall_check(&self) -> (r: Result<(), NixInstallerError>)
        ensures
            r is Err ==> r->Err_0 is Planner,
    {
        match self.planner.platform_check() {
            Ok(()) => {},
            Err(e) => return Err(NixInstallerError::Planner(e)),
        }
        match self.planner.pre_uninstall_check() {
            Ok(()) => Ok(()),
            Err(e) => Err(NixInstallerError::Planner(e)),
        }
    }

    /// Run the planner's platform and install checks.
    pub fn pre_install_check(&self) -> (r: Result<(), NixInstallerError>)
        ensures
            r is Err ==> r->Err_0 is Planner,
    {
        match self.planner.platform_check() {
            Ok(()) => {},
            Err(e) => return Err(NixInstallerError::Planner(e)),
        }
        match self.planner.pre_install_check() {
            Ok(()) => Ok(()),
            Err(e) => Err(NixInstallerError::Planner(e)),
        }
    }

    /// Check that the running engine can act on a plan recorded at this plan's
    /// version, read as a requirement on the engine's version.
    pub fn check_compatible(&self) -> (r: Result<(), NixInstallerError>)
        ensures
            r is Ok <==> requirement_matches(self.spec_version()@, ENGINE_VERSION@),
            r is Err ==> r->Err_0 is IncompatibleVersion || r->Err_0 is InvalidVersionRequirement,
            r is Err && r->Err_0 is IncompatibleVersion ==> r->Err_0->binary@ == ENGINE_VERSION@
                && r->Err_0->plan == self.spec_version(),
            r is Err && r->Err_0 is InvalidVersionRequirement ==> r->Err_0->InvalidVersionRequirement_0
                == self.spec_version().text,
    {
        let binary = current_version();
        let matched = semver_matches(self.version.as_str(), binary.as_str());
        compatibility_verdict(&self.version, binary, matched)
    }

    /// Describe an install of this plan: the version, the planner, the
    /// configured settings lines `plan_settings` in sorted order, and what each step not yet
    /// completed will do, step after step in order (a completed step lists
    /// nothing); supporting lines only when `explain`.
    pub fn describe_install(&self, explain: bool, plan_settings: &Vec<String>) -> (r: String)
        ensures
            exists|planner: Seq<char>, settings: Seq<Seq<char>>, per_step: Seq<Seq<ActionDescription>>| {
                &&& lines_sorted(settings)
                &&& settings.to_multiset() == texts_of(plan_settings@).to_multiset()
                &&& per_step.len() == self.spec_actions().len()
                &&& forall|i: int| 0 <= i < per_step.len() && (#[trigger] self.spec_actions()[i])@.state
                    == ActionState::Completed ==> per_step[i].len() == 0
                &&& r@ == #[trigger] plan_text(
                    install_head(self.spec_version()@),
                    planner,
                    settings,
                    entries_of(concat_all(per_step), explain),
                )
            },
    {
        let mut descriptions: Vec<ActionDescription> = Vec::new();
        let ghost mut per_step: Seq<Seq<ActionDescription>> = Seq::empty();
        let mut i: usize = 0;
        while i < self.actions.len()
            invariant
                0 <= i <= self.actions@.len(),
                per_step.len() == i,
                forall|q: int| 0 <= q < i && (#[trigger] self.actions@[q])@.state == ActionState::Completed
                    ==> per_step[q].len() == 0,
                descriptions@ == concat_all(per_step),
            decreases self.actions@.len() - i,
        {
            let mut d = self.actions[i].describe_execute();
            proof {
                assert(per_step.push(d@).drop_last() =~= per_step);
                per_step = per_step.push(d@);
            }
            descriptions.append(&mut d);
            i = i + 1;
        }
        let head = "Nix install plan (v".to_string().concat(self.version.as_str()).concat(")\n");
        let name = self.planner.typetag_name();
        let ghost name_view = name@;
        let settings = sort_lines(plan_settings);
        let r = render_plan(head, name, &settings, &descriptions, explain);
        assert(self.spec_actions() == self.actions@);
        assert(r@ == plan_text(install_head(self.spec_version()@), name_view, texts_of(settings@), entries_of(concat_all(per_step), explain)));
        r
    }

    /// Describe an uninstall of this plan: the version, the planner, the
    /// configured settings lines `plan_settings` in sorted order, and what reverting each
    /// completed step will do, from the last step to the first (an
    /// uncompleted step lists nothing); supporting lines only when `explain`.
    pub fn describe_uninstall(&self, explain: bool, plan_settings: &Vec<String>) -> (r: String)
        ensures
            exists|planner: Seq<char>, settings: Seq<Seq<char>>, per_step: Seq<Seq<ActionDescription>>| {
                &&& lines_sorted(settings)
                &&& settings.to_multiset() == texts_of(plan_settings@).to_multiset()
                &&& per_step.len() == self.spec_actions().len()
                &&& forall|q: int| 0 <= q < per_step.len() && (#[trigger] self.spec_actions()[
                    per_step.len() - 1 - q])@.state == ActionState::Uncompleted ==> per_step[q].len() == 0
                &&& r@ == #[trigger] plan_text(
                    uninstall_head(self.spec_version()@),
                    planner,
                    settings,
                    entries_of(concat_all(per_step), explain),
                )
            },
    {
        let mut descriptions: Vec<ActionDescription> = Vec::new();
        let ghost mut per_step: Seq<Seq<ActionDescription>> = Seq::empty();
        let n = self.actions.len();
        let mut i: usize = n;
        while i > 0
            invariant
                n == self.actions@.len(),
                i <= n,
                per_step.len() == n - i,
                forall|q: int| 0 <= q < n - i && (#[trigger] self.actions@[n - 1 - q])@.state
                    == ActionState::Uncompleted ==> per_step[q].len() == 0,
                descriptions@ == concat_all(per_step),
            decreases i,
        {
            let mut d = self.actions[i - 1].describe_revert();
            proof {
                assert(per_step.push(d@).drop_last() =~= per_step);
                per_step = per_step.push(d@);
            }
            descriptions.append(&mut d);
            i = i - 1;
        }
        let head = "Nix uninstall plan (v".to_string().concat(self.version.as_str()).concat(")\n\n");
        let name = self.planner.typetag_name();
        let ghost name_view = name@;
        let settings = sort_lines(plan_settings);
        let r = render_plan(head, name, &settings, &descriptions, explain);
        assert(self.spec_actions() == self.actions@);
        assert(r@ == plan_text(uninstall_head(self.spec_version()@), name_view, texts_of(settings@), entries_of(concat_all(per_step), explain)));
        r
    }

    /// Carry out the plan: check the version and the host, then execute the
    /// steps strictly in order, stopping at the first failure or at a
    /// cancellation request seen before a step.
    pub fn install(&mut self, cancel_signal: Option<CancelSignal>) -> (r: Result<(), NixInstallerError>)
        ensures
            final(self).spec_version() == old(self).spec_version(),
            version_checked(old(self).spec_version(), r),
            r is Err && r->Err_0 is Cancelled ==> cancel_signal is Some,
            final(self).spec_planner() == old(self).spec_planner(),
            refused_before_steps(r) ==> views(final(self).spec_actions()) == views(old(self).spec_actions()),
            !refused_before_steps(r) ==> requirement_matches(old(self).spec_version()@, ENGINE_VERSION@),
            !refused_before_steps(r) ==> exists|k: int, end: RunEnd| {
                &&& #[trigger] install_run(views(old(self).spec_actions()), views(final(self).spec_actions()), k, end)
                &&& install_reports(views(final(self).spec_actions()), k, end, r)
            },
    {
        match self.check_compatible() {
            Ok(()) => {},
            Err(e) => return Err(e),
        }
        match self.pre_install_check() {
            Ok(()) => {},
            Err(e) => return Err(e),
        }
        let ghost pre = views(self.actions@);
        assert(pre == views(old(self).spec_actions()));
        let n = self.actions.len();
        let mut i: usize = 0;
        while i < n
            invariant
                self.version == old(self).version,
                self.planner == old(self).planner,
                pre == views(old(self).actions@),
                pre == views(old(self).spec_actions()),
                requirement_matches(old(self).version@, ENGINE_VERSION@),
                self.actions@.len() == n,
                pre.len() == n,
                0 <= i <= n,
                forall|j: int| 0 <= j < i ==> #[trigger] execute_step(pre[j], views(self.actions@)[j], true),
                forall|j: int| i <= j < n ==> #[trigger] views(self.actions@)[j] == pre[j],
            decreases n - i,
        {
            if cancel_requested(&cancel_signal) {
                assert(install_run(pre, views(self.actions@), i as int, RunEnd::Cancelled));
                proof { lemma_install_witness(pre, views(self.actions@), i as int, RunEnd::Cancelled, Err(NixInstallerError::Cancelled)); }
                assert(self.spec_actions() == self.actions@);
                return Err(NixInstallerError::Cancelled);
            }
            let ghost before = self.actions@;
            let step = self.actions[i].try_execute();
            proof {
                assert(self.actions@ == before.update(i as int, self.actions@[i as int]));
                assert(views(self.actions@)[i as int] == self.actions@[i as int]@);
                assert(views(before)[i as int] == before[i as int]@);
                assert forall|j: int| 0 <= j < i implies #[trigger] execute_step(pre[j], views(self.actions@)[j], true) by {
                    assert(self.actions@[j] == before[j]);
                    assert(execute_step(pre[j], views(before)[j], true));
                }
                assert forall|j: int| i < j < n implies #[trigger] views(self.actions@)[j] == pre[j] by {
                    assert(self.actions@[j] == before[j]);
                    assert(views(before)[j] == pre[j]);
                }
            }
            match step {
                Ok(()) => {},
                Err(e) => {
                    assert(install_run(pre, views(self.actions@), i as int, RunEnd::Failed));
                    proof { lemma_install_witness(pre, views(self.actions@), i as int, RunEnd::Failed, Err(NixInstallerError::Action(e))); }
                    assert(self.spec_actions() == self.actions@);
                    return Err(NixInstallerError::Action(e));
                },
            }
            i = i + 1;
        }
        proof { lemma_install_witness(pre, views(self.actions@), n as int, RunEnd::Finished, Ok(())); }
        assert(self.spec_actions() == self.actions@);
        Ok(())
    }

    /// Undo the plan: check the version and the host, then revert the steps in
    /// reverse order. A failing step does not stop the run; the failures are
    /// reported together at the end. A cancellation request seen before a step
    /// stops the run.
    pub fn uninstall(&mut self, cancel_signal: Option<CancelSignal>) -> (r: Result<(), NixInstallerError>)
        ensures
            final(self).spec_version() == old(self).spec_version(),
            version_checked(old(self).spec_version(), r),
            r is Err && r->Err_0 is Cancelled ==> cancel_signal is Some,
            final(self).spec_planner() == old(self).spec_planner(),
            refused_before_steps(r) ==> views(final(self).spec_actions()) == views(old(self).spec_actions()),
            !refused_before_steps(r) ==> requirement_matches(old(self).spec_version()@, ENGINE_VERSION@),
            !refused_before_steps(r) ==> {
                ||| uninstall_run(views(old(self).spec_actions()), views(final(self).spec_actions()), 0, RunEnd::Finished)
                    && uninstall_reports(revert_failures(views(old(self).spec_actions()), views(final(self).spec_actions()), 0), r)
                ||| (exists|k: int| #[trigger] uninstall_run(views(old(self).spec_actions()), views(final(self).spec_actions()), k, RunEnd::Cancelled))
                    && r == Err::<(), NixInstallerError>(NixInstallerError::Cancelled)
            },
    {
        match self.check_compatible() {
            Ok(()) => {},
            Err(e) => return Err(e),
        }
        match self.pre_uninstall_check() {
            Ok(()) => {},
            Err(e) => return Err(e),
        }
        let ghost pre = views(self.actions@);
        let n = self.actions.len();
        let mut errors: Vec<ActionError> = Vec::new();
        let mut i: usize = n;
        while i > 0
            invariant
                self.version == old(self).version,
                self.planner == old(self).planner,
                pre == views(old(self).actions@),
                pre == views(old(self).spec_actions()),
                requirement_matches(old(self).version@, ENGINE_VERSION@),
                self.actions@.len() == n,
                pre.len() == n,
                0 <= i <= n,
                forall|j: int| i <= j < n ==> #[trigger] revert_step(pre[j], views(self.actions@)[j], true)
                    || revert_step(pre[j], views(self.actions@)[j], false),
                forall|j: int| 0 <= j < i ==> #[trigger] views(self.actions@)[j] == pre[j],
                errors@ == revert_failures(pre, views(self.actions@), i as int),
            decreases i,
        {
            if cancel_requested(&cancel_signal) {
                proof {
                    assert(self.spec_actions() == self.actions@);
                    assert(uninstall_run(pre, views(self.actions@), i as int, RunEnd::Cancelled));
                    lemma_uninstall_witness(pre, views(self.actions@), i as int, RunEnd::Cancelled);
                }
                return Err(NixInstallerError::Cancelled);
            }
            let ghost before = self.actions@;
            let step = self.actions[i - 1].try_revert();
            let ghost k = i - 1;
            proof {
                assert(self.actions@ == before.update(k, self.actions@[k]));
                assert(views(self.actions@)[k] == self.actions@[k]@);
                assert(views(before)[k] == before[k]@);
                assert(views(before)[k] == pre[k]);
                assert forall|j: int| i <= j < n implies #[trigger] revert_step(pre[j], views(self.actions@)[j], true)
                    || revert_step(pre[j], views(self.actions@)[j], false) by {
                    assert(self.actions@[j] == before[j]);
                    assert(revert_step(pre[j], views(before)[j], true) || revert_step(pre[j], views(before)[j], false));
                }
                assert forall|j: int| 0 <= j < k implies #[trigger] views(self.actions@)[j] == pre[j] by {
                    assert(self.actions@[j] == before[j]);
                    assert(views(before)[j] == pre[j]);
                }
                assert forall|j: int| i <= j < n implies views(self.actions@)[j] == views(before)[j] by {
                    assert(self.actions@[j] == before[j]);
                }
                lemma_failures_suffix(pre, views(self.actions@), views(before), i as int);
            }
            match step {
                Ok(()) => {},
                Err(e) => {
                    errors.push(e);
                },
            }
            i = i - 1;
        }
        proof {
            assert(self.spec_actions() == self.actions@);
            assert(uninstall_run(pre, views(self.actions@), 0, RunEnd::Finished));
        }
        let count = errors.len();
        if count == 0 {
            Ok(())
        } else if count == 1 {
            let e = errors.remove(0);
            Err(NixInstallerError::Action(e))
        } else {
            Err(NixInstallerError::ActionRevert(errors))
        }
    }
}

/// Whether a receipt is written after an install that returned `r`: after
/// success, after a failed step and after a cancellation, but not when the
/// plan was refused before any step ran.
pub fn install_receipt_due(r: &Result<(), NixInstallerError>) -> (b: bool)
    ensures
        b == (r is Ok || (r->Err_0 is Cancelled) || (r->Err_0 is Action)),
{
    match r {
        Ok(()) => true,
        Err(NixInstallerError::Cancelled) => true,
        Err(NixInstallerError::Action(_)) => true,
        Err(_) => false,
    }
}

/// Whether a receipt is written after an uninstall that returned `r`: only
/// after a cancellation, so that a later run reverts what is left.
pub fn uninstall_receipt_due(r: &Result<(), NixInstallerError>) -> (b: bool)
    ensures
        b == (r is Err && r->Err_0 is Cancelled),
{
    match r {
        Err(NixInstallerError::Cancelled) => true,
        _ => false,
    }
}

/// The final outcome of an install that returned `r` and whose receipt write
/// returned `written`: after a successful install a failed write is the
/// outcome; after a failed or cancelled one the write is best-effort and the
/// install's own error is kept.
pub fn settle_install(r: Result<(), NixInstallerError>, written: Result<(), NixInstallerError>) -> (out: Result<(), NixInstallerError>)
    ensures
        r is Ok ==> out == written,
        r is Err ==> out == r,
{
    match r {
        Ok(()) => written,
        Err(e) => Err(e),
    }
}

/// Reverting right after an install that returned `Ok`, with every revert
/// succeeding, leaves every wrapper uncompleted, reverts each step exactly
/// once, and records no failure, so the uninstall succeeds.
pub proof fn lemma_revert_after_install(pre: Seq<WrapperView>, mid: Seq<WrapperView>, post: Seq<WrapperView>, k: int, end: RunEnd)
    requires
        install_run(pre, mid, k, end),
        install_reports(mid, k, end, Ok(())),
        uninstall_run(mid, post, 0, RunEnd::Finished),
        forall|j: int| 0 <= j < mid.len() ==> !#[trigger] revert_step(mid[j], post[j], false),
    ensures
        revert_failures(mid, post, 0).len() == 0,
        forall|r: Result<(), NixInstallerError>| #[trigger] uninstall_reports(revert_failures(mid, post, 0), r) ==> r is Ok,
        forall|j: int| 0 <= j < post.len() ==> (#[trigger] post[j]).state == ActionState::Uncompleted,
        forall|j: int| 0 <= j < post.len() ==> (#[trigger] post[j]).reverts == mid[j].reverts + 1,
{
    lemma_failures_skip(mid, post, 0, mid.len() as int);
    assert forall|j: int| 0 <= j < post.len() implies (#[trigger] post[j]).state == ActionState::Uncompleted
        && post[j].reverts == mid[j].reverts + 1 by {
        assert(execute_step(pre[j], mid[j], true));
        assert(revert_step(mid[j], post[j], true) || revert_step(mid[j], post[j], false));
    }
}

/// If an install that stopped at step `k` returned a step's error, with every
/// step uncompleted beforehand, step `k` failed with that error, the steps
/// after it never ran, the steps before it are completed, and it and the
/// steps after it are uncompleted: what the receipt then records.
pub proof fn lemma_install_stops_at_failure(pre: Seq<WrapperView>, post: Seq<WrapperView>, k: int, end: RunEnd, r: Result<(), NixInstallerError>)
    requires
        install_run(pre, post, k, end),
        install_reports(post, k, end, r),
        r is Err && r->Err_0 is Action,
        forall|j: int| 0 <= j < pre.len() ==> (#[trigger] pre[j]).state == ActionState::Uncompleted,
    ensures
        end == RunEnd::Failed,
        post[k].last_error == Some(r->Err_0->Action_0),
        post[k].executions == pre[k].executions + 1,
        forall|j: int| k < j < post.len() ==> (#[trigger] post[j]).executions == pre[j].executions,
        forall|j: int| 0 <= j < k ==> (#[trigger] post[j]).state == ActionState::Completed,
        forall|j: int| k <= j < post.len() ==> (#[trigger] post[j]).state == ActionState::Uncompleted,
{
    assert forall|j: int| 0 <= j < k implies (#[trigger] post[j]).state == ActionState::Completed by {
        assert(execute_step(pre[j], post[j], true));
    }
    assert forall|j: int| k < j < post.len() implies (#[trigger] post[j]).state == ActionState::Uncompleted
        && post[j].executions == pre[j].executions by {
        assert(post[j] == pre[j]);
    }
}

/// After an install that stopped at step `k` (failed or cancelled there),
/// starting with every step uncompleted, an uninstall run to the end reverts
/// exactly the steps before `k`, once each, and leaves the others untouched.
pub proof fn lemma_uninstall_reverts_what_happened(pre: Seq<WrapperView>, mid: Seq<WrapperView>, post: Seq<WrapperView>, k: int, end: RunEnd)
    requires
        install_run(pre, mid, k, end),
        forall|j: int| 0 <= j < pre.len() ==> (#[trigger] pre[j]).state == ActionState::Uncompleted,
        uninstall_run(mid, post, 0, RunEnd::Finished),
    ensures
        forall|j: int| 0 <= j < k ==> (#[trigger] post[j]).reverts == mid[j].reverts + 1,
        forall|j: int| k <= j < post.len() ==> (#[trigger] post[j]) == mid[j],
{
    assert forall|j: int| 0 <= j < k implies (#[trigger] post[j]).reverts == mid[j].reverts + 1 by {
        assert(execute_step(pre[j], mid[j], true));
        assert(revert_step(mid[j], post[j], true) || revert_step(mid[j], post[j], false));
    }
    assert forall|j: int| k <= j < post.len() implies (#[trigger] post[j]) == mid[j] by {
        if j > k {
            assert(mid[j] == pre[j]);
        }
        assert(mid[j].state == ActionState::Uncompleted);
        assert(revert_step(mid[j], post[j], true) || revert_step(mid[j], post[j], false));
    }
}

/// If exactly the reverts of steps `i` and `j` fail in an uninstall that runs
/// to the end, the aggregate holds exactly their two errors, the higher step's
/// first, as they were processed.
pub proof fn lemma_two_revert_failures(pre: Seq<WrapperView>, post: Seq<WrapperView>, i: int, j: int)
    requires
        uninstall_run(pre, post, 0, RunEnd::Finished),
        0 <= i < pre.len(),
        0 <= j < pre.len(),
        i != j,
        forall|m: int| 0 <= m < pre.len() ==> (#[trigger] revert_step(pre[m], post[m], false) <==> (m == i || m == j)),
    ensures
        ({
            let (lo, hi) = if i < j { (i, j) } else { (j, i) };
            revert_failures(pre, post, 0) == seq![post[hi].last_error->Some_0, post[lo].last_error->Some_0]
        }),
        forall|r: Result<(), NixInstallerError>| #[trigger] uninstall_reports(revert_failures(pre, post, 0), r) ==> {
            let (lo, hi) = if i < j { (i, j) } else { (j, i) };
            &&& r is Err
            &&& r->Err_0 is ActionRevert
            &&& r->Err_0->ActionRevert_0@ == seq![post[hi].last_error->Some_0, post[lo].last_error->Some_0]
        },
{
    let (lo, hi) = if i < j { (i, j) } else { (j, i) };
    lemma_failures_skip(pre, post, hi + 1, pre.len() as int);
    assert(revert_failures(pre, post, hi) == seq![post[hi].last_error->Some_0]);
    lemma_failures_skip(pre, post, lo + 1, hi);
    assert(revert_failures(pre, post, lo) == seq![post[hi].last_error->Some_0, post[lo].last_error->Some_0]);
    lemma_failures_skip(pre, post, 0, lo);
}


} // verus!
