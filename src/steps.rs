//! Runs over a sequence of wrapped actions: forward, stopping at the first
//! failure, and backward, going on past failures.
use vstd::prelude::*;

use crate::action::{execute_step, revert_step, Action, ActionError, StatefulAction, WrapperView};

verus! {

/// The views of a sequence of wrapped actions.
pub open spec fn views<A>(actions: Seq<StatefulAction<A>>) -> Seq<WrapperView> {
    actions.map_values(|w: StatefulAction<A>| w@)
}

/// How a run over the steps of a plan ended.
pub enum RunEnd {
    /// Every step was processed.
    Finished,
    /// A cancellation request stopped the run before a step.
    Cancelled,
    /// A step failed and the run stopped there.
    Failed,
}

/// An install run took the wrappers from `pre` to `post` and stopped at
/// position `k`: the steps before `k` were executed successfully in order, the
/// steps after `k` were never touched, and step `k` is what `end` says.
pub open spec fn install_run(pre: Seq<WrapperView>, post: Seq<WrapperView>, k: int, end: RunEnd) -> bool {
    &&& post.len() == pre.len()
    &&& 0 <= k <= pre.len()
    &&& forall|j: int| 0 <= j < k ==> #[trigger] execute_step(pre[j], post[j], true)
    &&& forall|j: int| k < j < pre.len() ==> #[trigger] post[j] == pre[j]
    &&& match end {
        RunEnd::Finished => k == pre.len(),
        RunEnd::Cancelled => k < pre.len() && post[k] == pre[k],
        RunEnd::Failed => k < pre.len() && execute_step(pre[k], post[k], false),
    }
}

/// An uninstall run took the wrappers from `pre` to `post`, processing the
/// steps from the last one down to position `k`: each of those was reverted
/// through its wrapper, and the steps below `k` were never touched.
pub open spec fn uninstall_run(pre: Seq<WrapperView>, post: Seq<WrapperView>, k: int, end: RunEnd) -> bool {
    &&& post.len() == pre.len()
    &&& 0 <= k <= pre.len()
    &&& forall|j: int| k <= j < pre.len() ==> #[trigger] revert_step(pre[j], post[j], true) || revert_step(pre[j], post[j], false)
    &&& forall|j: int| 0 <= j < k ==> #[trigger] post[j] == pre[j]
    &&& match end {
        RunEnd::Finished => k == 0,
        RunEnd::Cancelled => k > 0,
        RunEnd::Failed => false,
    }
}

/// The errors of the steps at position `k` and above whose revert failed, in
/// the order they were processed (from the last step down).
pub open spec fn revert_failures(pre: Seq<WrapperView>, post: Seq<WrapperView>, k: int) -> Seq<ActionError>
    decreases pre.len() - k,
{
    if k < 0 || k >= pre.len() {
        Seq::empty()
    } else {
        let rest = revert_failures(pre, post, k + 1);
        if revert_step(pre[k], post[k], false) {
            rest.push(post[k].last_error->Some_0)
        } else {
            rest
        }
    }
}

/// The recorded failures at position `k` and above depend only on the steps there.
pub proof fn lemma_failures_suffix(pre: Seq<WrapperView>, a: Seq<WrapperView>, b: Seq<WrapperView>, k: int)
    requires
        a.len() == pre.len(),
        b.len() == pre.len(),
        0 <= k,
        forall|j: int| k <= j < pre.len() ==> a[j] == b[j],
    ensures
        revert_failures(pre, a, k) == revert_failures(pre, b, k),
    decreases pre.len() - k,
{
    if k < pre.len() {
        lemma_failures_suffix(pre, a, b, k + 1);
    }
}

/// With no failing revert at positions `a` up to `b`, the failures recorded
/// from `a` are those recorded from `b`.
pub proof fn lemma_failures_skip(pre: Seq<WrapperView>, post: Seq<WrapperView>, a: int, b: int)
    requires
        0 <= a <= b <= pre.len(),
        forall|m: int| a <= m < b ==> !#[trigger] revert_step(pre[m], post[m], false),
    ensures
        revert_failures(pre, post, a) == revert_failures(pre, post, b),
    decreases b - a,
{
    if a < b {
        lemma_failures_skip(pre, post, a + 1, b);
    }
}

/// What a composite's `execute` returns for a run over its children that
/// ended as `end` at position `k`.
pub open spec fn children_execute_reports(post: Seq<WrapperView>, k: int, end: RunEnd, r: Result<(), ActionError>) -> bool {
    match end {
        RunEnd::Finished => r is Ok,
        RunEnd::Cancelled => false,
        RunEnd::Failed => r is Err && post[k].last_error == Some(r->Err_0),
    }
}

proof fn lemma_children_witness(pre: Seq<WrapperView>, post: Seq<WrapperView>, k: int, end: RunEnd, r: Result<(), ActionError>)
    requires
        install_run(pre, post, k, end),
        children_execute_reports(post, k, end, r),
    ensures
        exists|k2: int, end2: RunEnd| #[trigger] install_run(pre, post, k2, end2) && children_execute_reports(post, k2, end2, r),
{
}

/// Execute the children of a composite action in their declared order,
/// stopping at the first failure.
pub fn execute_children<A: Action>(children: &mut Vec<StatefulAction<A>>) -> (r: Result<(), ActionError>)
    ensures
        exists|k: int, end: RunEnd| {
            &&& #[trigger] install_run(views(old(children)@), views(final(children)@), k, end)
            &&& children_execute_reports(views(final(children)@), k, end, r)
        },
{
    let ghost pre = views(children@);
    let n = children.len();
    let mut i: usize = 0;
    while i < n
        invariant
            pre == views(old(children)@),
            children@.len() == n,
            pre.len() == n,
            0 <= i <= n,
            forall|j: int| 0 <= j < i ==> #[trigger] execute_step(pre[j], views(children@)[j], true),
            forall|j: int| i <= j < n ==> #[trigger] views(children@)[j] == pre[j],
        decreases n - i,
    {
        let ghost before = children@;
        let step = children[i].try_execute();
        proof {
            assert(children@ == before.update(i as int, children@[i as int]));
            assert(views(children@)[i as int] == children@[i as int]@);
            assert(views(before)[i as int] == before[i as int]@);
            assert forall|j: int| 0 <= j < i implies #[trigger] execute_step(pre[j], views(children@)[j], true) by {
                assert(children@[j] == before[j]);
                assert(execute_step(pre[j], views(before)[j], true));
            }
            assert forall|j: int| i < j < n implies #[trigger] views(children@)[j] == pre[j] by {
                assert(children@[j] == before[j]);
                assert(views(before)[j] == pre[j]);
            }
        }
        match step {
            Ok(()) => {},
            Err(e) => {
                proof {
                    assert(install_run(pre, views(children@), i as int, RunEnd::Failed));
                    lemma_children_witness(pre, views(children@), i as int, RunEnd::Failed, Err(e));
                }
                return Err(e);
            },
        }
        i = i + 1;
    }
    proof {
        lemma_children_witness(pre, views(children@), n as int, RunEnd::Finished, Ok(()));
    }
    Ok(())
}

/// Revert the children of a composite action in reverse order, going on past
/// failures; the failures come back together, in the order they happened.
pub fn revert_children<A: Action>(children: &mut Vec<StatefulAction<A>>) -> (r: Result<(), Vec<ActionError>>)
    ensures
        uninstall_run(views(old(children)@), views(final(children)@), 0, RunEnd::Finished),
        r is Ok <==> revert_failures(views(old(children)@), views(final(children)@), 0).len() == 0,
        r is Err ==> r->Err_0@ == revert_failures(views(old(children)@), views(final(children)@), 0),
{
    let ghost pre = views(children@);
    let n = children.len();
    let mut errors: Vec<ActionError> = Vec::new();
    let mut i: usize = n;
    while i > 0
        invariant
            pre == views(old(children)@),
            children@.len() == n,
            pre.len() == n,
            0 <= i <= n,
            forall|j: int| i <= j < n ==> #[trigger] revert_step(pre[j], views(children@)[j], true)
                || revert_step(pre[j], views(children@)[j], false),
            forall|j: int| 0 <= j < i ==> #[trigger] views(children@)[j] == pre[j],
            errors@ == revert_failures(pre, views(children@), i as int),
        decreases i,
    {
        let ghost before = children@;
        let step = children[i - 1].try_revert();
        let ghost k = i - 1;
        proof {
            assert(children@ == before.update(k, children@[k]));
            assert(views(children@)[k] == children@[k]@);
            assert(views(before)[k] == before[k]@);
            assert(views(before)[k] == pre[k]);
            assert forall|j: int| i <= j < n implies #[trigger] revert_step(pre[j], views(children@)[j], true)
                || revert_step(pre[j], views(children@)[j], false) by {
                assert(children@[j] == before[j]);
                assert(revert_step(pre[j], views(before)[j], true) || revert_step(pre[j], views(before)[j], false));
            }
            assert forall|j: int| 0 <= j < k implies #[trigger] views(children@)[j] == pre[j] by {
                assert(children@[j] == before[j]);
                assert(views(before)[j] == pre[j]);
            }
            assert forall|j: int| i <= j < n implies views(children@)[j] == views(before)[j] by {
                assert(children@[j] == before[j]);
            }
            lemma_failures_suffix(pre, views(children@), views(before), i as int);
        }
        match step {
            Ok(()) => {},
            Err(e) => {
                errors.push(e);
            },
        }
        i = i - 1;
    }
    if errors.len() == 0 {
        Ok(())
    } else {
        Err(errors)
    }
}

} // verus!
