//! Planning of the Linux-only actions.
use vstd::prelude::*;

use crate::action::{ActionError, ActionErrorKind, ActionState, ActionTag, StatefulAction};

verus! {

/// Install an SELinux policy for the runtime.
#[derive(Clone, Debug)]
pub struct ProvisionSelinux {
    pub policy_path: String,
    pub policy_content: Vec<u8>,
}

impl ProvisionSelinux {
    /// Plan installing `policy_content` at `policy_path`. The policy is always
    /// installed afresh, since relabelling must run even when it is in place.
    pub fn plan(policy_path: String, policy_content: &[u8]) -> (r: Result<StatefulAction<Self>, ActionError>)
        ensures
            r is Ok,
            r->Ok_0@.state == ActionState::Uncompleted,
            r->Ok_0.spec_inner().policy_path == policy_path,
            r->Ok_0.spec_inner().policy_content@ == policy_content@,
    {
        let mut content: Vec<u8> = Vec::new();
        let mut q: usize = 0;
        while q < policy_content.len()
            invariant
                0 <= q <= policy_content@.len(),
                content@ == policy_content@.subrange(0, q as int),
            decreases policy_content@.len() - q,
        {
            content.push(policy_content[q]);
            assert(content@ =~= policy_content@.subrange(0, q + 1));
            q = q + 1;
        }
        assert(policy_content@.subrange(0, policy_content@.len() as int) =~= policy_content@);
        Ok(StatefulAction::uncompleted(ProvisionSelinux { policy_path, policy_content: content }))
    }
}

/// Run `systemctl daemon-reload`, on both execute and revert.
#[derive(Clone, Copy, Debug)]
pub struct SystemctlDaemonReload;

impl SystemctlDaemonReload {
    pub open spec fn spec_tag() -> Seq<char> {
        "systemctl_daemon_reload"@
    }

    pub fn action_tag() -> (r: ActionTag)
        ensures
            r.0@ == Self::spec_tag(),
    {
        proof {
            reveal_strlit("systemctl_daemon_reload");
        }
        ActionTag("systemctl_daemon_reload".to_string())
    }

    /// Plan a reload; systemd must have booted the host and `systemctl` be available.
    pub fn plan(systemd_booted: bool, has_systemctl: bool) -> (r: Result<StatefulAction<Self>, ActionError>)
        ensures
            r is Ok <==> systemd_booted && has_systemctl,
            r is Ok ==> r->Ok_0@.state == ActionState::Uncompleted,
            r is Err ==> r->Err_0.action_tag.0@ == Self::spec_tag() && r->Err_0.kind == ActionErrorKind::SystemdMissing,
    {
        if !systemd_booted || !has_systemctl {
            return Err(ActionError::new(Self::action_tag(), ActionErrorKind::SystemdMissing));
        }
        Ok(StatefulAction::uncompleted(SystemctlDaemonReload))
    }
}

} // verus!
