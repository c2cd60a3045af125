//! The unit-of-work contract and the idempotency wrapper around it.
use vstd::prelude::*;

pub mod base;
pub mod common;
pub mod linux;

verus! {

/// The stable name under which an action kind is recorded in a receipt.
#[derive(Clone, Debug, PartialEq, Eq)]
pub struct ActionTag(pub String);

/// A human-facing line describing one planned effect, with supporting lines.
#[derive(Clone, Debug)]
pub struct ActionDescription {
    pub description: String,
    pub explanation: Vec<String>,
}

impl ActionDescription {
    pub fn new(description: String, explanation: Vec<String>) -> (r: Self)
        ensures
            r.description == description,
            r.explanation == explanation,
    {
        ActionDescription { description, explanation }
    }
}

/// What went wrong inside one action.
#[derive(Clone, Debug)]
pub enum ActionErrorKind {
    /// systemd is not running, or `systemctl` cannot be found.
    SystemdMissing,
    /// Neither `groupadd` nor `addgroup` is available.
    MissingGroupCreationCommand,
    /// Neither `groupdel` nor `delgroup` is available.
    MissingGroupDeletionCommand,
    /// Neither `userdel` nor `deluser` is available.
    MissingUserDeletionCommand,
    /// The group exists with another GID: name, found GID, wanted GID.
    GroupGidMismatch(String, u32, u32),
    /// Looking up a group failed: name, cause.
    GettingGroupId(String, String),
    /// Looking up a user failed: name, cause.
    GettingUserId(String, String),
    /// The user does not exist.
    NoUser(String),
    /// A command could not be started or exited unsuccessfully: command, cause.
    Command(String, String),
    /// A filesystem operation failed: path, cause.
    Io(String, String),
    /// A symbolic link could not be read: path, cause.
    ReadSymlink(String, String),
    /// A file could not be read: path, cause.
    Read(String, String),
    /// A symbolic link to somewhere else is in the way.
    SymlinkExists(String),
    /// A file is in the way.
    FileExists(String),
    /// A file with other content is in the way.
    DifferentContent(String),
    /// A directory is in the way.
    DirExists(String),
    /// The unpacked bundle does not hold exactly one runtime directory.
    MalformedBinaryTarball,
    /// Unpacking the bundled archive failed.
    Unpack(crate::action::base::UnpackError),
    /// Setting up the default profile failed.
    SetupDefaultProfile(crate::action::base::SetupDefaultProfileError),
    /// Setting up channels failed.
    SetupChannels(crate::action::common::SetupChannelsError),
    /// Configuring the daemon service failed.
    ConfigureInitService(crate::action::common::ConfigureNixDaemonServiceError),
    /// Any other failure, described in words.
    Custom(String),
}

/// A failed `execute` or `revert`, with the tag of the action that failed.
#[derive(Clone, Debug)]
pub struct ActionError {
    pub action_tag: ActionTag,
    pub kind: ActionErrorKind,
}

impl ActionError {
    pub fn new(action_tag: ActionTag, kind: ActionErrorKind) -> (r: Self)
        ensures
            r.action_tag == action_tag,
            r.kind == kind,
    {
        ActionError { action_tag, kind }
    }
}

/// A unit of work: one effect on the host that can be applied and undone.
///
/// `execute` and `revert` may touch the host in any way; the engine relies only
/// on the `Ok` / `Err` they return.
pub trait Action {
    /// The stable tag of this kind of action.
    fn action_tag(&self) -> ActionTag;

    /// A one-line summary of what the action does.
    fn tracing_synopsis(&self) -> String;

    /// What `execute` will do, for human-facing plan output.
    fn execute_description(&self) -> Vec<ActionDescription>;

    /// What `revert` will do, for human-facing plan output.
    fn revert_description(&self) -> Vec<ActionDescription>;

    /// Apply the effect.
    fn execute(&mut self) -> Result<(), ActionError>;

    /// Undo the effect.
    fn revert(&mut self) -> Result<(), ActionError>;
}

/// Whether the effect of a wrapped action currently holds.
#[derive(Clone, Copy, Debug, PartialEq, Eq, Structural)]
pub enum ActionState {
    Uncompleted,
    Completed,
}

/// What the engine knows of a wrapped action: its completion state, how many
/// times the wrapped `execute` and `revert` have been invoked through the
/// wrapper, and the last error one of them returned.
pub struct WrapperView {
    pub state: ActionState,
    pub executions: nat,
    pub reverts: nat,
    pub last_error: Option<ActionError>,
}

/// One call of `try_execute`: from `pre` to `post`, returning `Ok` exactly when `ok`.
///
/// A completed wrapper is left alone and succeeds; otherwise the wrapped action
/// runs once, and the wrapper becomes completed exactly when it succeeded.
pub open spec fn execute_step(pre: WrapperView, post: WrapperView, ok: bool) -> bool {
    if pre.state == ActionState::Completed {
        ok && post == pre
    } else {
        &&& post.executions == pre.executions + 1
        &&& post.reverts == pre.reverts
        &&& post.state == (if ok { ActionState::Completed } else { ActionState::Uncompleted })
        &&& ok ==> post.last_error == pre.last_error
    }
}

/// One call of `try_revert`: from `pre` to `post`, returning `Ok` exactly when `ok`.
///
/// An uncompleted wrapper is left alone and succeeds; otherwise the wrapped
/// action is reverted once, and the wrapper becomes uncompleted exactly when
/// that succeeded.
pub open spec fn revert_step(pre: WrapperView, post: WrapperView, ok: bool) -> bool {
    if pre.state == ActionState::Uncompleted {
        ok && post == pre
    } else {
        &&& post.reverts == pre.reverts + 1
        &&& post.executions == pre.executions
        &&& post.state == (if ok { ActionState::Uncompleted } else { ActionState::Completed })
        &&& ok ==> post.last_error == pre.last_error
    }
}

/// An action together with its completion state.
///
/// The wrapped action is never executed while `Completed` and never reverted
/// while `Uncompleted`; only `try_execute` and `try_revert` change the state.
#[derive(Clone)]
pub struct StatefulAction<A> {
    pub(crate) action: A,
    pub(crate) state: ActionState,
    pub(crate) executions: Ghost<nat>,
    pub(crate) reverts: Ghost<nat>,
    pub(crate) last_error: Ghost<Option<ActionError>>,
}

impl<A> View for StatefulAction<A> {
    type V = WrapperView;

    closed spec fn view(&self) -> WrapperView {
        WrapperView {
            state: self.state,
            executions: self.executions@,
            reverts: self.reverts@,
            last_error: self.last_error@,
        }
    }
}

impl<A> StatefulAction<A> {
    /// The wrapped action.
    pub closed spec fn spec_inner(&self) -> A {
        self.action
    }

    /// Wrap an action whose effect does not hold yet.
    pub fn uncompleted(action: A) -> (r: Self)
        ensures
            r@.state == ActionState::Uncompleted,
            r@.executions == 0,
            r@.reverts == 0,
            r@.last_error is None,
            r.spec_inner() == action,
    {
        StatefulAction {
            action,
            state: ActionState::Uncompleted,
            executions: Ghost(0),
            reverts: Ghost(0),
            last_error: Ghost(None),
        }
    }

    /// Wrap an action whose effect was found to hold already.
    pub fn completed(action: A) -> (r: Self)
        ensures
            r@.state == ActionState::Completed,
            r@.executions == 0,
            r@.reverts == 0,
            r@.last_error is None,
            r.spec_inner() == action,
    {
        StatefulAction {
            action,
            state: ActionState::Completed,
            executions: Ghost(0),
            reverts: Ghost(0),
            last_error: Ghost(None),
        }
    }

    /// The current completion state.
    pub fn state(&self) -> (r: ActionState)
        ensures
            r == self@.state,
    {
        self.state
    }

    /// The wrapped action.
    pub fn inner(&self) -> (r: &A)
        ensures
            *r == self.spec_inner(),
    {
        &self.action
    }
}

impl<A: Action> StatefulAction<A> {
    /// Run the wrapped action unless its effect already holds.
    pub fn try_execute(&mut self) -> (r: Result<(), ActionError>)
        ensures
            execute_step(old(self)@, final(self)@, r is Ok),
            r is Err ==> final(self)@.last_error == Some(r->Err_0),
            old(self)@.state == ActionState::Completed ==> final(self).spec_inner() == old(self).spec_inner(),
    {
        match self.state {
            ActionState::Completed => Ok(()),
            ActionState::Uncompleted => {
                let r = self.action.execute();
                self.executions = Ghost(self.executions@ + 1);
                match r {
                    Ok(()) => {
                        self.state = ActionState::Completed;
                        Ok(())
                    },
                    Err(e) => {
                        self.last_error = Ghost(Some(e));
                        Err(e)
                    },
                }
            },
        }
    }

    /// Undo the wrapped action unless its effect does not hold.
    pub fn try_revert(&mut self) -> (r: Result<(), ActionError>)
        ensures
            revert_step(old(self)@, final(self)@, r is Ok),
            r is Err ==> final(self)@.last_error == Some(r->Err_0),
            old(self)@.state == ActionState::Uncompleted ==> final(self).spec_inner() == old(self).spec_inner(),
    {
        match self.state {
            ActionState::Uncompleted => Ok(()),
            ActionState::Completed => {
                let r = self.action.revert();
                self.reverts = Ghost(self.reverts@ + 1);
                match r {
                    Ok(()) => {
                        self.state = ActionState::Uncompleted;
                        Ok(())
                    },
                    Err(e) => {
                        self.last_error = Ghost(Some(e));
                        Err(e)
                    },
                }
            },
        }
    }

    /// The planned execute steps, or none when the effect already holds.
    pub fn describe_execute(&self) -> (r: Vec<ActionDescription>)
        ensures
            self@.state == ActionState::Completed ==> r@.len() == 0,
    {
        match self.state {
            ActionState::Completed => Vec::new(),
            ActionState::Uncompleted => self.action.execute_description(),
        }
    }

    /// The planned revert steps, or none when the effect does not hold.
    pub fn describe_revert(&self) -> (r: Vec<ActionDescription>)
        ensures
            self@.state == ActionState::Uncompleted ==> r@.len() == 0,
    {
        match self.state {
            ActionState::Uncompleted => Vec::new(),
            ActionState::Completed => self.action.revert_description(),
        }
    }

    /// The wrapped action's one-line summary.
    pub fn tracing_synopsis(&self) -> String {
        self.action.tracing_synopsis()
    }
}

/// Calling `try_execute` twice in a row runs the wrapped action at most once
/// when the first call succeeds; the second call is then a no-op that succeeds.
pub proof fn lemma_execute_twice_runs_once(w0: WrapperView, w1: WrapperView, w2: WrapperView, ok1: bool, ok2: bool)
    requires
        execute_step(w0, w1, ok1),
        execute_step(w1, w2, ok2),
        ok1,
    ensures
        w2.executions <= w0.executions + 1,
        ok2,
        w2 == w1,
        w2.state == ActionState::Completed,
{
}

/// `try_revert` on an uncompleted wrapper runs nothing and succeeds.
pub proof fn lemma_revert_uncompleted_is_noop(w0: WrapperView, w1: WrapperView, ok: bool)
    requires
        w0.state == ActionState::Uncompleted,
        revert_step(w0, w1, ok),
    ensures
        ok,
        w1 == w0,
        w1.reverts == w0.reverts,
{
}

} // verus!
