//! The engine's error type.
use vstd::prelude::*;

use crate::action::ActionError;
use crate::version::Version;

verus! {

/// Why an install, an uninstall or a plan check did not succeed.
#[derive(Clone, Debug)]
pub enum NixInstallerError {
    /// One action failed.
    Action(ActionError),
    /// Two or more actions failed while reverting, in the order they were reverted.
    ActionRevert(Vec<ActionError>),
    /// A cancellation request was honoured between two steps.
    Cancelled,
    /// The plan was recorded by an engine version that this one cannot act on.
    IncompatibleVersion { binary: Version, plan: Version },
    /// The recorded version could not be read as a requirement: the text, the cause.
    InvalidVersionRequirement(String, String),
    /// The receipt could not be written: the path, the cause.
    RecordingReceipt(String, String),
    /// The plan could not be serialized.
    SerializingReceipt(String),
    /// A planner check or the planning itself failed.
    Planner(PlannerError),
    /// The post-install self test failed.
    SelfTest(String),
}

/// Why a planner refused the host or could not plan.
#[derive(Clone, Debug)]
pub enum PlannerError {
    /// The host platform cannot be served: its description.
    UnsupportedPlatform(String),
    /// The settings could not be determined.
    Settings(crate::settings::InstallSettingsError),
    /// A check of the macOS planner failed.
    Macos(crate::planner::macos::MacosError),
    /// Planning one of the actions failed.
    Action(ActionError),
    /// Any other failure, described in words.
    Custom(String),
}

} // verus!
