//! Provisioning engine for a package-management runtime.
//!
//! * [`Action`]: a unit of work that can be executed and reverted, wrapped in a
//!   [`StatefulAction`] that tracks whether its effect holds.
//! * [`InstallPlan`]: an ordered sequence of wrapped actions, carried out by
//!   `install` and undone, in reverse, by `uninstall`.
//! * [`profile::NixEnv`]: the conflict-aware merge of package roots into a profile.
pub mod action;
mod cert;
pub mod cli;
pub mod describe;
mod error;
pub mod os;
pub mod plan;
pub mod planner;
pub mod profile;
pub mod settings;
pub mod steps;
pub mod text;
pub mod version;

pub use action::{Action, ActionDescription, ActionError, ActionErrorKind, ActionState, ActionTag, StatefulAction};
pub use cert::{der_from, parse_ssl_cert, CertificateError};
pub use error::{NixInstallerError, PlannerError};
pub use plan::{cancel_signal, CancelSignal, InstallPlan, Planner};
pub use version::{current_version, Version};
