//! Checks of the macOS planner.
use vstd::prelude::*;

use crate::text::{join, joined, texts_of};

verus! {

/// Why the macOS planner refused to go on.
#[derive(Clone, Debug)]
pub enum MacosError {
    /// A `nix-darwin` installation must be removed before uninstalling.
    UninstallNixDarwin,
    /// Configuration profiles block mounting the store volume: the explanation.
    BlockedBySystemUIServerPolicy(String),
}

pub const SUIS_ONE_PREFIX: &'static str = "The following macOS configuration profile includes a 'Restrictions - Media' policy, which interferes with the Nix Store volume:\n\n";

pub const SUIS_MANY_PREFIX: &'static str = "The following macOS configuration profiles include a 'Restrictions - Media' policy, which interferes with the Nix Store volume:\n\n";

pub const SUIS_SUFFIX: &'static str = "\n\nSee https://dtr.mn/suis-premount-dissented";

pub const SUIS_SEPARATOR: &'static str = "\n\n";

/// Check the configuration profiles that block mounting the store volume.
///
/// `blocking` holds the description of each blocking profile, or is `None`
/// when the profiles could not be read, in which case the check is skipped.
pub fn check_suis(blocking: Option<Vec<String>>) -> (r: Result<(), MacosError>)
    ensures
        r is Ok <==> blocking is None || blocking->Some_0@.len() == 0,
        r is Err ==> r->Err_0 is BlockedBySystemUIServerPolicy,
        r is Err && blocking->Some_0@.len() == 1 ==> r->Err_0->BlockedBySystemUIServerPolicy_0@
            == SUIS_ONE_PREFIX@ + joined(texts_of(blocking->Some_0@), SUIS_SEPARATOR@) + SUIS_SUFFIX@,
        r is Err && blocking->Some_0@.len() > 1 ==> r->Err_0->BlockedBySystemUIServerPolicy_0@
            == SUIS_MANY_PREFIX@ + joined(texts_of(blocking->Some_0@), SUIS_SEPARATOR@) + SUIS_SUFFIX@,
{
    let blocks = match blocking {
        None => return Ok(()),
        Some(blocks) => blocks,
    };
    if blocks.len() == 0 {
        return Ok(());
    }
    let text = join(&blocks, SUIS_SEPARATOR);
    let prefix = if blocks.len() == 1 { SUIS_ONE_PREFIX } else { SUIS_MANY_PREFIX };
    let message = prefix.to_string().concat(text.as_str()).concat(SUIS_SUFFIX);
    Err(MacosError::BlockedBySystemUIServerPolicy(message))
}

} // verus!
