//! The parts of `diskutil` reports that the planners read.
use vstd::prelude::*;

verus! {

/// What `diskutil info` reports of one volume.
#[derive(Clone, Debug)]
pub struct DiskUtilInfoOutput {
    pub parent_whole_disk: String,
    pub global_permissions_enabled: bool,
    pub mount_point: Option<String>,
}

impl DiskUtilInfoOutput {
    /// Whether the volume is mounted: it has a mount point that is not empty.
    pub fn is_mounted(&self) -> (r: bool)
        ensures
            r == (self.mount_point is Some && self.mount_point->Some_0@.len() > 0),
    {
        match &self.mount_point {
            None => false,
            Some(mp) => !mp.as_str().is_empty(),
        }
    }
}

/// What `diskutil apfs list` reports.
#[derive(Clone, Debug)]
pub struct DiskUtilApfsListOutput {
    pub containers: Vec<DiskUtilApfsContainer>,
}

/// One APFS container.
#[derive(Clone, Debug)]
pub struct DiskUtilApfsContainer {
    pub volumes: Vec<DiskUtilApfsListVolume>,
}

/// One volume of an APFS container.
#[derive(Clone, Debug)]
pub struct DiskUtilApfsListVolume {
    pub name: Option<String>,
    pub file_vault: Option<bool>,
}

} // verus!
