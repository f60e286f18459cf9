//! The volume manager: brings the disk manager up over an executor.

use vstd::prelude::*;

use crate::disks::DiskManager;
use crate::executor::{Error, Executor};

verus! {

/// Owns the host's disk manager.
pub struct VolumeManager {
    pub disk_manager: DiskManager,
}

impl VolumeManager {
    /// Builds the disk manager, bringing the cache filesystem up on the way.
    pub fn new<E: Executor>(exec: &mut E) -> (r: Result<VolumeManager, Error>) {
        match DiskManager::new(exec) {
            Ok(dm) => Ok(VolumeManager { disk_manager: dm }),
            Err(e) => Err(e),
        }
    }
}

} // verus!
