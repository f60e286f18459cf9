//! The filesystem manager: brings the disk manager up over an executor.

use vstd::prelude::*;

use crate::disks::DiskManager;
use crate::executor::{Error, Executor};

verus! {

/// Owns the host's disk manager.
pub struct FilesystemManager {
    pub dm: DiskManager,
}

impl FilesystemManager {
    /// Builds the disk manager, bringing the cache filesystem up on the way.
    pub fn new<E: Executor>(exec: &mut E) -> (r: Result<FilesystemManager, Error>) {
        match DiskManager::new(exec) {
            Ok(dm) => Ok(FilesystemManager { dm }),
            Err(e) => Err(e),
        }
    }
}

} // verus!
