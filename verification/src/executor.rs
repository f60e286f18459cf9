//! The command executor the storage managers drive: an interface the
//! embedding program implements with real partitioning, filesystem and
//! mount tooling. The managers' decisions are verified against whatever an
//! implementation answers; the interface itself promises nothing.

use vstd::prelude::*;

use crate::strutil;

verus! {

/// How an executor operation fails.
#[derive(Debug)]
pub enum Error {
    /// The underlying call failed; carries its rendering.
    IOError(String),
    /// The spawned tool ended without an exit code.
    UnknownExitCode,
}

impl Error {
    /// A plain rendering for callers that report errors.
    pub fn message(&self) -> String {
        match self {
            Error::IOError(m) => strutil::concat2("IO Error: ", m.as_str()),
            Error::UnknownExitCode => "Couldn't determine exit code".to_owned(),
        }
    }
}

/// The operations the storage managers need from the system: listing block
/// devices, partitioning, filesystem creation, subvolume and directory
/// handling, and mounting. Implementations live with the embedding program,
/// which owns the external tools.
pub trait Executor {
    /// The device listing, as the listing tool prints it.
    fn lsblk(&self) -> Result<String, Error>;

    /// Writes a fresh partition table on the named device.
    fn partition_disk(&mut self, node_name: &str) -> Result<(), Error>;

    /// Adds one partition spanning the named device.
    fn create_fs(&mut self, node_name: &str) -> Result<(), Error>;

    /// Makes a filesystem with this label on the named device.
    fn make_fs(&mut self, node_name: &str, label: &str) -> Result<(), Error>;

    fn create_btrfs_subvol(&mut self, path: &str) -> Result<(), Error>;

    fn delete_btrfs_subvol(&mut self, path: &str) -> Result<(), Error>;

    fn delete_dir(&mut self, path: &str) -> Result<(), Error>;

    /// The entries under a directory, as paths.
    fn list_dir(&mut self, path: &str) -> Result<Vec<String>, Error>;

    fn mount(&mut self, device: &str, dir: &str, fs_type: Option<&str>) -> Result<(), Error>;

    fn copy_dir(&mut self, source: &str, target: &str) -> Result<(), Error>;

    fn make_dir(&mut self, path: &str) -> Result<(), Error>;

    fn is_directory_mountpoint(&self, path: &str) -> Result<bool, Error>;

    /// Tries to check and repair the filesystem; whether it was found sound.
    fn btrfs_repair(&mut self, path: &str) -> Result<bool, Error>;
}

/// A tag for the embedding program's command-running executor; the
/// implementation of [`Executor`] for it spawns external tools and so lives
/// with the embedding program.
pub struct System;

impl System {
    pub fn new() -> System {
        System
    }
}

} // verus!
