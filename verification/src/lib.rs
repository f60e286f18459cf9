//! Bootstrap library: brings a minimal booted image up to a full operating
//! node by resolving versioned filesystem artifacts from a repository of
//! mirrors, mounting each one read-only, materializing its contents into the
//! live root filesystem, and activating the services it carries.

pub mod args;
pub mod bootstrap;
pub mod config;
pub mod disks;
pub mod executor;
pub mod fs;
pub mod hub;
pub mod info;
pub mod kparams;
pub mod json;
pub mod retry;
pub mod stage;
pub mod strutil;
pub mod sys;
pub mod volume;
pub mod workdir;
pub mod zfs;
pub mod zinit;
