//! Trusted gateway to the ambient system: sleeping, the working directory,
//! mounts, renames and plain file writes, each behind a small wrapper whose
//! contract states what the underlying call does.
//!
//! The process-wide mutable state the library reasons about — the working
//! directory and the set of live mount points — is carried by the [`Sys`]
//! token, one per process, whose ghost fields the wrappers' contracts
//! update. Paths are taken as written: the model does not resolve symbolic
//! links, so a caller that moves between directories should use the absolute
//! paths that `getcwd` hands back.

use vstd::prelude::*;

verus! {

/// Relies on nix::poll::poll called with no file descriptors: it returns
/// once the timeout elapses and touches nothing else.
#[verifier::external_body]
pub(crate) fn sleep_ms(ms: u32)
    requires
        ms <= 0x7fff_ffff,
{
    let _ = nix::poll::poll(&mut [], ms as i32);
}

/// Whether a path is written absolute, as the model expects.
pub open spec fn is_abs(p: Seq<char>) -> bool {
    p.len() > 0 && p[0] == '/'
}

/// The one handle to ambient process state: the working directory and the
/// set of paths this process has mounted and not yet unmounted.
pub struct Sys {
    pub cwd: Ghost<Seq<char>>,
    pub mounted: Ghost<Set<Seq<char>>>,
}

impl Sys {
    /// The embedding program makes exactly one of these at startup. A fresh
    /// process has mounted nothing yet, so the mount set starts empty; the
    /// working directory is whatever the parent gave and stays unknown
    /// until read.
    pub fn boot() -> (r: Sys)
        ensures
            r.mounted@ == Set::<Seq<char>>::empty(),
    {
        Sys { cwd: Ghost(arbitrary()), mounted: Ghost(Set::empty()) }
    }
}

/// Relies on nix::unistd::getcwd: the current working directory, always an
/// absolute path. Fails when the path is not valid text.
#[verifier::external_body]
pub fn sys_getcwd(sys: &Sys) -> (r: Result<String, String>)
    ensures
        r matches Ok(p) ==> p@ == sys.cwd@ && is_abs(p@),
{
    match nix::unistd::getcwd() {
        Ok(p) => match p.into_os_string().into_string() {
            Ok(s) => Ok(s),
            Err(_) => Err("working directory is not valid text".to_string()),
        },
        Err(e) => Err(e.to_string()),
    }
}

/// Relies on nix::unistd::chdir: on success the working directory becomes
/// `path`; on failure it is unchanged. Mounts are untouched.
#[verifier::external_body]
pub fn sys_chdir(sys: &mut Sys, path: &str) -> (r: Result<(), String>)
    requires
        is_abs(path@),
    ensures
        r is Ok ==> final(sys).cwd@ == path@ && final(sys).mounted == old(sys).mounted,
        r is Err ==> *final(sys) == *old(sys),
{
    match nix::unistd::chdir(std::path::Path::new(path)) {
        Ok(()) => Ok(()),
        Err(e) => Err(e.to_string()),
    }
}

/// Relies on nix::mount::mount: on success a memory-backed filesystem with a
/// fixed 512M quota is mounted at `path`; on failure nothing changes. The
/// working directory is untouched.
#[verifier::external_body]
pub fn sys_mount_tmpfs(sys: &mut Sys, path: &str) -> (r: Result<(), String>)
    requires
        is_abs(path@),
    ensures
        r is Ok ==> final(sys).mounted@ == old(sys).mounted@.insert(path@) && final(sys).cwd == old(
            sys,
        ).cwd,
        r is Err ==> *final(sys) == *old(sys),
{
    match nix::mount::mount(
        Some("none"),
        std::path::Path::new(path),
        Some("tmpfs"),
        nix::mount::MsFlags::empty(),
        Some("size=512M"),
    ) {
        Ok(()) => Ok(()),
        Err(e) => Err(e.to_string()),
    }
}

/// Relies on nix::mount::umount2 with MNT_FORCE: on success no mount of
/// this process remains at `path`; on failure the mounts are as they were.
/// The working directory is untouched.
#[verifier::external_body]
pub fn sys_umount_force(sys: &mut Sys, path: &str) -> (r: Result<(), String>)
    requires
        is_abs(path@),
    ensures
        r is Ok ==> final(sys).mounted@ == old(sys).mounted@.remove(path@) && final(sys).cwd == old(
            sys,
        ).cwd,
        r is Err ==> *final(sys) == *old(sys),
{
    match nix::mount::umount2(std::path::Path::new(path), nix::mount::MntFlags::MNT_FORCE) {
        Ok(()) => Ok(()),
        Err(e) => Err(e.to_string()),
    }
}

/// How creating a directory went.
pub enum MkdirOutcome {
    Created,
    AlreadyThere,
    Failed(String),
}

/// Relies on nix::unistd::mkdir, telling an already-existing directory
/// apart from a real failure.
#[verifier::external_body]
pub fn sys_mkdir(path: &str) -> (r: MkdirOutcome) {
    match nix::unistd::mkdir(
        std::path::Path::new(path),
        nix::sys::stat::Mode::from_bits_truncate(0o755),
    ) {
        Ok(()) => MkdirOutcome::Created,
        Err(nix::errno::Errno::EEXIST) => MkdirOutcome::AlreadyThere,
        Err(e) => MkdirOutcome::Failed(e.to_string()),
    }
}

/// Relies on nix::unistd::unlinkat with RemoveDir: removes the (empty)
/// directory at `path`.
#[verifier::external_body]
pub fn sys_rmdir(path: &str) -> (r: Result<(), String>) {
    match nix::unistd::unlinkat(None, std::path::Path::new(path), nix::unistd::UnlinkatFlags::RemoveDir) {
        Ok(()) => Ok(()),
        Err(e) => Err(e.to_string()),
    }
}

/// Relies on nix::fcntl::renameat: moves the file at `from` to `to`.
#[verifier::external_body]
pub fn sys_rename(from: &str, to: &str) -> (r: Result<(), String>) {
    match nix::fcntl::renameat(
        None,
        std::path::Path::new(from),
        None,
        std::path::Path::new(to),
    ) {
        Ok(()) => Ok(()),
        Err(e) => Err(e.to_string()),
    }
}

/// Relies on nix::fcntl::open with write/create/truncate flags: a raw file
/// descriptor for a fresh file at `path`.
#[verifier::external_body]
fn sys_open_create(path: &str) -> (r: Result<i32, String>) {
    match nix::fcntl::open(
        std::path::Path::new(path),
        nix::fcntl::OFlag::O_WRONLY | nix::fcntl::OFlag::O_CREAT | nix::fcntl::OFlag::O_TRUNC,
        nix::sys::stat::Mode::from_bits_truncate(0o644),
    ) {
        Ok(fd) => Ok(fd),
        Err(e) => Err(e.to_string()),
    }
}

/// Relies on nix::unistd::write: writes some of `buf` from offset `from`
/// onward and reports how many bytes went out.
#[verifier::external_body]
fn sys_write_at(fd: i32, buf: &[u8], from: usize) -> (r: Result<usize, String>)
    requires
        from <= buf@.len(),
    ensures
        r matches Ok(n) ==> from + n <= buf@.len(),
{
    match nix::unistd::write(fd, &buf[from..]) {
        Ok(n) => Ok(n),
        Err(e) => Err(e.to_string()),
    }
}

/// Relies on nix::unistd::close.
#[verifier::external_body]
fn sys_close(fd: i32) -> (r: Result<(), String>) {
    match nix::unistd::close(fd) {
        Ok(()) => Ok(()),
        Err(e) => Err(e.to_string()),
    }
}

/// Writes all of `bytes` to a fresh file at `path`: opens it for writing,
/// pushes the buffer out in full, and closes the descriptor on every path.
pub fn write_file(path: &str, bytes: &[u8]) -> (r: Result<(), String>) {
    let fd = match sys_open_create(path) {
        Ok(fd) => fd,
        Err(e) => {
            return Err(e);
        },
    };
    let mut from: usize = 0;
    while from < bytes.len()
        invariant
            from <= bytes@.len(),
        decreases bytes@.len() - from,
    {
        match sys_write_at(fd, bytes, from) {
            Ok(n) => {
                if n == 0 {
                    let _ = sys_close(fd);
                    return Err(crate::strutil::concat2("write made no progress: ", path));
                }
                from = from + n;
            },
            Err(e) => {
                let _ = sys_close(fd);
                return Err(e);
            },
        }
    }
    sys_close(fd)
}

} // verus!
