//! The scoped ephemeral workspace: a memory-backed scratch directory the
//! process works inside for the span of one call, with restoration and
//! cleanup on every exit path.

use vstd::prelude::*;

use crate::sys;
use crate::sys::{is_abs, MkdirOutcome, Sys};

verus! {

/// One live workspace: the scratch path and the directory to restore.
pub struct WorkDir {
    pub path: String,
    pub old: String,
}

impl WorkDir {
    /// Both paths are absolute, as the system model expects.
    pub open spec fn wf(&self) -> bool {
        is_abs(self.path@) && is_abs(self.old@)
    }

    /// Creates the scratch directory (one already there is no error),
    /// mounts a memory-backed filesystem on it, and moves the working
    /// directory into it, remembering the directory to restore.
    fn enter(sys: &mut Sys, path: &str) -> (r: Result<WorkDir, String>)
        requires
            !old(sys).mounted@.contains(path@),
            is_abs(path@),
        ensures
            r matches Ok(wd) ==> ({
                &&& wd.wf()
                &&& wd.path@ == path@
                &&& wd.old@ == old(sys).cwd@
                &&& final(sys).cwd@ == path@
                &&& final(sys).mounted@ == old(sys).mounted@.insert(path@)
            }),
            r is Err ==> final(sys).cwd == old(sys).cwd && (final(sys).mounted@ == old(
                sys,
            ).mounted@ || final(sys).mounted@ == old(sys).mounted@.insert(path@)),
    {
        let old_dir = match sys::sys_getcwd(sys) {
            Ok(d) => d,
            Err(e) => {
                return Err(e);
            },
        };
        match sys::sys_mkdir(path) {
            MkdirOutcome::Created => {},
            MkdirOutcome::AlreadyThere => {},
            MkdirOutcome::Failed(e) => {
                return Err(e);
            },
        }
        match sys::sys_mount_tmpfs(sys, path) {
            Ok(()) => {},
            Err(e) => {
                return Err(e);
            },
        }
        match sys::sys_chdir(sys, path) {
            Ok(()) => {},
            Err(e) => {
                // Best-effort rollback of the mount just made; a failure
                // here leaves it behind, and nothing else.
                let _ = sys::sys_umount_force(sys, path);
                let _ = sys::sys_rmdir(path);
                proof {
                    assert(old(sys).mounted@.insert(path@).remove(path@) =~= old(sys).mounted@);
                }
                return Err(e);
            },
        }
        Ok(WorkDir { path: path.to_owned(), old: old_dir })
    }

    /// Restores the prior working directory, force-unmounts the scratch
    /// path, and removes it. All three are attempted whatever the others
    /// did; a failing step changes nothing of its own part.
    fn leave(self, sys: &mut Sys)
        requires
            self.wf(),
        ensures
            final(sys).cwd@ == self.old@ || final(sys).cwd == old(sys).cwd,
            final(sys).mounted@ == old(sys).mounted@.remove(self.path@) || final(sys).mounted@
                == old(sys).mounted@,
    {
        let _ = sys::sys_chdir(sys, self.old.as_str());
        let _ = sys::sys_umount_force(sys, self.path.as_str());
        let _ = sys::sys_rmdir(self.path.as_str());
    }

    /// Runs `body` with the working directory inside a fresh memory-backed
    /// workspace at `path`. Whatever `body`'s outcome — its result is
    /// returned as it stands, never masked — the prior working directory is
    /// restored and the workspace unmounted and removed; the two final
    /// ensures clauses state that scoped-release law, whose one exception
    /// per part is a restoring call that itself failed and changed nothing.
    pub fn run<O, F: FnOnce() -> O>(sys: &mut Sys, path: &str, body: F) -> (r: Result<O, String>)
        requires
            call_requires(body, ()),
            !old(sys).mounted@.contains(path@),
            is_abs(path@),
        ensures
            r matches Ok(out) ==> call_ensures(body, (), out),
            r is Err ==> final(sys).cwd == old(sys).cwd,
            final(sys).mounted@ == old(sys).mounted@ || final(sys).mounted@ == old(
                sys,
            ).mounted@.insert(path@),
            final(sys).cwd@ == old(sys).cwd@ || final(sys).cwd@ == path@,
    {
        let wd = match Self::enter(sys, path) {
            Ok(wd) => wd,
            Err(e) => {
                return Err(e);
            },
        };
        let out = body();
        wd.leave(sys);
        proof {
            assert(old(sys).mounted@.insert(path@).remove(path@) =~= old(sys).mounted@);
        }
        Ok(out)
    }
}

} // verus!
