//! The mount-and-materialize engine. Mounting launches an external
//! read-only mount process and polls until its target is a live mountpoint,
//! under the capped schedule; materializing turns a walked tree into a plan
//! of filesystem steps whose effect on a model of the destination is proved
//! idempotent. The embedding program spawns the process, probes the
//! mountpoint, and carries the plan out step by step.

use vstd::prelude::*;

use crate::retry::{spec_delay, RetryPolicy, RetryState};
use crate::strutil;

verus! {

/// A mounted volume: the mountpoint and the identifier of the process
/// backing it. Teardown unmounts the target and reaps the process, each
/// exactly once, both best-effort.
pub struct Zfs {
    pub target: String,
    pub pid: i32,
}

/// The command line that mounts `meta` read-only at `target` with cache
/// backend `backend`.
pub fn mount_command(backend: &str, meta: &str, target: &str) -> (r: Vec<String>)
    ensures
        r.deep_view() =~= seq![
            "g8ufs"@,
            "--ro"@,
            "--cache"@,
            backend@,
            "--meta"@,
            meta@,
            target@,
        ],
{
    let mut out: Vec<String> = Vec::new();
    out.push("g8ufs".to_owned());
    out.push("--ro".to_owned());
    out.push("--cache".to_owned());
    out.push(backend.to_owned());
    out.push("--meta".to_owned());
    out.push(meta.to_owned());
    out.push(target.to_owned());
    out
}

/// The command line that asks whether `target` is a live mountpoint.
pub fn probe_command(target: &str) -> (r: Vec<String>)
    ensures
        r.deep_view() =~= seq!["mountpoint"@, "-q"@, target@],
{
    let mut out: Vec<String> = Vec::new();
    out.push("mountpoint".to_owned());
    out.push("-q".to_owned());
    out.push(target.to_owned());
    out
}

/// What the poller asks after one readiness probe.
pub enum PollVerdict {
    /// The target is a live mountpoint; the volume is up.
    Mounted,
    /// Not ready: sleep this many milliseconds and probe again.
    Wait(u64),
    /// The attempt cap is spent: kill the spawned process and report a
    /// mount timeout; nothing may be materialized.
    GiveUpKill,
}

/// Polls mount readiness under the capped schedule: 10 attempts, 500ms
/// initial delay, so worst-case startup latency is bounded.
pub struct MountPoller {
    pub state: RetryState,
}

impl MountPoller {
    /// The poller always runs the capped mount schedule.
    pub open spec fn wf(&self) -> bool {
        self.state.wf(&RetryPolicy { base_ms: 500, max_attempts: Some(10u64) })
    }

    pub fn new() -> (r: MountPoller)
        ensures
            r.wf(),
            r.state.attempts == 0,
    {
        let policy = RetryPolicy::mount_poll();
        MountPoller { state: RetryState::new(&policy) }
    }

    /// Accounts one probe: a ready target ends the poll at once; a failed
    /// probe costs the scheduled delay until exactly the tenth, which gives
    /// up and has the caller kill the mount process.
    pub fn on_probe(&mut self, ready: bool) -> (r: PollVerdict)
        requires
            old(self).wf(),
            old(self).state.attempts < 10,
        ensures
            final(self).wf(),
            ready ==> r is Mounted && *final(self) == *old(self),
            !ready ==> final(self).state.attempts == old(self).state.attempts + 1,
            !ready && old(self).state.attempts + 1 < 10 ==> ({
                &&& r matches PollVerdict::Wait(d) && d == spec_delay(
                    500,
                    old(self).state.attempts as nat,
                )
            }),
            !ready && old(self).state.attempts + 1 == 10 ==> r is GiveUpKill
                && final(self).state.attempts == 10,
    {
        if ready {
            return PollVerdict::Mounted;
        }
        let policy = RetryPolicy::mount_poll();
        match self.state.record_failure(&policy) {
            Some(d) => PollVerdict::Wait(d),
            None => PollVerdict::GiveUpKill,
        }
    }
}

/// Reported when the mount-readiness poll spends its whole cap.
pub struct MountTimeout {
    pub attempts: u64,
}

/// Polls `probe` under the capped mount schedule, sleeping the scheduled
/// delay between probes. A probe that answers true ends the poll mounted;
/// one that never answers true spends exactly ten probes and times out —
/// the final ensures clause states that law. On a timeout the caller must
/// kill the mount process it spawned, no volume handle exists, and nothing
/// may be materialized.
pub fn poll_mount<F: Fn() -> bool>(probe: F) -> (r: Result<(), MountTimeout>)
    requires
        call_requires(probe, ()),
    ensures
        r is Ok ==> call_ensures(probe, (), true),
        r matches Err(t) ==> t.attempts == 10 && call_ensures(probe, (), false),
        (forall|b: bool| #[trigger] call_ensures(probe, (), b) ==> !b) ==> ({
            &&& r matches Err(t) && t.attempts == 10
        }),
{
    let mut poller = MountPoller::new();
    loop
        invariant
            call_requires(probe, ()),
            poller.wf(),
            poller.state.attempts < 10,
        decreases 10 - poller.state.attempts,
    {
        let ready = probe();
        match poller.on_probe(ready) {
            PollVerdict::Mounted => {
                return Ok(());
            },
            PollVerdict::Wait(d) => {
                let ms: u32 = if d > 60_000 {
                    60_000
                } else {
                    d as u32
                };
                crate::sys::sleep_ms(ms);
            },
            PollVerdict::GiveUpKill => {
                return Err(MountTimeout { attempts: poller.state.attempts });
            },
        }
    }
}

/// One entry of a walked mounted tree, by its path relative to the mount
/// root. Anything that is neither directory, regular file nor symbolic
/// link is skipped at planning time.
pub enum TreeEntry {
    Dir { rel: String },
    File { rel: String },
    Symlink { rel: String, target: String },
    Other { rel: String },
}

/// The mathematical image of a tree entry.
pub enum TreeEntryV {
    Dir { rel: Seq<char> },
    File { rel: Seq<char> },
    Symlink { rel: Seq<char>, target: Seq<char> },
    Other { rel: Seq<char> },
}

impl View for TreeEntry {
    type V = TreeEntryV;

    open spec fn view(&self) -> TreeEntryV {
        match self {
            TreeEntry::Dir { rel } => TreeEntryV::Dir { rel: rel@ },
            TreeEntry::File { rel } => TreeEntryV::File { rel: rel@ },
            TreeEntry::Symlink { rel, target } => TreeEntryV::Symlink {
                rel: rel@,
                target: target@,
            },
            TreeEntry::Other { rel } => TreeEntryV::Other { rel: rel@ },
        }
    }
}

/// One step of a materialization plan, shaped for plain filesystem calls.
pub enum FsOp {
    /// Create this directory and any missing parents; one already there is
    /// no error.
    MkDirAll { path: String },
    /// Copy the source file to a temporary sibling marked partial.
    CopyToTmp { src: String, tmp: String },
    /// Atomically rename the temporary over its final destination.
    RenameInto { tmp: String, dst: String },
    /// Remove whatever entry is at this path; a missing one is no error,
    /// any other failure is fatal.
    RemoveIfThere { path: String },
    /// Create a symbolic link at `dst` pointing at `target`.
    MakeLink { target: String, dst: String },
}

/// The mathematical image of a plan step.
pub enum FsOpV {
    MkDirAll { path: Seq<char> },
    CopyToTmp { src: Seq<char>, tmp: Seq<char> },
    RenameInto { tmp: Seq<char>, dst: Seq<char> },
    RemoveIfThere { path: Seq<char> },
    MakeLink { target: Seq<char>, dst: Seq<char> },
}

impl View for FsOp {
    type V = FsOpV;

    open spec fn view(&self) -> FsOpV {
        match self {
            FsOp::MkDirAll { path } => FsOpV::MkDirAll { path: path@ },
            FsOp::CopyToTmp { src, tmp } => FsOpV::CopyToTmp { src: src@, tmp: tmp@ },
            FsOp::RenameInto { tmp, dst } => FsOpV::RenameInto { tmp: tmp@, dst: dst@ },
            FsOp::RemoveIfThere { path } => FsOpV::RemoveIfThere { path: path@ },
            FsOp::MakeLink { target, dst } => FsOpV::MakeLink { target: target@, dst: dst@ },
        }
    }
}

/// A symlink target carried over: a relative target is kept unchanged; an
/// absolute one is rewritten under the destination root.
pub open spec fn spec_rewrite_target(target: Seq<char>, dest_root: Seq<char>) -> Seq<char> {
    if target.len() > 0 && target[0] == '/' {
        if dest_root == "/"@ {
            target
        } else {
            dest_root + target
        }
    } else {
        target
    }
}

/// Rewrites a symlink target as [`spec_rewrite_target`] says.
pub fn rewrite_target(target: &str, dest_root: &str) -> (r: String)
    ensures
        r@ == spec_rewrite_target(target@, dest_root@),
{
    let n = target.unicode_len();
    if n > 0 && target.get_char(0) == '/' {
        if strutil::str_eq(dest_root, "/") {
            proof {
                reveal_strlit("/");
            }
            target.to_owned()
        } else {
            proof {
                reveal_strlit("/");
            }
            strutil::concat2(dest_root, target)
        }
    } else {
        target.to_owned()
    }
}

/// The destination path of an entry: the destination root, a separator,
/// and the relative path.
pub open spec fn spec_dst(dest_root: Seq<char>, rel: Seq<char>) -> Seq<char> {
    dest_root + "/"@ + rel
}

/// The temporary sibling a file is copied to before its atomic rename.
pub open spec fn spec_tmp(dest_root: Seq<char>, rel: Seq<char>) -> Seq<char> {
    spec_dst(dest_root, rel) + ".partial"@
}

/// The plan steps one entry contributes.
pub open spec fn spec_entry_plan(e: TreeEntryV, src_root: Seq<char>, dest_root: Seq<char>) -> Seq<
    FsOpV,
> {
    match e {
        TreeEntryV::Dir { rel } => seq![FsOpV::MkDirAll { path: spec_dst(dest_root, rel) }],
        TreeEntryV::File { rel } => seq![
            FsOpV::CopyToTmp { src: src_root + "/"@ + rel, tmp: spec_tmp(dest_root, rel) },
            FsOpV::RenameInto { tmp: spec_tmp(dest_root, rel), dst: spec_dst(dest_root, rel) },
        ],
        TreeEntryV::Symlink { rel, target } => seq![
            FsOpV::RemoveIfThere { path: spec_dst(dest_root, rel) },
            FsOpV::MakeLink {
                target: spec_rewrite_target(target, dest_root),
                dst: spec_dst(dest_root, rel),
            },
        ],
        TreeEntryV::Other { rel } => Seq::empty(),
    }
}

/// The whole plan: each entry's steps in walk order.
pub open spec fn spec_plan(es: Seq<TreeEntryV>, src_root: Seq<char>, dest_root: Seq<char>) -> Seq<
    FsOpV,
>
    decreases es.len(),
{
    if es.len() == 0 {
        Seq::empty()
    } else {
        spec_entry_plan(es[0], src_root, dest_root) + spec_plan(es.drop_first(), src_root, dest_root)
    }
}

impl Zfs {
    /// The materialization plan for a walked tree of this volume into
    /// `dest_root`, exactly as [`spec_plan`] lays it out: directories are
    /// created idempotently, every file lands via a partial-marked
    /// temporary and an atomic rename, and symlinks replace whatever stood
    /// at their destination.
    pub fn copy_plan(&self, entries: &Vec<TreeEntry>, dest_root: &str) -> (r: Vec<FsOp>)
        ensures
            r@.map_values(|o: FsOp| o@) == spec_plan(
                entries@.map_values(|e: TreeEntry| e@),
                self.target@,
                dest_root@,
            ),
    {
        let ghost esv = entries@.map_values(|e: TreeEntry| e@);
        let mut out: Vec<FsOp> = Vec::new();
        let mut i: usize = 0;
        proof {
            assert(esv.skip(0) =~= esv);
            assert(out@.map_values(|o: FsOp| o@) =~= Seq::<FsOpV>::empty());
            assert(spec_plan(esv, self.target@, dest_root@) =~= out@.map_values(|o: FsOp| o@)
                + spec_plan(esv.skip(0), self.target@, dest_root@));
        }
        while i < entries.len()
            invariant
                i <= entries@.len(),
                esv == entries@.map_values(|e: TreeEntry| e@),
                spec_plan(esv, self.target@, dest_root@) == out@.map_values(|o: FsOp| o@)
                    + spec_plan(esv.skip(i as int), self.target@, dest_root@),
            decreases entries@.len() - i,
        {
            proof {
                assert(esv.skip(i as int)[0] == esv[i as int]);
                assert(esv.skip(i as int).drop_first() =~= esv.skip(i + 1));
                assert(esv[i as int] == entries@[i as int]@);
            }
            let ghost pre = out@.map_values(|o: FsOp| o@);
            match &entries[i] {
                TreeEntry::Dir { rel } => {
                    let dst = strutil::concat3(dest_root, "/", rel.as_str());
                    out.push(FsOp::MkDirAll { path: dst });
                },
                TreeEntry::File { rel } => {
                    let src = strutil::concat3(self.target.as_str(), "/", rel.as_str());
                    let dst = strutil::concat3(dest_root, "/", rel.as_str());
                    let tmp = strutil::concat2(dst.as_str(), ".partial");
                    out.push(FsOp::CopyToTmp { src, tmp });
                    let dst2 = strutil::concat3(dest_root, "/", rel.as_str());
                    let tmp2 = strutil::concat2(dst2.as_str(), ".partial");
                    out.push(FsOp::RenameInto { tmp: tmp2, dst: dst2 });
                },
                TreeEntry::Symlink { rel, target } => {
                    let dst = strutil::concat3(dest_root, "/", rel.as_str());
                    out.push(FsOp::RemoveIfThere { path: dst });
                    let dst2 = strutil::concat3(dest_root, "/", rel.as_str());
                    let rewritten = rewrite_target(target.as_str(), dest_root);
                    out.push(FsOp::MakeLink { target: rewritten, dst: dst2 });
                },
                TreeEntry::Other { rel } => {},
            }
            proof {
                assert(out@.map_values(|o: FsOp| o@) =~= pre + spec_entry_plan(
                    esv[i as int],
                    self.target@,
                    dest_root@,
                ));
                assert(pre + (spec_entry_plan(esv[i as int], self.target@, dest_root@) + spec_plan(
                    esv.skip(i + 1),
                    self.target@,
                    dest_root@,
                )) =~= (pre + spec_entry_plan(esv[i as int], self.target@, dest_root@)) + spec_plan(
                    esv.skip(i + 1),
                    self.target@,
                    dest_root@,
                ));
            }
            i = i + 1;
        }
        proof {
            assert(esv.skip(entries@.len() as int) =~= Seq::<TreeEntryV>::empty());
            assert(out@.map_values(|o: FsOp| o@) + Seq::<FsOpV>::empty() =~= out@.map_values(
                |o: FsOp| o@,
            ));
        }
        out
    }

    /// The commands that tear the volume down: a forced unmount of the
    /// target, then reaping the mount process; both are attempted whatever
    /// the other does, and neither failure escalates.
    pub fn teardown_commands(&self) -> (r: Vec<Vec<String>>)
        ensures
            r.deep_view() =~= seq![seq!["umount"@, "-f"@, self.target@]],
    {
        let mut cmd: Vec<String> = Vec::new();
        cmd.push("umount".to_owned());
        cmd.push("-f".to_owned());
        cmd.push(self.target.clone());
        proof {
            assert(cmd.deep_view() =~= seq!["umount"@, "-f"@, self.target@]);
        }
        let mut out: Vec<Vec<String>> = Vec::new();
        out.push(cmd);
        proof {
            assert(out.deep_view() =~= seq![seq!["umount"@, "-f"@, self.target@]]);
        }
        out
    }
}

/// A node of the destination-filesystem model.
pub enum NodeV {
    DirN,
    /// A regular file, named by the source path whose content it received;
    /// the mounted tree is read-only, so one source path means one content.
    FileN { src: Seq<char> },
    LinkN { target: Seq<char> },
}

/// What one plan step does to a model of the destination tree.
pub open spec fn apply_op(m: Map<Seq<char>, NodeV>, op: FsOpV) -> Map<Seq<char>, NodeV> {
    match op {
        FsOpV::MkDirAll { path } => m.insert(path, NodeV::DirN),
        FsOpV::CopyToTmp { src, tmp } => m.insert(tmp, NodeV::FileN { src }),
        FsOpV::RenameInto { tmp, dst } => if m.dom().contains(tmp) {
            m.insert(dst, m[tmp]).remove(tmp)
        } else {
            m
        },
        FsOpV::RemoveIfThere { path } => m.remove(path),
        FsOpV::MakeLink { target, dst } => m.insert(dst, NodeV::LinkN { target }),
    }
}

/// A whole plan applied in order.
pub open spec fn apply_plan(m: Map<Seq<char>, NodeV>, ops: Seq<FsOpV>) -> Map<Seq<char>, NodeV>
    decreases ops.len(),
{
    if ops.len() == 0 {
        m
    } else {
        apply_plan(apply_op(m, ops[0]), ops.drop_first())
    }
}

/// The relative path of an entry.
pub open spec fn rel_of(e: TreeEntryV) -> Seq<char> {
    match e {
        TreeEntryV::Dir { rel } => rel,
        TreeEntryV::File { rel } => rel,
        TreeEntryV::Symlink { rel, .. } => rel,
        TreeEntryV::Other { rel } => rel,
    }
}

/// The node an entry writes at its destination, if any.
pub open spec fn entry_write(e: TreeEntryV, src_root: Seq<char>, dest_root: Seq<char>) -> Option<
    (Seq<char>, NodeV),
> {
    match e {
        TreeEntryV::Dir { rel } => Some((spec_dst(dest_root, rel), NodeV::DirN)),
        TreeEntryV::File { rel } => Some(
            (spec_dst(dest_root, rel), NodeV::FileN { src: src_root + "/"@ + rel }),
        ),
        TreeEntryV::Symlink { rel, target } => Some(
            (
                spec_dst(dest_root, rel),
                NodeV::LinkN { target: spec_rewrite_target(target, dest_root) },
            ),
        ),
        TreeEntryV::Other { .. } => None,
    }
}

/// The temporary path an entry leaves cleared, if any.
pub open spec fn entry_clear(e: TreeEntryV, dest_root: Seq<char>) -> Option<Seq<char>> {
    match e {
        TreeEntryV::File { rel } => Some(spec_tmp(dest_root, rel)),
        _ => None,
    }
}

/// The net effect of one entry on the model: its write, then its clearing.
pub open spec fn apply_entry(
    m: Map<Seq<char>, NodeV>,
    e: TreeEntryV,
    src_root: Seq<char>,
    dest_root: Seq<char>,
) -> Map<Seq<char>, NodeV> {
    let m1 = match entry_write(e, src_root, dest_root) {
        Some(kv) => m.insert(kv.0, kv.1),
        None => m,
    };
    match entry_clear(e, dest_root) {
        Some(t) => m1.remove(t),
        None => m1,
    }
}

/// All entries' net effects in order.
pub open spec fn apply_entries(
    m: Map<Seq<char>, NodeV>,
    es: Seq<TreeEntryV>,
    src_root: Seq<char>,
    dest_root: Seq<char>,
) -> Map<Seq<char>, NodeV>
    decreases es.len(),
{
    if es.len() == 0 {
        m
    } else {
        apply_entry(
            apply_entries(m, es.drop_last(), src_root, dest_root),
            es.last(),
            src_root,
            dest_root,
        )
    }
}

/// Applying a concatenation is applying its parts in turn.
proof fn lemma_apply_concat(m: Map<Seq<char>, NodeV>, a: Seq<FsOpV>, b: Seq<FsOpV>)
    ensures
        apply_plan(m, a + b) == apply_plan(apply_plan(m, a), b),
    decreases a.len(),
{
    if a.len() == 0 {
        assert(a + b =~= b);
    } else {
        assert((a + b)[0] == a[0]);
        assert((a + b).drop_first() =~= a.drop_first() + b);
        lemma_apply_concat(apply_op(m, a[0]), a.drop_first(), b);
    }
}

/// A temporary sibling never equals its destination.
proof fn lemma_tmp_ne_dst(dest_root: Seq<char>, rel: Seq<char>)
    ensures
        spec_tmp(dest_root, rel) != spec_dst(dest_root, rel),
{
    reveal_strlit(".partial");
    assert(spec_tmp(dest_root, rel).len() == spec_dst(dest_root, rel).len() + 8);
}

/// One entry's plan steps have exactly the entry's net effect.
proof fn lemma_entry_plan(
    m: Map<Seq<char>, NodeV>,
    e: TreeEntryV,
    src_root: Seq<char>,
    dest_root: Seq<char>,
)
    ensures
        apply_plan(m, spec_entry_plan(e, src_root, dest_root)) == apply_entry(
            m,
            e,
            src_root,
            dest_root,
        ),
{
    let plan = spec_entry_plan(e, src_root, dest_root);
    match e {
        TreeEntryV::Dir { rel } => {
            let m1 = apply_op(m, plan[0]);
            assert(plan.drop_first().len() == 0);
            assert(apply_plan(m1, plan.drop_first()) == m1);
            assert(apply_plan(m, plan) == apply_plan(m1, plan.drop_first()));
        },
        TreeEntryV::File { rel } => {
            lemma_tmp_ne_dst(dest_root, rel);
            let tmp = spec_tmp(dest_root, rel);
            let dst = spec_dst(dest_root, rel);
            let src = src_root + "/"@ + rel;
            let m1 = apply_op(m, plan[0]);
            assert(m1 == m.insert(tmp, NodeV::FileN { src }));
            assert(plan.drop_first()[0] == plan[1]);
            assert(plan.drop_first().drop_first().len() == 0);
            let m2 = apply_op(m1, plan[1]);
            assert(m1.dom().contains(tmp));
            assert(m2 == m1.insert(dst, m1[tmp]).remove(tmp));
            assert(m2 =~= m.insert(dst, NodeV::FileN { src }).remove(tmp));
            assert(apply_plan(m2, plan.drop_first().drop_first()) == m2);
            assert(apply_plan(m1, plan.drop_first()) == apply_plan(
                m2,
                plan.drop_first().drop_first(),
            ));
            assert(apply_plan(m, plan) == apply_plan(m1, plan.drop_first()));
        },
        TreeEntryV::Symlink { rel, target } => {
            let dst = spec_dst(dest_root, rel);
            let m1 = apply_op(m, plan[0]);
            assert(plan.drop_first()[0] == plan[1]);
            assert(plan.drop_first().drop_first().len() == 0);
            let m2 = apply_op(m1, plan[1]);
            assert(m2 =~= m.insert(
                dst,
                NodeV::LinkN { target: spec_rewrite_target(target, dest_root) },
            ));
            assert(apply_plan(m2, plan.drop_first().drop_first()) == m2);
            assert(apply_plan(m1, plan.drop_first()) == apply_plan(
                m2,
                plan.drop_first().drop_first(),
            ));
            assert(apply_plan(m, plan) == apply_plan(m1, plan.drop_first()));
        },
        TreeEntryV::Other { rel } => {
        },
    }
}

/// A plan grows entry by entry at its end.
proof fn lemma_plan_last(es: Seq<TreeEntryV>, src_root: Seq<char>, dest_root: Seq<char>)
    requires
        es.len() > 0,
    ensures
        spec_plan(es, src_root, dest_root) == spec_plan(es.drop_last(), src_root, dest_root)
            + spec_entry_plan(es.last(), src_root, dest_root),
    decreases es.len(),
{
    if es.len() == 1 {
        assert(es.drop_last() =~= Seq::<TreeEntryV>::empty());
        assert(es.drop_first() =~= Seq::<TreeEntryV>::empty());
        assert(spec_plan(es, src_root, dest_root) == spec_entry_plan(es[0], src_root, dest_root)
            + spec_plan(es.drop_first(), src_root, dest_root));
        assert(spec_plan(es, src_root, dest_root) =~= spec_plan(es.drop_last(), src_root, dest_root)
            + spec_entry_plan(es.last(), src_root, dest_root));
    } else {
        lemma_plan_last(es.drop_first(), src_root, dest_root);
        assert(es.drop_first().drop_last() =~= es.drop_last().drop_first());
        assert(es.drop_first().last() == es.last());
        assert(es.drop_last()[0] == es[0]);
        assert(spec_plan(es.drop_last(), src_root, dest_root) == spec_entry_plan(
            es[0],
            src_root,
            dest_root,
        ) + spec_plan(es.drop_last().drop_first(), src_root, dest_root));
        assert(spec_plan(es, src_root, dest_root) =~= spec_plan(es.drop_last(), src_root, dest_root)
            + spec_entry_plan(es.last(), src_root, dest_root));
    }
}

/// A whole plan has exactly the entries' net effects.
proof fn lemma_plan_entries(
    m: Map<Seq<char>, NodeV>,
    es: Seq<TreeEntryV>,
    src_root: Seq<char>,
    dest_root: Seq<char>,
)
    ensures
        apply_plan(m, spec_plan(es, src_root, dest_root)) == apply_entries(
            m,
            es,
            src_root,
            dest_root,
        ),
    decreases es.len(),
{
    if es.len() > 0 {
        lemma_plan_last(es, src_root, dest_root);
        lemma_apply_concat(
            m,
            spec_plan(es.drop_last(), src_root, dest_root),
            spec_entry_plan(es.last(), src_root, dest_root),
        );
        lemma_plan_entries(m, es.drop_last(), src_root, dest_root);
        lemma_entry_plan(
            apply_entries(m, es.drop_last(), src_root, dest_root),
            es.last(),
            src_root,
            dest_root,
        );
    }
}

/// The writes and clearings a tree's plan amounts to, processed in order.
pub open spec fn net_effect(es: Seq<TreeEntryV>, src_root: Seq<char>, dest_root: Seq<char>) -> (
    Map<Seq<char>, NodeV>,
    Set<Seq<char>>,
)
    decreases es.len(),
{
    if es.len() == 0 {
        (Map::empty(), Set::empty())
    } else {
        let prev = net_effect(es.drop_last(), src_root, dest_root);
        let e = es.last();
        let w1 = match entry_write(e, src_root, dest_root) {
            Some(kv) => prev.0.insert(kv.0, kv.1),
            None => prev.0,
        };
        let c1 = match entry_write(e, src_root, dest_root) {
            Some(kv) => prev.1.remove(kv.0),
            None => prev.1,
        };
        match entry_clear(e, dest_root) {
            Some(t) => (w1.remove(t), c1.insert(t)),
            None => (w1, c1),
        }
    }
}

/// A base state overridden by a plan's net effect: written paths take their
/// written node, cleared paths are gone, everything else is as it was.
pub open spec fn override_map(
    m: Map<Seq<char>, NodeV>,
    w: Map<Seq<char>, NodeV>,
    c: Set<Seq<char>>,
) -> Map<Seq<char>, NodeV> {
    Map::new(
        |k: Seq<char>| w.dom().contains(k) || (m.dom().contains(k) && !c.contains(k)),
        |k: Seq<char>|
            if w.dom().contains(k) {
                w[k]
            } else {
                m[k]
            },
    )
}

/// Applying a tree's entries is overriding the base state with the tree's
/// net effect: what lands in the destination does not depend on what stood
/// there.
proof fn lemma_entries_override(
    m: Map<Seq<char>, NodeV>,
    es: Seq<TreeEntryV>,
    src_root: Seq<char>,
    dest_root: Seq<char>,
)
    ensures
        apply_entries(m, es, src_root, dest_root) == override_map(
            m,
            net_effect(es, src_root, dest_root).0,
            net_effect(es, src_root, dest_root).1,
        ),
    decreases es.len(),
{
    if es.len() == 0 {
        assert(apply_entries(m, es, src_root, dest_root) =~= override_map(
            m,
            Map::empty(),
            Set::empty(),
        ));
    } else {
        lemma_entries_override(m, es.drop_last(), src_root, dest_root);
        let prev = net_effect(es.drop_last(), src_root, dest_root);
        let e = es.last();
        if e is File {
            lemma_tmp_ne_dst(dest_root, rel_of(e));
        }
        assert(apply_entries(m, es, src_root, dest_root) =~= override_map(
            m,
            net_effect(es, src_root, dest_root).0,
            net_effect(es, src_root, dest_root).1,
        ));
    }
}

/// Law (idempotent materialization): materializing the same mounted tree
/// twice into the same destination leaves exactly the state one
/// materialization leaves — file contents and link targets included, since
/// a model node carries them.
pub proof fn lemma_materialize_idempotent(
    m: Map<Seq<char>, NodeV>,
    es: Seq<TreeEntryV>,
    src_root: Seq<char>,
    dest_root: Seq<char>,
)
    ensures
        apply_plan(
            apply_plan(m, spec_plan(es, src_root, dest_root)),
            spec_plan(es, src_root, dest_root),
        ) == apply_plan(m, spec_plan(es, src_root, dest_root)),
{
    let once = apply_plan(m, spec_plan(es, src_root, dest_root));
    lemma_plan_entries(m, es, src_root, dest_root);
    lemma_plan_entries(once, es, src_root, dest_root);
    lemma_entries_override(m, es, src_root, dest_root);
    lemma_entries_override(once, es, src_root, dest_root);
    let w = net_effect(es, src_root, dest_root).0;
    let c = net_effect(es, src_root, dest_root).1;
    assert(override_map(override_map(m, w, c), w, c) =~= override_map(m, w, c));
}

/// Whether `s` ends with `suf`.
pub open spec fn ends_with(s: Seq<char>, suf: Seq<char>) -> bool {
    s.len() >= suf.len() && s.subrange(s.len() - suf.len(), s.len() as int) == suf
}

/// A temporary path always carries the partial marker.
proof fn lemma_tmp_is_partial(dest_root: Seq<char>, rel: Seq<char>)
    ensures
        ends_with(spec_tmp(dest_root, rel), ".partial"@),
{
    reveal_strlit(".partial");
    let tmp = spec_tmp(dest_root, rel);
    assert(tmp.subrange(tmp.len() - 8, tmp.len() as int) =~= ".partial"@);
}

/// A destination path never carries the partial marker when its relative
/// path does not.
proof fn lemma_dst_not_partial(dest_root: Seq<char>, rel: Seq<char>)
    requires
        !ends_with(rel, ".partial"@),
    ensures
        !ends_with(spec_dst(dest_root, rel), ".partial"@),
{
    reveal_strlit(".partial");
    reveal_strlit("/");
    let dst = spec_dst(dest_root, rel);
    assert(dst.len() == dest_root.len() + 1 + rel.len());
    if ends_with(dst, ".partial"@) {
        if rel.len() >= 8 {
            assert(rel.subrange(rel.len() - 8, rel.len() as int) =~= dst.subrange(
                dst.len() - 8,
                dst.len() as int,
            ));
            assert(false);
        } else {
            let sep = dest_root.len() as int;
            assert(dst[sep] == '/');
            assert(dst.subrange(dst.len() - 8, dst.len() as int)[sep - (dst.len() - 8)] == '/');
            assert(false);
        }
    }
}

/// Across a whole tree, every written path is a destination free of the
/// partial marker, and every file's temporary stays cleared.
proof fn lemma_net_partials(es: Seq<TreeEntryV>, src_root: Seq<char>, dest_root: Seq<char>)
    requires
        forall|j: int| 0 <= j < es.len() ==> !ends_with(#[trigger] rel_of(es[j]), ".partial"@),
    ensures
        forall|p: Seq<char>|
            #[trigger] net_effect(es, src_root, dest_root).0.dom().contains(p) ==> !ends_with(
                p,
                ".partial"@,
            ),
        forall|j: int|
            0 <= j < es.len() && es[j] is File ==> net_effect(es, src_root, dest_root).1.contains(
                #[trigger] spec_tmp(dest_root, rel_of(es[j])),
            ),
    decreases es.len(),
{
    if es.len() > 0 {
        assert(forall|j: int| 0 <= j < es.len() - 1 ==> es.drop_last()[j] == es[j]);
        lemma_net_partials(es.drop_last(), src_root, dest_root);
        let e = es.last();
        lemma_dst_not_partial(dest_root, rel_of(e));
        if e is File {
            lemma_tmp_is_partial(dest_root, rel_of(e));
        }
        assert forall|p: Seq<char>|
            #[trigger] net_effect(es, src_root, dest_root).0.dom().contains(p) implies !ends_with(
            p,
            ".partial"@,
        ) by {
            let prev = net_effect(es.drop_last(), src_root, dest_root);
            match entry_write(e, src_root, dest_root) {
                Some(kv) => {
                    if p != kv.0 {
                        assert(prev.0.dom().contains(p));
                    } else {
                        assert(kv.0 == spec_dst(dest_root, rel_of(e)));
                    }
                },
                None => {
                    assert(prev.0.dom().contains(p));
                },
            }
        }
        assert forall|j: int| 0 <= j < es.len() && es[j] is File implies net_effect(
            es,
            src_root,
            dest_root,
        ).1.contains(#[trigger] spec_tmp(dest_root, rel_of(es[j]))) by {
            lemma_tmp_is_partial(dest_root, rel_of(es[j]));
            if j < es.len() - 1 {
                assert(net_effect(es.drop_last(), src_root, dest_root).1.contains(
                    spec_tmp(dest_root, rel_of(es[j])),
                ));
            }
        }
    }
}

/// Law (no temporaries remain): after one materialization of a tree none of
/// whose entries is itself named with the partial marker, no temporary of
/// the plan's own files remains in the destination.
pub proof fn lemma_no_partials_remain(
    m: Map<Seq<char>, NodeV>,
    es: Seq<TreeEntryV>,
    src_root: Seq<char>,
    dest_root: Seq<char>,
)
    requires
        forall|j: int| 0 <= j < es.len() ==> !ends_with(#[trigger] rel_of(es[j]), ".partial"@),
        forall|p: Seq<char>| m.dom().contains(p) ==> !ends_with(p, ".partial"@),
    ensures
        forall|j: int|
            0 <= j < es.len() && es[j] is File ==> !apply_plan(
                m,
                spec_plan(es, src_root, dest_root),
            ).dom().contains(#[trigger] spec_tmp(dest_root, rel_of(es[j]))),
{
    lemma_plan_entries(m, es, src_root, dest_root);
    lemma_entries_override(m, es, src_root, dest_root);
    lemma_net_partials(es, src_root, dest_root);
    assert forall|j: int| 0 <= j < es.len() && es[j] is File implies !apply_plan(
        m,
        spec_plan(es, src_root, dest_root),
    ).dom().contains(#[trigger] spec_tmp(dest_root, rel_of(es[j]))) by {
        lemma_tmp_is_partial(dest_root, rel_of(es[j]));
    }
}

/// Law (symlink overwrite): when the destination of a symlink entry already
/// holds a regular file or a stale link, its plan steps replace it with the
/// fresh link, without error — the model's steps are total.
pub proof fn lemma_symlink_overwrites(
    m: Map<Seq<char>, NodeV>,
    rel: Seq<char>,
    target: Seq<char>,
    src_root: Seq<char>,
    dest_root: Seq<char>,
)
    requires
        m.dom().contains(spec_dst(dest_root, rel)),
        m[spec_dst(dest_root, rel)] matches NodeV::FileN { .. } || m[spec_dst(
            dest_root,
            rel,
        )] matches NodeV::LinkN { .. },
    ensures
        ({
            let after = apply_plan(
                m,
                spec_entry_plan(TreeEntryV::Symlink { rel, target }, src_root, dest_root),
            );
            &&& after.dom().contains(spec_dst(dest_root, rel))
            &&& after[spec_dst(dest_root, rel)] == (NodeV::LinkN {
                target: spec_rewrite_target(target, dest_root),
            })
        }),
{
    lemma_entry_plan(m, TreeEntryV::Symlink { rel, target }, src_root, dest_root);
}

} // verus!
