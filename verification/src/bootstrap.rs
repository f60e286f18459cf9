//! The staged orchestrator: the self-update stage and the install stage.
//! Both work inside a scoped ephemeral workspace; network resolution and
//! downloads run here, while the per-artifact mounting, materialization and
//! activation effect is supplied by the embedding program as a plain
//! callable, since it spawns the external mount process.

use vstd::prelude::*;

use crate::config::{Version, Config, RunMode};
use crate::hub::{Flist, HubError, Kind, Repo};
use crate::retry;
use crate::retry::{OpOutcome, RetryPolicy};
use crate::strutil;
use crate::sys;
use crate::sys::Sys;
use crate::workdir::WorkDir;

verus! {

/// The repository holding the operating-system bundles.
pub const ZOS_REPO: &'static str = "tf-zos";

/// The repository the self-update artifact comes from.
pub const BUILDER_REPO: &'static str = "tf-autobuilder";

/// The artifact that carries this program itself.
pub const BOOTSTRAP_FLIST: &'static str = "bootstrap:latest.flist";

/// Where the resolved tag descriptor is persisted for collaborators.
pub const FLIST_TAG_FILE: &'static str = "/tmp/tag.info";

/// The scratch path one stage works under.
pub const WORKDIR: &'static str = "/tmp/bootstrap";

/// Where the legacy catalog's name-to-descriptor manifest is persisted.
pub const BINS_MANIFEST_FILE: &'static str = "/tmp/bins.info";

/// The listing name the configuration selects: the run mode's channel,
/// with the light-channel suffix when that version is chosen.
pub open spec fn spec_list_name(cfg: &Config) -> Seq<char> {
    match cfg.version {
        Version::V3 => cfg.runmode.spec_name(),
        Version::V3Light => cfg.runmode.spec_name() + "-v3light"@,
    }
}

/// The listing name, exactly as [`spec_list_name`] selects it.
pub fn list_name(cfg: &Config) -> (r: String)
    ensures
        r@ == spec_list_name(cfg),
{
    let runmode = cfg.runmode.to_name();
    match cfg.version {
        Version::V3 => runmode.to_owned(),
        Version::V3Light => strutil::concat2(runmode, "-v3light"),
    }
}

/// Where the first tag-link named `name` stands in a listing, if anywhere.
pub fn find_taglink(lists: &Vec<Flist>, name: &str) -> (r: Option<usize>)
    ensures
        r matches Some(i) ==> i < lists@.len() && lists@[i as int].kind == Kind::TagLink
            && lists@[i as int]@.name == name@,
        r is None ==> forall|j: int|
            0 <= j < lists@.len() ==> !((#[trigger] lists@[j]).kind == Kind::TagLink && lists@[j]@.name
                == name@),
{
    let mut i: usize = 0;
    while i < lists.len()
        invariant
            i <= lists@.len(),
            forall|j: int|
                0 <= j < i ==> !((#[trigger] lists@[j]).kind == Kind::TagLink && lists@[j]@.name
                    == name@),
        decreases lists@.len() - i,
    {
        if matches!(lists[i].kind, Kind::TagLink) && strutil::str_eq(lists[i].name.as_str(), name) {
            return Some(i);
        }
        i = i + 1;
    }
    None
}

/// Why installing one artifact failed.
pub enum InstallError {
    /// A contract violation — the descriptor's kind forbids downloading; it
    /// aborts whatever batch it happens in, unretried.
    Violation(String),
    /// This artifact could not be installed; a batch records the message
    /// and goes on with the rest.
    Artifact(String),
}

impl InstallError {
    /// The underlying message.
    pub fn into_message(self) -> (r: String) {
        match self {
            InstallError::Violation(m) => m,
            InstallError::Artifact(m) => m,
        }
    }
}

/// Installs one artifact: downloads it under its own name in the current
/// workspace, retrying network failures without bound, then hands it to the
/// mount-materialize-activate effect. A descriptor of a kind that cannot be
/// downloaded is a violation, aborted at once and unretried; every other
/// failure is soft.
pub fn install_package<F: Fn(&Flist) -> Result<(), String>>(flist: &Flist, effect: &F) -> (r:
    Result<(), InstallError>)
    requires
        forall|p: &Flist| #[trigger] call_requires(*effect, (p,)),
    ensures
        r matches Err(e) && e is Violation <==> !(flist.kind == Kind::Regular || flist.kind
            == Kind::Symlink),
{
    let policy = RetryPolicy::network();
    let op = || -> (o: OpOutcome<()>)
        ensures
            o is Done ==> flist.kind == Kind::Regular || flist.kind == Kind::Symlink,
            o is Retryable ==> flist.kind == Kind::Regular || flist.kind == Kind::Symlink,
            o is Fatal ==> !(flist.kind == Kind::Regular || flist.kind == Kind::Symlink),
        {
            match flist.download(flist.name.as_str()) {
                Ok(()) => OpOutcome::Done(()),
                Err(HubError::Contract) => OpOutcome::Fatal(
                    HubError::Contract.message(),
                ),
                Err(e) => OpOutcome::Retryable(e.message()),
            }
        };
    match retry::execute(&policy, op) {
        Ok(()) => {},
        Err(retry::RetryError::Aborted(m)) => {
            return Err(InstallError::Violation(m));
        },
        Err(retry::RetryError::Exhausted { last, .. }) => {
            return Err(InstallError::Artifact(last));
        },
    }
    match effect(flist) {
        Ok(()) => Ok(()),
        Err(m) => Err(InstallError::Artifact(m)),
    }
}

/// What a batch leaves behind: the descriptors that installed, in order,
/// and the messages of the artifacts that were skipped.
pub struct BatchOutcome {
    pub installed: Vec<Flist>,
    pub skipped: Vec<String>,
}

/// Every installed descriptor is one of the batch's packages.
pub open spec fn from_batch(installed: Seq<Flist>, packages: Seq<Flist>) -> bool {
    forall|j: int|
        0 <= j < installed.len() ==> exists|k: int|
            0 <= k < packages.len() && (#[trigger] installed[j])@ == (#[trigger] packages[k])@
}

/// Installs every artifact of a bundle, in list order, strictly one after
/// the other. One artifact's failure is recorded and the rest are still
/// processed; only a contract violation aborts the batch.
pub fn install_packages<F: Fn(&Flist) -> Result<(), String>>(
    packages: &Vec<Flist>,
    effect: &F,
) -> (r: Result<BatchOutcome, InstallError>)
    requires
        forall|p: &Flist| #[trigger] call_requires(*effect, (p,)),
    ensures
        r matches Ok(b) ==> ({
            &&& b.installed@.len() + b.skipped@.len() == packages@.len()
            &&& from_batch(b.installed@, packages@)
            &&& forall|k: int|
                0 <= k < packages@.len() ==> (#[trigger] packages@[k]).kind == Kind::Regular
                    || packages@[k].kind == Kind::Symlink
        }),
        r matches Err(e) ==> e is Violation && exists|k: int|
            0 <= k < packages@.len() && !((#[trigger] packages@[k]).kind == Kind::Regular
                || packages@[k].kind == Kind::Symlink),
{
    let mut installed: Vec<Flist> = Vec::new();
    let mut skipped: Vec<String> = Vec::new();
    let mut i: usize = 0;
    while i < packages.len()
        invariant
            i <= packages@.len(),
            forall|p: &Flist| #[trigger] call_requires(*effect, (p,)),
            installed@.len() + skipped@.len() == i,
            from_batch(installed@, packages@),
            installed@.len() <= i,
            forall|k: int|
                0 <= k < i ==> (#[trigger] packages@[k]).kind == Kind::Regular || packages@[k].kind
                    == Kind::Symlink,
        decreases packages@.len() - i,
    {
        match install_package(&packages[i], effect) {
            Ok(()) => {
                let ghost pre = installed@;
                installed.push(packages[i].duplicate());
                proof {
                    assert(installed@.last()@ == packages@[i as int]@);
                    assert forall|j: int| 0 <= j < installed@.len() implies exists|k: int|
                        0 <= k < packages@.len() && (#[trigger] installed@[j])@ == (
                        #[trigger] packages@[k])@ by {
                        if j < pre.len() {
                            assert(installed@[j] == pre[j]);
                            assert(from_batch(pre, packages@));
                        } else {
                            assert(installed@[j]@ == packages@[i as int]@);
                        }
                    }
                    assert(from_batch(installed@, packages@));
                }
            },
            Err(InstallError::Violation(m)) => {
                return Err(InstallError::Violation(m));
            },
            Err(InstallError::Artifact(m)) => {
                skipped.push(m);
            },
        }
        i = i + 1;
    }
    Ok(BatchOutcome { installed, skipped })
}

/// The update stage: resolves the latest bootstrap artifact from the
/// builder repository, moves the running binary aside so its path is free,
/// and installs the artifact over the root filesystem — all inside a scoped
/// workspace that is restored and unmounted on every outcome.
pub fn update<F: Fn(&Flist) -> Result<(), String>>(
    sys: &mut Sys,
    cfg: &Config,
    self_path: &str,
    effect: F,
) -> (r: Result<(), String>)
    requires
        forall|p: &Flist| #[trigger] call_requires(effect, (p,)),
        !old(sys).mounted@.contains(WORKDIR@),
    ensures
        final(sys).mounted@ == old(sys).mounted@ || final(sys).mounted@ == old(
            sys,
        ).mounted@.insert(WORKDIR@),
        final(sys).cwd@ == old(sys).cwd@ || final(sys).cwd@ == WORKDIR@,
{
    let runmode = cfg.runmode;
    let body = || -> Result<(), String> { update_bootstrap(&runmode, self_path, &effect) };
    proof {
        reveal_strlit("/tmp/bootstrap");
    }
    match WorkDir::run(sys, WORKDIR, body) {
        Ok(inner) => inner,
        Err(e) => Err(e),
    }
}

/// Finds the latest bootstrap artifact, retrying its resolution without
/// bound, renames the running binary aside, and installs the artifact.
fn update_bootstrap<F: Fn(&Flist) -> Result<(), String>>(
    runmode: &crate::config::RunMode,
    self_path: &str,
    effect: &F,
) -> (r: Result<(), String>)
    requires
        forall|p: &Flist| #[trigger] call_requires(*effect, (p,)),
{
    let repo = Repo::new(BUILDER_REPO, runmode);
    let policy = RetryPolicy::network();
    let op = || -> OpOutcome<Flist>
        {
            match repo.get(BOOTSTRAP_FLIST) {
                Ok(f) => OpOutcome::Done(f),
                Err(e) => OpOutcome::Retryable(e.message()),
            }
        };
    let flist = match retry::execute(&policy, op) {
        Ok(f) => f,
        Err(retry::RetryError::Aborted(m)) => {
            return Err(m);
        },
        Err(retry::RetryError::Exhausted { last, .. }) => {
            return Err(last);
        },
    };
    let aside = strutil::concat2(self_path, ".bak");
    match sys::sys_rename(self_path, aside.as_str()) {
        Ok(()) => {},
        Err(e) => {
            return Err(e);
        },
    }
    match install_package(&flist, effect) {
        Ok(()) => Ok(()),
        Err(e) => Err(e.into_message()),
    }
}

/// The per-runmode binaries repository of the legacy catalog.
pub fn bins_repo_name(runmode: &RunMode) -> (r: String)
    ensures
        *runmode == RunMode::Prod ==> r@ == "tf-zos-bins"@,
        *runmode != RunMode::Prod ==> r@ == "tf-zos-bins."@ + runmode.spec_name(),
{
    match runmode {
        RunMode::Prod => "tf-zos-bins".to_owned(),
        _ => strutil::concat2("tf-zos-bins.", runmode.to_name()),
    }
}

/// The single core operating-system artifact the legacy catalog installs
/// for a configuration.
pub fn core_artifact_name(cfg: &Config) -> (r: String)
    ensures
        r@ == "zos:"@ + spec_list_name(cfg) + ".flist"@,
{
    let ln = list_name(cfg);
    strutil::concat3("zos:", ln.as_str(), ".flist")
}

/// The install stage: lists the bundle repository and resolves the
/// tag-link the configuration names. With one, the new-style catalog
/// applies: the tag's descriptor is persisted, the link resolved, and every
/// artifact the tag lists installed in order. Without one, the legacy
/// catalog applies. Either way the work runs inside a scoped workspace, and
/// on success the messages of artifacts skipped under the batch tolerance
/// are returned for the program to report.
pub fn install<F: Fn(&Flist) -> Result<(), String>>(sys: &mut Sys, cfg: &Config, effect: F) -> (r:
    Result<Vec<String>, String>)
    requires
        forall|p: &Flist| #[trigger] call_requires(effect, (p,)),
        !old(sys).mounted@.contains(WORKDIR@),
    ensures
        final(sys).mounted@ == old(sys).mounted@ || final(sys).mounted@ == old(
            sys,
        ).mounted@.insert(WORKDIR@),
        final(sys).cwd@ == old(sys).cwd@ || final(sys).cwd@ == WORKDIR@,
{
    let repo = Repo::new(ZOS_REPO, &cfg.runmode);
    let listname = list_name(cfg);
    let lists = match repo.list() {
        Ok(lists) => lists,
        Err(e) => {
            return Err(e.message());
        },
    };
    let cfg2 = *cfg;
    proof {
        reveal_strlit("/tmp/bootstrap");
    }
    match find_taglink(&lists, listname.as_str()) {
        Some(ix) => {
            let tag = lists[ix].duplicate();
            let body = || -> Result<Vec<String>, String> { install_tag(&cfg2.runmode, tag, &effect)
            };
            match WorkDir::run(sys, WORKDIR, body) {
                Ok(inner) => inner,
                Err(e) => Err(e),
            }
        },
        None => {
            let body = || -> Result<Vec<String>, String> { legacy_install(&cfg2, &effect) };
            match WorkDir::run(sys, WORKDIR, body) {
                Ok(inner) => inner,
                Err(e) => Err(e),
            }
        },
    }
}

/// Inside the workspace, the new-style catalog: persists the tag
/// descriptor, resolves the tag-link, lists the tag, and installs
/// everything it names under the batch tolerance.
fn install_tag<F: Fn(&Flist) -> Result<(), String>>(
    runmode: &RunMode,
    tag: Flist,
    effect: &F,
) -> (r: Result<Vec<String>, String>)
    requires
        forall|p: &Flist| #[trigger] call_requires(*effect, (p,)),
{
    match tag.write(FLIST_TAG_FILE) {
        Ok(()) => {},
        Err(e) => {
            return Err(e.message());
        },
    }
    let (linked_repo, linked_tag) = match tag.tag_link() {
        Ok(p) => p,
        Err(e) => {
            return Err(e.message());
        },
    };
    let client = Repo::new(linked_repo.as_str(), runmode);
    let packages = match client.list_tag(linked_tag.as_str()) {
        Ok(Some(packages)) => packages,
        Ok(None) => {
            return Err("tag is not found".to_owned());
        },
        Err(e) => {
            return Err(e.message());
        },
    };
    match install_packages(&packages, effect) {
        Ok(batch) => Ok(batch.skipped),
        Err(e) => Err(e.into_message()),
    }
}

/// Inside the workspace, the legacy catalog: installs every artifact of the
/// per-runmode binaries repository, tolerating individual failures,
/// persists the installed descriptors as the name-to-descriptor manifest,
/// and installs the single core artifact the configuration names. Only the
/// batch's own artifacts are tolerated; anything else is fatal.
fn legacy_install<F: Fn(&Flist) -> Result<(), String>>(cfg: &Config, effect: &F) -> (r: Result<
    Vec<String>,
    String,
>)
    requires
        forall|p: &Flist| #[trigger] call_requires(*effect, (p,)),
{
    let bins_name = bins_repo_name(&cfg.runmode);
    let bins = Repo::new(bins_name.as_str(), &cfg.runmode);
    let artifacts = match bins.list() {
        Ok(a) => a,
        Err(e) => {
            return Err(e.message());
        },
    };
    let batch = match install_packages(&artifacts, effect) {
        Ok(b) => b,
        Err(e) => {
            return Err(e.into_message());
        },
    };
    let manifest = crate::hub::manifest_json(&batch.installed);
    match crate::sys::write_file(BINS_MANIFEST_FILE, manifest.as_str().as_bytes()) {
        Ok(()) => {},
        Err(e) => {
            return Err(e);
        },
    }
    let core_name = core_artifact_name(cfg);
    let zos = Repo::new(ZOS_REPO, &cfg.runmode);
    let core = match zos.get(core_name.as_str()) {
        Ok(c) => c,
        Err(e) => {
            return Err(e.message());
        },
    };
    match install_package(&core, effect) {
        Ok(()) => Ok(batch.skipped),
        Err(e) => Err(e.into_message()),
    }
}

} // verus!
