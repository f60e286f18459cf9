//! The repository client: artifact descriptors, mirror discovery and
//! failover, tag and artifact resolution, download URL computation, and
//! descriptor persistence.

use vstd::prelude::*;

use crate::config::RunMode;
use crate::json;
use crate::json::{FieldVal, FieldValV, Scalar, ScalarV};
use crate::retry;
use crate::retry::{OpOutcome, RetryPolicy};
use crate::strutil;
use crate::sys;

verus! {

/// One answer from the network: a status code and the full body.
pub struct HttpBody {
    pub status: u16,
    pub body: Vec<u8>,
}

/// The kind of an artifact descriptor.
#[derive(Clone, Copy, Debug, PartialEq, Eq, Structural)]
pub enum Kind {
    Regular,
    Symlink,
    Tag,
    TagLink,
}

/// An artifact descriptor: a named, versioned handle to a filesystem image
/// served by the repository. `url` is populated only by repository
/// resolution, never by the caller.
#[derive(Clone, Debug)]
pub struct Flist {
    pub kind: Kind,
    pub updated: u64,
    pub md5: String,
    pub name: String,
    pub target: Option<String>,
    pub url: String,
}

/// The mathematical image of a descriptor.
pub struct FlistV {
    pub kind: Kind,
    pub updated: u64,
    pub md5: Seq<char>,
    pub name: Seq<char>,
    pub target: Option<Seq<char>>,
    pub url: Seq<char>,
}

impl View for Flist {
    type V = FlistV;

    open spec fn view(&self) -> FlistV {
        FlistV {
            kind: self.kind,
            updated: self.updated,
            md5: self.md5@,
            name: self.name@,
            target: match self.target {
                Some(t) => Some(t@),
                None => None,
            },
            url: self.url@,
        }
    }
}

/// How a repository operation fails.
#[derive(Clone, Debug)]
pub enum HubError {
    /// The transport failed before any answer arrived.
    Net(String),
    /// The server answered with this unexpected status.
    Status(u16),
    /// The body was not a document of the expected shape.
    Decode,
    /// The operation was applied to a descriptor whose kind or target
    /// forbids it.
    Contract,
}

impl HubError {
    /// A plain rendering for callers that report errors.
    pub fn message(&self) -> String {
        match self {
            HubError::Net(m) => strutil::concat2("network failure: ", m.as_str()),
            HubError::Status(s) => {
                let d = strutil::u64_to_string(*s as u64);
                strutil::concat2("unexpected response status: ", d.as_str())
            },
            HubError::Decode => "malformed response body".to_owned(),
            HubError::Contract => "operation not legal for this descriptor kind".to_owned(),
        }
    }
}

/// The kind a type field names.
pub open spec fn kind_of(s: Seq<char>) -> Option<Kind> {
    if s == "regular"@ {
        Some(Kind::Regular)
    } else if s == "symlink"@ {
        Some(Kind::Symlink)
    } else if s == "tag"@ {
        Some(Kind::Tag)
    } else if s == "taglink"@ {
        Some(Kind::TagLink)
    } else {
        None
    }
}

fn kind_from_str(s: &str) -> (r: Option<Kind>)
    ensures
        r == kind_of(s@),
{
    if strutil::str_eq(s, "regular") {
        Some(Kind::Regular)
    } else if strutil::str_eq(s, "symlink") {
        Some(Kind::Symlink)
    } else if strutil::str_eq(s, "tag") {
        Some(Kind::Tag)
    } else if strutil::str_eq(s, "taglink") {
        Some(Kind::TagLink)
    } else {
        None
    }
}

/// The descriptor an object of scalar fields describes: `type` must name a
/// kind, `updated` must be a number, `name` a string; `md5` defaults to
/// empty, `target` to absent (a JSON null also counts as absent). The URL
/// is left empty for resolution to fill.
pub open spec fn spec_flist_of(fs: Seq<(Seq<char>, ScalarV)>) -> Option<FlistV> {
    match json::spec_lookup(fs, "type"@) {
        Some(ScalarV::Str(ks)) => match kind_of(ks) {
            Some(kind) => match json::spec_lookup(fs, "updated"@) {
                Some(ScalarV::UInt(updated)) => {
                    let md5 = match json::spec_lookup(fs, "md5"@) {
                        Some(ScalarV::Str(m)) => Some(m),
                        None => Some(Seq::<char>::empty()),
                        _ => None,
                    };
                    match md5 {
                        Some(md5) => match json::spec_lookup(fs, "name"@) {
                            Some(ScalarV::Str(name)) => {
                                let target = match json::spec_lookup(fs, "target"@) {
                                    Some(ScalarV::Str(t)) => Some(Some(t)),
                                    Some(ScalarV::Null) => Some(Option::<Seq<char>>::None),
                                    None => Some(Option::<Seq<char>>::None),
                                    _ => None,
                                };
                                match target {
                                    Some(target) => Some(
                                        FlistV {
                                            kind,
                                            updated,
                                            md5,
                                            name,
                                            target,
                                            url: Seq::empty(),
                                        },
                                    ),
                                    None => None,
                                }
                            },
                            _ => None,
                        },
                        None => None,
                    }
                },
                _ => None,
            },
            None => None,
        },
        _ => None,
    }
}

/// Builds the descriptor an object of scalar fields describes, exactly as
/// [`spec_flist_of`] reads it.
pub fn flist_from_fields(fs: &Vec<(String, Scalar)>) -> (r: Result<Flist, HubError>)
    ensures
        r matches Ok(f) ==> spec_flist_of(json::fields_view(fs@)) == Some(f@),
        r is Err ==> spec_flist_of(json::fields_view(fs@)) is None && r matches Err(
            HubError::Decode,
        ),
{
    let kind: Kind = match json::lookup_idx(fs, "type") {
        Some(ix) => match &fs[ix].1 {
            Scalar::Str(s) => match kind_from_str(s.as_str()) {
                Some(k) => k,
                None => {
                    return Err(HubError::Decode);
                },
            },
            _ => {
                return Err(HubError::Decode);
            },
        },
        None => {
            return Err(HubError::Decode);
        },
    };
    let updated: u64 = match json::lookup_idx(fs, "updated") {
        Some(ix) => match &fs[ix].1 {
            Scalar::UInt(n) => *n,
            _ => {
                return Err(HubError::Decode);
            },
        },
        None => {
            return Err(HubError::Decode);
        },
    };
    let md5: String = match json::lookup_idx(fs, "md5") {
        Some(ix) => match &fs[ix].1 {
            Scalar::Str(s) => s.clone(),
            _ => {
                return Err(HubError::Decode);
            },
        },
        None => String::new(),
    };
    let name: String = match json::lookup_idx(fs, "name") {
        Some(ix) => match &fs[ix].1 {
            Scalar::Str(s) => s.clone(),
            _ => {
                return Err(HubError::Decode);
            },
        },
        None => {
            return Err(HubError::Decode);
        },
    };
    let target: Option<String> = match json::lookup_idx(fs, "target") {
        Some(ix) => match &fs[ix].1 {
            Scalar::Str(s) => Some(s.clone()),
            Scalar::Null => None,
            _ => {
                return Err(HubError::Decode);
            },
        },
        None => None,
    };
    Ok(Flist { kind, updated, md5, name, target, url: String::new() })
}

/// The download URL of artifact `name` in repository `repo` on `mirror`.
pub open spec fn spec_resolved_url(mirror: Seq<char>, repo: Seq<char>, name: Seq<char>) -> Seq<
    char,
> {
    mirror + "/"@ + repo + "/"@ + name
}

/// Builds `mirror/repo/name`, the one form every resolved URL takes.
pub fn resolved_url(mirror: &str, repo: &str, name: &str) -> (r: String)
    ensures
        r@ == spec_resolved_url(mirror@, repo@, name@),
{
    strutil::concat5(mirror, "/", repo, "/", name)
}

/// The shape a tag-link target must have: a repository name, the fixed
/// `tags` segment, and a tag name, each nonempty and free of separators.
pub open spec fn taglink_shape(t: Seq<char>, repo: Seq<char>, tag: Seq<char>) -> bool {
    &&& t == repo + "/tags/"@ + tag
    &&& repo.len() > 0
    &&& !repo.contains('/')
    &&& tag.len() > 0
    &&& !tag.contains('/')
}

/// In a well-shaped tag-link target the separators stand exactly where the
/// repository and tag names leave them.
proof fn lemma_taglink_positions(t: Seq<char>, repo: Seq<char>, tag: Seq<char>)
    requires
        taglink_shape(t, repo, tag),
    ensures
        strutil::spec_find(t, '/', 0) == Some(repo.len() as int),
        t.subrange(0, repo.len() as int) == repo,
        ({
            let rest = t.subrange(repo.len() + 1 as int, t.len() as int);
            &&& strutil::spec_find(rest, '/', 0) == Some(4int)
            &&& rest.subrange(0, 4) == "tags"@
            &&& rest.subrange(5, rest.len() as int) == tag
            &&& strutil::spec_find(rest.subrange(5, rest.len() as int), '/', 0) is None
        }),
{
    reveal_strlit("/tags/");
    reveal_strlit("tags");
    assert(t.len() == repo.len() + 6 + tag.len());
    assert(t[repo.len() as int] == '/');
    assert(forall|j: int| 0 <= j < repo.len() ==> t[j] == repo[j] && t[j] != '/');
    strutil::lemma_find_bounds(t, '/', 0);
    if strutil::spec_find(t, '/', 0) is None {
        assert(false);
    }
    let i = strutil::spec_find(t, '/', 0)->0;
    assert(i == repo.len());
    assert(t.subrange(0, repo.len() as int) =~= repo);
    let rest = t.subrange(repo.len() + 1 as int, t.len() as int);
    assert(rest.len() == 5 + tag.len());
    assert(rest[0] == 't' && rest[1] == 'a' && rest[2] == 'g' && rest[3] == 's' && rest[4] == '/');
    assert(rest.subrange(0, 4) =~= "tags"@);
    assert(forall|j: int| 0 <= j < tag.len() ==> rest[5 + j] == tag[j]);
    assert(rest.subrange(5, rest.len() as int) =~= tag);
    strutil::lemma_find_bounds(rest, '/', 0);
    if strutil::spec_find(rest, '/', 0) is None {
        assert(false);
    }
    let k = strutil::spec_find(rest, '/', 0)->0;
    assert(!tag.contains('/'));
    assert(forall|j: int| 0 <= j < tag.len() ==> #[trigger] tag[j] != '/');
    assert(k == 4);
    let after = rest.subrange(5, rest.len() as int);
    strutil::lemma_find_bounds(after, '/', 0);
    if strutil::spec_find(after, '/', 0) is Some {
        let w = strutil::spec_find(after, '/', 0)->0;
        assert(after[w] == '/');
        assert(false);
    }
}

impl Flist {
    /// A copy equal in view.
    pub fn duplicate(&self) -> (r: Flist)
        ensures
            r@ == self@,
    {
        Flist {
            kind: self.kind,
            updated: self.updated,
            md5: self.md5.clone(),
            name: self.name.clone(),
            target: match &self.target {
                Some(t) => Some(t.clone()),
                None => None,
            },
            url: self.url.clone(),
        }
    }

    /// The target repository and tag name of a tag-link descriptor. Legal
    /// only for the tag-link kind, and succeeds exactly when the target has
    /// the three-segment `repository/tags/name` shape; any other state of
    /// the descriptor is a contract violation, reported as an error.
    pub fn tag_link(self) -> (r: Result<(String, String), HubError>)
        ensures
            r matches Ok(p) ==> ({
                &&& self.kind == Kind::TagLink
                &&& self@.target matches Some(t) && taglink_shape(t, p.0@, p.1@)
            }),
            r is Err ==> !({
                &&& self.kind == Kind::TagLink
                &&& self@.target matches Some(t) && exists|repo: Seq<char>, tag: Seq<char>|
                    taglink_shape(t, repo, tag)
            }),
    {
        if !matches!(self.kind, Kind::TagLink) {
            return Err(HubError::Contract);
        }
        let t: String = match self.target {
            Some(t) => t,
            None => {
                return Err(HubError::Contract);
            },
        };
        proof {
            strutil::lemma_find_bounds(t@, '/', 0);
        }
        let (repo, rest) = strutil::split_once_char(t.as_str(), '/');
        let rest: String = match rest {
            Some(rest) => rest,
            None => {
                proof {
                    if exists|rp: Seq<char>, tg: Seq<char>| taglink_shape(t@, rp, tg) {
                        let (rp, tg) = choose|rp: Seq<char>, tg: Seq<char>|
                            taglink_shape(t@, rp, tg);
                        lemma_taglink_positions(t@, rp, tg);
                    }
                }
                return Err(HubError::Contract);
            },
        };
        if repo.as_str().unicode_len() == 0 {
            proof {
                if exists|rp: Seq<char>, tg: Seq<char>| taglink_shape(t@, rp, tg) {
                    let (rp, tg) = choose|rp: Seq<char>, tg: Seq<char>| taglink_shape(t@, rp, tg);
                    lemma_taglink_positions(t@, rp, tg);
                }
            }
            return Err(HubError::Contract);
        }
        proof {
            strutil::lemma_find_bounds(rest@, '/', 0);
        }
        let (mid, tagpart) = strutil::split_once_char(rest.as_str(), '/');
        let tag: String = match tagpart {
            Some(tag) => tag,
            None => {
                proof {
                    if exists|rp: Seq<char>, tg: Seq<char>| taglink_shape(t@, rp, tg) {
                        let (rp, tg) = choose|rp: Seq<char>, tg: Seq<char>|
                            taglink_shape(t@, rp, tg);
                        lemma_taglink_positions(t@, rp, tg);
                    }
                }
                return Err(HubError::Contract);
            },
        };
        if !strutil::str_eq(mid.as_str(), "tags") || tag.as_str().unicode_len() == 0 {
            proof {
                if exists|rp: Seq<char>, tg: Seq<char>| taglink_shape(t@, rp, tg) {
                    let (rp, tg) = choose|rp: Seq<char>, tg: Seq<char>| taglink_shape(t@, rp, tg);
                    lemma_taglink_positions(t@, rp, tg);
                }
            }
            return Err(HubError::Contract);
        }
        proof {
            strutil::lemma_find_bounds(tag@, '/', 0);
        }
        match strutil::find_char(tag.as_str(), '/') {
            Some(_) => {
                proof {
                    if exists|rp: Seq<char>, tg: Seq<char>| taglink_shape(t@, rp, tg) {
                        let (rp, tg) = choose|rp: Seq<char>, tg: Seq<char>|
                            taglink_shape(t@, rp, tg);
                        lemma_taglink_positions(t@, rp, tg);
                    }
                }
                Err(HubError::Contract)
            },
            None => {
                proof {
                    reveal_strlit("/tags/");
                    reveal_strlit("tags");
                    let i = strutil::spec_find(t@, '/', 0)->0;
                    let k = strutil::spec_find(rest@, '/', 0)->0;
                    assert(mid@ == "tags"@);
                    assert(k == mid@.len());
                    assert(k == 4);
                    assert(t@[i] == '/');
                    assert(rest@[4] == '/');
                    assert(("/tags/"@).len() == 6);
                    assert(i == repo@.len());
                    assert(t@.len() == i + 1 + rest@.len());
                    assert(rest@.len() == 5 + tag@.len());
                    assert(t@.len() == repo@.len() + 6 + tag@.len());
                    assert(("/tags/"@)[0] == '/' && ("/tags/"@)[1] == 't' && ("/tags/"@)[2] == 'a'
                        && ("/tags/"@)[3] == 'g' && ("/tags/"@)[4] == 's' && ("/tags/"@)[5] == '/');
                    assert(forall|j: int| 0 <= j < repo@.len() ==> #[trigger] t@[j] == repo@[j]);
                    assert forall|j: int| i < j < t@.len() implies #[trigger] t@[j] == rest@[j - i
                        - 1] by {
                        assert(rest@[j - i - 1] == t@[j]);
                    }
                    assert forall|j: int| 0 <= j < 4 implies #[trigger] rest@[j] == ("tags"@)[j] by {
                        assert(mid@[j] == rest@[j]);
                    }
                    assert forall|j: int| 5 <= j < rest@.len() implies #[trigger] rest@[j] == tag@[j
                        - 5] by {
                        assert(tag@[j - 5] == rest@[j]);
                    }
                    assert(t@ =~= repo@ + "/tags/"@ + tag@);
                    assert(forall|j: int| 0 <= j < repo@.len() ==> #[trigger] repo@[j] != '/');
                    assert(!repo@.contains('/'));
                    assert(forall|j: int| 0 <= j < tag@.len() ==> #[trigger] tag@[j] != '/');
                    assert(!tag@.contains('/'));
                }
                Ok((repo, tag))
            },
        }
    }
}

/// Relies on reqwest::blocking::get: one GET of `url`, yielding whatever
/// status and body the network and the server gave. A body fits an
/// allocation, so its length stays under the address-space bound.
#[verifier::external_body]
fn http_get(url: &str) -> (r: Result<HttpBody, String>)
    ensures
        r matches Ok(h) ==> h.body@.len() < usize::MAX,
{
    match reqwest::blocking::get(url) {
        Ok(resp) => {
            let status = resp.status().as_u16();
            match resp.bytes() {
                Ok(b) => Ok(HttpBody { status, body: b.to_vec() }),
                Err(e) => Err(e.to_string()),
            }
        },
        Err(e) => Err(e.to_string()),
    }
}

/// The host part of URL text, a function of the text alone.
pub uninterp spec fn url_host(s: Seq<char>) -> Option<Seq<char>>;

/// Relies on url::Url::parse and url::Url::host_str for the host part of a
/// URL.
#[verifier::external_body]
fn host_of(s: &str) -> (r: Option<String>)
    ensures
        r matches Some(h) ==> url_host(s@) == Some(h@),
        r is None ==> url_host(s@) is None,
{
    match url::Url::parse(s) {
        Ok(u) => u.host_str().map(|h| h.to_string()),
        Err(_) => None,
    }
}

/// The one mirror used when discovery fails.
pub fn default_mirror() -> (r: String)
    ensures
        r@ == "https://hub.grid.tf"@,
{
    "https://hub.grid.tf".to_owned()
}

/// The mirror base URLs the discovery entries yield: each entry with a
/// recognizable host contributes `https://` plus that host.
pub open spec fn spec_hosts(urls: Seq<Seq<char>>) -> Seq<Seq<char>>
    decreases urls.len(),
{
    if urls.len() == 0 {
        Seq::empty()
    } else {
        let rest = spec_hosts(urls.drop_first());
        match url_host(urls[0]) {
            Some(h) => seq!["https://"@ + h] + rest,
            None => rest,
        }
    }
}

/// The mirror list a discovery outcome yields: the manifest's hosts when it
/// arrived, decoded, and named at least one usable URL; the single default
/// mirror in every other case — discovery failure is never fatal.
pub open spec fn spec_mirrors(doc: Option<Seq<(Seq<char>, FieldValV)>>) -> Seq<Seq<char>> {
    match doc {
        None => seq!["https://hub.grid.tf"@],
        Some(fields) => match json::spec_doc_lookup(fields, "flist_url"@) {
            Some(FieldValV::Strs(urls)) => {
                let hosts = spec_hosts(urls);
                if hosts.len() == 0 {
                    seq!["https://hub.grid.tf"@]
                } else {
                    hosts
                }
            },
            _ => seq!["https://hub.grid.tf"@],
        },
    }
}

/// Turns a discovery outcome into the mirror list, exactly as
/// [`spec_mirrors`] reads it; `None` stands for any fetch or decode
/// failure and falls back to the single default mirror.
pub fn mirrors_from_doc(doc: Option<&Vec<(String, FieldVal)>>) -> (r: Vec<String>)
    ensures
        r.deep_view() == spec_mirrors(
            match doc {
                Some(d) => Some(json::doc_view(d@)),
                None => None,
            },
        ),
        r@.len() > 0,
{
    let fields = match doc {
        Some(d) => d,
        None => {
            let mut out: Vec<String> = Vec::new();
            out.push(default_mirror());
            proof {
                assert(out.deep_view() =~= seq!["https://hub.grid.tf"@]);
            }
            return out;
        },
    };
    let urls: &Vec<String> = match json::doc_lookup_idx(fields, "flist_url") {
        Some(ix) => match &fields[ix].1 {
            FieldVal::Strs(urls) => {
                proof {
                    assert(urls.deep_view() =~= urls@.map_values(|x: String| x@));
                }
                urls
            },
            _ => {
                let mut out: Vec<String> = Vec::new();
                out.push(default_mirror());
                proof {
                    assert(out.deep_view() =~= seq!["https://hub.grid.tf"@]);
                }
                return out;
            },
        },
        None => {
            let mut out: Vec<String> = Vec::new();
            out.push(default_mirror());
            proof {
                assert(out.deep_view() =~= seq!["https://hub.grid.tf"@]);
            }
            return out;
        },
    };
    let mut hosts: Vec<String> = Vec::new();
    let mut i: usize = 0;
    proof {
        assert(urls.deep_view().skip(0) =~= urls.deep_view());
        assert(hosts.deep_view() =~= Seq::<Seq<char>>::empty());
    }
    while i < urls.len()
        invariant
            i <= urls@.len(),
            spec_hosts(urls.deep_view()) == hosts.deep_view() + spec_hosts(
                urls.deep_view().skip(i as int),
            ),
        decreases urls@.len() - i,
    {
        let ghost pre = hosts.deep_view();
        proof {
            assert(urls.deep_view().skip(i as int)[0] == urls.deep_view()[i as int]);
            assert(urls.deep_view().skip(i as int).drop_first() =~= urls.deep_view().skip(i + 1));
            assert(urls.deep_view()[i as int] == urls@[i as int]@);
        }
        match host_of(urls[i].as_str()) {
            Some(h) => {
                hosts.push(strutil::concat2("https://", h.as_str()));
                proof {
                    assert(hosts.deep_view() =~= pre.push("https://"@ + h@));
                    assert(pre + (seq!["https://"@ + h@] + spec_hosts(
                        urls.deep_view().skip(i + 1),
                    )) =~= hosts.deep_view() + spec_hosts(urls.deep_view().skip(i + 1)));
                }
            },
            None => {},
        }
        i = i + 1;
    }
    proof {
        assert(urls.deep_view().skip(urls@.len() as int) =~= Seq::<Seq<char>>::empty());
        assert(hosts.deep_view() + Seq::<Seq<char>>::empty() =~= hosts.deep_view());
    }
    if hosts.len() == 0 {
        let mut out: Vec<String> = Vec::new();
        out.push(default_mirror());
        proof {
            assert(out.deep_view() =~= seq!["https://hub.grid.tf"@]);
            assert(hosts.deep_view().len() == 0);
        }
        return out;
    }
    proof {
        assert(hosts.deep_view().len() == hosts@.len());
    }
    hosts
}

/// Fetches the per-runmode discovery manifest, a few attempts only, and
/// yields the mirror list; on any failure — network or decode — the single
/// default mirror, so discovery is never fatal to the caller.
pub fn get_hub_url(runmode: &RunMode) -> (r: Vec<String>)
    ensures
        r@.len() > 0,
{
    let file = runmode.config_name();
    let url = strutil::concat2("https://github.com/threefoldtech/zos-config/raw/main/", file);
    let policy = RetryPolicy::discovery();
    let op = || -> (o: OpOutcome<HttpBody>)
        ensures
            o matches OpOutcome::Done(h) ==> h.body@.len() < usize::MAX,
        {
            match http_get(url.as_str()) {
                Ok(h) => {
                    if 200 <= h.status && h.status < 300 {
                        OpOutcome::Done(h)
                    } else {
                        OpOutcome::Retryable("discovery status".to_owned())
                    }
                },
                Err(e) => OpOutcome::Retryable(e),
            }
        };
    match retry::execute(&policy, op) {
        Ok(h) => match json::doc_object(h.body.as_slice()) {
            Some(fields) => mirrors_from_doc(Some(&fields)),
            None => mirrors_from_doc(None),
        },
        Err(_) => mirrors_from_doc(None),
    }
}

/// The first index whose probe answered true.
pub open spec fn spec_first_healthy(probes: Seq<bool>) -> Option<int>
    decreases probes.len(),
{
    if probes.len() == 0 {
        None
    } else if probes[0] {
        Some(0int)
    } else {
        match spec_first_healthy(probes.drop_first()) {
            Some(i) => Some(i + 1),
            None => None,
        }
    }
}

/// A found index is in range, answered true, and is the first such; when
/// none is found, every probe answered false.
proof fn lemma_first_healthy(ps: Seq<bool>)
    ensures
        spec_first_healthy(ps) matches Some(i) ==> 0 <= i < ps.len() && ps[i] && (forall|j: int|
            0 <= j < i ==> !ps[j]),
        spec_first_healthy(ps) is None ==> forall|j: int| 0 <= j < ps.len() ==> !ps[j],
    decreases ps.len(),
{
    if ps.len() > 0 && !ps[0] {
        lemma_first_healthy(ps.drop_first());
        assert(forall|j: int| 0 < j < ps.len() ==> ps[j] == ps.drop_first()[j - 1]);
    }
}

/// The mirror the probe outcomes select: the first whose health probe
/// answered, else the first of the list — best effort, never a failure.
pub fn select_mirror(hub: &Vec<String>, healthy: &Vec<bool>) -> (r: String)
    requires
        hub@.len() > 0,
        healthy@.len() == hub@.len(),
    ensures
        match spec_first_healthy(healthy@) {
            Some(i) => r@ == hub@[i]@,
            None => r@ == hub@[0]@,
        },
        from_mirror(hub@, r@),
{
    proof {
        lemma_first_healthy(healthy@);
    }
    let mut i: usize = 0;
    while i < healthy.len()
        invariant
            i <= healthy@.len(),
            healthy@.len() == hub@.len(),
            hub@.len() > 0,
            forall|j: int| 0 <= j < i ==> !healthy@[j],
            spec_first_healthy(healthy@) matches Some(w) ==> 0 <= w < healthy@.len()
                && healthy@[w] && (forall|j: int| 0 <= j < w ==> !healthy@[j]),
            spec_first_healthy(healthy@) is None ==> forall|j: int|
                0 <= j < healthy@.len() ==> !healthy@[j],
        decreases healthy@.len() - i,
    {
        if healthy[i] {
            proof {
                if spec_first_healthy(healthy@) is None {
                    assert(false);
                }
            }
            let out = hub[i].clone();
            proof {
                assert(out@ == hub@[i as int]@);
                assert(from_mirror(hub@, out@));
            }
            return out;
        }
        i = i + 1;
    }
    proof {
        if spec_first_healthy(healthy@) is Some {
            assert(false);
        }
    }
    let out = hub[0].clone();
    proof {
        assert(out@ == hub@[0]@);
        assert(from_mirror(hub@, out@));
    }
    out
}

/// One named repository, reached through an ordered list of mirrors
/// discovered once per run.
pub struct Repo {
    pub name: String,
    pub hub: Vec<String>,
}

impl Repo {
    /// A repository always has at least one mirror to try.
    pub open spec fn wf(&self) -> bool {
        self.hub@.len() > 0
    }

    /// Builds the client for repository `name`: discovers the mirror list
    /// for this run, falling back to the default mirror.
    pub fn new(name: &str, runmode: &RunMode) -> (r: Repo)
        ensures
            r.wf(),
            r.name@ == name@,
    {
        let hub = get_hub_url(runmode);
        Repo { name: name.to_owned(), hub }
    }

    /// Whether one mirror answers its health endpoint successfully.
    fn is_hub_working(&self, hub_url: &str) -> bool {
        let health = strutil::concat2(hub_url, "/api/flist");
        match http_get(health.as_str()) {
            Ok(h) => 200 <= h.status && h.status < 300,
            Err(_) => false,
        }
    }

    /// The mirror this run works against: each candidate's health endpoint
    /// is probed in list order and the outcomes select the first that
    /// answered, else the first of the list — best effort, never a failure,
    /// exactly as [`select_mirror`] reads the probes.
    pub fn get_working_hub(&self) -> (r: String)
        requires
            self.wf(),
        ensures
            from_mirror(self.hub@, r@),
    {
        let mut healthy: Vec<bool> = Vec::new();
        let mut i: usize = 0;
        while i < self.hub.len()
            invariant
                healthy@.len() == i,
                i <= self.hub@.len(),
            decreases self.hub@.len() - i,
        {
            healthy.push(self.is_hub_working(self.hub[i].as_str()));
            i = i + 1;
        }
        select_mirror(&self.hub, &healthy)
    }
}

/// Whether `m` is one of this run's mirrors.
pub open spec fn from_mirror(hub: Seq<String>, m: Seq<char>) -> bool {
    exists|k: int| 0 <= k < hub.len() && m == #[trigger] hub[k]@
}

/// A descriptor with its URL resolved.
pub open spec fn with_url(f: FlistV, url: Seq<char>) -> FlistV {
    FlistV { url, ..f }
}

/// The descriptors a listing's objects describe, each with its URL resolved
/// to `mirror/repo/name`; `None` when any object is no descriptor.
pub open spec fn spec_flists_of_doc(
    items: Seq<Seq<(Seq<char>, ScalarV)>>,
    mirror: Seq<char>,
    repo: Seq<char>,
) -> Option<Seq<FlistV>>
    decreases items.len(),
{
    if items.len() == 0 {
        Some(Seq::empty())
    } else {
        match spec_flist_of(items[0]) {
            Some(f) => match spec_flists_of_doc(items.drop_first(), mirror, repo) {
                Some(rest) => Some(
                    seq![with_url(f, spec_resolved_url(mirror, repo, f.name))] + rest,
                ),
                None => None,
            },
            None => None,
        }
    }
}

/// Decodes a repository listing body and resolves every entry's URL: each
/// resolved URL is exactly `mirror/repo/name`.
pub fn flists_from_body(body: &[u8], mirror: &str, repo: &str) -> (r: Result<Vec<Flist>, HubError>)
    requires
        body@.len() < usize::MAX,
    ensures
        r matches Ok(v) ==> ({
            &&& json::spec_doc_objs(body@) matches Some(items)
            &&& spec_flists_of_doc(items, mirror@, repo@) == Some(
                v@.map_values(|f: Flist| f@),
            )
        }),
        r is Err ==> ({
            &&& r matches Err(HubError::Decode)
            &&& json::spec_doc_objs(body@) matches Some(items) ==> spec_flists_of_doc(
                items,
                mirror@,
                repo@,
            ) is None
        }),
{
    let items = match json::doc_objs(body) {
        Some(items) => items,
        None => {
            return Err(HubError::Decode);
        },
    };
    let ghost itemsv = items@.map_values(|o: Vec<(String, Scalar)>| json::fields_view(o@));
    let mut out: Vec<Flist> = Vec::new();
    let mut i: usize = 0;
    proof {
        assert(itemsv.skip(0) =~= itemsv);
        assert(out@.map_values(|f: Flist| f@) =~= Seq::<FlistV>::empty());
    }
    while i < items.len()
        invariant
            i <= items@.len(),
            itemsv == items@.map_values(|o: Vec<(String, Scalar)>| json::fields_view(o@)),
            json::spec_doc_objs(body@) == Some(itemsv),
            spec_flists_of_doc(itemsv, mirror@, repo@) matches Some(all) ==> ({
                &&& spec_flists_of_doc(itemsv.skip(i as int), mirror@, repo@) matches Some(rest)
                    && all == out@.map_values(|f: Flist| f@) + rest
            }),
            spec_flists_of_doc(itemsv, mirror@, repo@) is None ==> spec_flists_of_doc(
                itemsv.skip(i as int),
                mirror@,
                repo@,
            ) is None,
        decreases items@.len() - i,
    {
        proof {
            assert(itemsv.skip(i as int)[0] == itemsv[i as int]);
            assert(itemsv.skip(i as int).drop_first() =~= itemsv.skip(i + 1));
            assert(itemsv[i as int] == json::fields_view(items@[i as int]@));
        }
        let mut f = match flist_from_fields(&items[i]) {
            Ok(f) => f,
            Err(e) => {
                proof {
                    assert(spec_flists_of_doc(itemsv.skip(i as int), mirror@, repo@) is None);
                    if spec_flists_of_doc(itemsv, mirror@, repo@) is Some {
                        assert(false);
                    }
                }
                return Err(e);
            },
        };
        let ghost pre = out@.map_values(|f: Flist| f@);
        let url = resolved_url(mirror, repo, f.name.as_str());
        f.url = url;
        out.push(f);
        proof {
            assert(out@.map_values(|f: Flist| f@) =~= pre.push(out@.last()@));
            if spec_flists_of_doc(itemsv, mirror@, repo@) is Some {
                let rest0 = spec_flists_of_doc(itemsv.skip(i as int), mirror@, repo@)->0;
                let rest1 = spec_flists_of_doc(itemsv.skip(i + 1), mirror@, repo@)->0;
                assert(pre + rest0 =~= out@.map_values(|f: Flist| f@) + rest1);
            }
        }
        i = i + 1;
    }
    proof {
        assert(itemsv.skip(items@.len() as int) =~= Seq::<Seq<(Seq<char>, ScalarV)>>::empty());
        if spec_flists_of_doc(itemsv, mirror@, repo@) is Some {
            let all = spec_flists_of_doc(itemsv, mirror@, repo@)->0;
            assert(all =~= out@.map_values(|f: Flist| f@));
        }
    }
    Ok(out)
}

/// What a listing response means: a 200 answer decodes and resolves the
/// artifact list; any other status is exactly that status error.
pub fn list_outcome(status: u16, body: &[u8], mirror: &str, repo: &str) -> (r: Result<
    Vec<Flist>,
    HubError,
>)
    requires
        body@.len() < usize::MAX,
    ensures
        status != 200 ==> ({
            &&& r matches Err(HubError::Status(s)) && s == status
        }),
        status == 200 ==> match r {
            Ok(v) => ({
                &&& json::spec_doc_objs(body@) matches Some(items)
                &&& spec_flists_of_doc(items, mirror@, repo@) == Some(
                    v@.map_values(|f: Flist| f@),
                )
            }),
            Err(e) => ({
                &&& e matches HubError::Decode
                &&& json::spec_doc_objs(body@) matches Some(items) ==> spec_flists_of_doc(
                    items,
                    mirror@,
                    repo@,
                ) is None
            }),
        },
{
    if status != 200 {
        return Err(HubError::Status(status));
    }
    flists_from_body(body, mirror, repo)
}

/// The URL a tag-listing entry resolves to: symlink-style entries with a
/// target point at `mirror/target`; an entry of regular kind, or one with
/// no target, is left unresolved and skipped by installation.
pub open spec fn spec_tag_url(mirror: Seq<char>, f: FlistV) -> Seq<char> {
    match f.target {
        Some(t) => if f.kind != Kind::Regular {
            mirror + "/"@ + t
        } else {
            Seq::empty()
        },
        None => Seq::empty(),
    }
}

/// The descriptors a tag listing's objects describe, each entry's URL
/// resolved from its target.
pub open spec fn spec_tag_flists(
    items: Seq<Seq<(Seq<char>, ScalarV)>>,
    mirror: Seq<char>,
) -> Option<Seq<FlistV>>
    decreases items.len(),
{
    if items.len() == 0 {
        Some(Seq::empty())
    } else {
        match spec_flist_of(items[0]) {
            Some(f) => match spec_tag_flists(items.drop_first(), mirror) {
                Some(rest) => Some(seq![with_url(f, spec_tag_url(mirror, f))] + rest),
                None => None,
            },
            None => None,
        }
    }
}

/// What a tag query's response means: 404 is the absent outcome — never an
/// error; 200 decodes the entry list and resolves each target URL; any
/// other status is a status error.
pub fn tag_list_outcome(status: u16, body: &[u8], mirror: &str) -> (r: Result<
    Option<Vec<Flist>>,
    HubError,
>)
    requires
        body@.len() < usize::MAX,
    ensures
        status == 404 ==> ({
            &&& r matches Ok(o)
            &&& r->Ok_0 is None
        }),
        status == 200 ==> match r {
            Ok(o) => ({
                &&& o matches Some(v)
                &&& json::spec_doc_objs(body@) matches Some(items)
                &&& spec_tag_flists(items, mirror@) == Some(v@.map_values(|f: Flist| f@))
            }),
            Err(e) => e matches HubError::Decode && (json::spec_doc_objs(body@) is None || (
            json::spec_doc_objs(body@) matches Some(items) && spec_tag_flists(
                items,
                mirror@,
            ) is None)),
        },
        !(status == 404 || status == 200) ==> ({
            &&& r matches Err(HubError::Status(s)) && s == status
        }),
{
    if status == 404 {
        return Ok(None);
    }
    if status != 200 {
        return Err(HubError::Status(status));
    }
    let items = match json::doc_objs(body) {
        Some(items) => items,
        None => {
            return Err(HubError::Decode);
        },
    };
    let ghost itemsv = items@.map_values(|o: Vec<(String, Scalar)>| json::fields_view(o@));
    let mut out: Vec<Flist> = Vec::new();
    let mut i: usize = 0;
    proof {
        assert(itemsv.skip(0) =~= itemsv);
        assert(out@.map_values(|f: Flist| f@) =~= Seq::<FlistV>::empty());
    }
    while i < items.len()
        invariant
            i <= items@.len(),
            itemsv == items@.map_values(|o: Vec<(String, Scalar)>| json::fields_view(o@)),
            json::spec_doc_objs(body@) == Some(itemsv),
            status == 200,
            spec_tag_flists(itemsv, mirror@) matches Some(all) ==> ({
                &&& spec_tag_flists(itemsv.skip(i as int), mirror@) matches Some(rest) && all
                    == out@.map_values(|f: Flist| f@) + rest
            }),
            spec_tag_flists(itemsv, mirror@) is None ==> spec_tag_flists(
                itemsv.skip(i as int),
                mirror@,
            ) is None,
        decreases items@.len() - i,
    {
        proof {
            assert(itemsv.skip(i as int)[0] == itemsv[i as int]);
            assert(itemsv.skip(i as int).drop_first() =~= itemsv.skip(i + 1));
            assert(itemsv[i as int] == json::fields_view(items@[i as int]@));
        }
        let mut f = match flist_from_fields(&items[i]) {
            Ok(f) => f,
            Err(e) => {
                proof {
                    assert(spec_tag_flists(itemsv.skip(i as int), mirror@) is None);
                    if spec_tag_flists(itemsv, mirror@) is Some {
                        assert(false);
                    }
                }
                return Err(e);
            },
        };
        let ghost pre = out@.map_values(|f: Flist| f@);
        let resolved: String = match &f.target {
            Some(t) => {
                if !matches!(f.kind, Kind::Regular) {
                    strutil::concat3(mirror, "/", t.as_str())
                } else {
                    String::new()
                }
            },
            None => String::new(),
        };
        f.url = resolved;
        out.push(f);
        proof {
            assert(out@.map_values(|f: Flist| f@) =~= pre.push(out@.last()@));
            if spec_tag_flists(itemsv, mirror@) is Some {
                let rest0 = spec_tag_flists(itemsv.skip(i as int), mirror@)->0;
                let rest1 = spec_tag_flists(itemsv.skip(i + 1), mirror@)->0;
                assert(pre + rest0 =~= out@.map_values(|f: Flist| f@) + rest1);
            }
        }
        i = i + 1;
    }
    proof {
        assert(itemsv.skip(items@.len() as int) =~= Seq::<Seq<(Seq<char>, ScalarV)>>::empty());
        if spec_tag_flists(itemsv, mirror@) is Some {
            let all = spec_tag_flists(itemsv, mirror@)->0;
            assert(all =~= out@.map_values(|f: Flist| f@));
        }
    }
    Ok(Some(out))
}

/// The scalar fields among a document object's fields, in order.
pub open spec fn spec_sc_fields(fs: Seq<(Seq<char>, FieldValV)>) -> Seq<(Seq<char>, ScalarV)>
    decreases fs.len(),
{
    if fs.len() == 0 {
        Seq::empty()
    } else {
        let rest = spec_sc_fields(fs.drop_first());
        match fs[0].1 {
            FieldValV::Sc(sc) => seq![(fs[0].0, sc)] + rest,
            _ => rest,
        }
    }
}

/// Keeps the scalar fields of a document object, as [`spec_sc_fields`]
/// reads them.
pub fn sc_fields(fs: &Vec<(String, FieldVal)>) -> (r: Vec<(String, Scalar)>)
    ensures
        json::fields_view(r@) == spec_sc_fields(json::doc_view(fs@)),
{
    let ghost fsv = json::doc_view(fs@);
    let mut out: Vec<(String, Scalar)> = Vec::new();
    let mut i: usize = 0;
    proof {
        assert(fsv.skip(0) =~= fsv);
        assert(json::fields_view(out@) =~= Seq::<(Seq<char>, ScalarV)>::empty());
    }
    while i < fs.len()
        invariant
            i <= fs@.len(),
            fsv == json::doc_view(fs@),
            spec_sc_fields(fsv) == json::fields_view(out@) + spec_sc_fields(fsv.skip(i as int)),
        decreases fs@.len() - i,
    {
        proof {
            assert(fsv.skip(i as int)[0] == fsv[i as int]);
            assert(fsv.skip(i as int).drop_first() =~= fsv.skip(i + 1));
            assert(fsv[i as int] == (fs@[i as int].0@, fs@[i as int].1@));
        }
        let ghost pre = json::fields_view(out@);
        match &fs[i].1 {
            FieldVal::Sc(sc) => {
                out.push((fs[i].0.clone(), sc.duplicate()));
                proof {
                    assert(json::fields_view(out@) =~= pre.push(
                        (out@.last().0@, out@.last().1@),
                    ));
                    assert(pre + (seq![(fsv[i as int].0, fsv[i as int].1->Sc_0)] + spec_sc_fields(
                        fsv.skip(i + 1),
                    )) =~= json::fields_view(out@) + spec_sc_fields(fsv.skip(i + 1)));
                }
            },
            _ => {},
        }
        i = i + 1;
    }
    proof {
        assert(fsv.skip(fs@.len() as int) =~= Seq::<(Seq<char>, FieldValV)>::empty());
        assert(json::fields_view(out@) + Seq::<(Seq<char>, ScalarV)>::empty() =~= json::fields_view(
            out@,
        ));
    }
    out
}

/// Decodes a single-descriptor body and resolves its URL from the name the
/// caller asked for.
pub fn flist_from_body(body: &[u8], mirror: &str, repo: &str, asked: &str) -> (r: Result<
    Flist,
    HubError,
>)
    requires
        body@.len() < usize::MAX,
    ensures
        r matches Ok(f) ==> ({
            &&& json::spec_doc_object(body@) matches Some(fields)
            &&& spec_flist_of(spec_sc_fields(fields)) matches Some(g)
            &&& f@ == with_url(g, spec_resolved_url(mirror@, repo@, asked@))
        }),
        r is Err ==> ({
            &&& r matches Err(HubError::Decode)
            &&& json::spec_doc_object(body@) matches Some(fields) ==> spec_flist_of(
                spec_sc_fields(fields),
            ) is None
        }),
{
    let fields = match json::doc_object(body) {
        Some(fields) => fields,
        None => {
            return Err(HubError::Decode);
        },
    };
    let scalars = sc_fields(&fields);
    let mut f = match flist_from_fields(&scalars) {
        Ok(f) => f,
        Err(e) => {
            return Err(e);
        },
    };
    f.url = resolved_url(mirror, repo, asked);
    Ok(f)
}

/// What a single-artifact metadata response means: a 200 answer decodes
/// the descriptor and resolves its URL from the name asked for; any other
/// status is exactly that status error.
pub fn get_outcome(status: u16, body: &[u8], mirror: &str, repo: &str, asked: &str) -> (r: Result<
    Flist,
    HubError,
>)
    requires
        body@.len() < usize::MAX,
    ensures
        status != 200 ==> ({
            &&& r matches Err(HubError::Status(s)) && s == status
        }),
        status == 200 ==> match r {
            Ok(f) => ({
                &&& json::spec_doc_object(body@) matches Some(fields)
                &&& spec_flist_of(spec_sc_fields(fields)) matches Some(g)
                &&& f@ == with_url(g, spec_resolved_url(mirror@, repo@, asked@))
            }),
            Err(e) => ({
                &&& e matches HubError::Decode
                &&& json::spec_doc_object(body@) matches Some(fields) ==> spec_flist_of(
                    spec_sc_fields(fields),
                ) is None
            }),
        },
{
    if status != 200 {
        return Err(HubError::Status(status));
    }
    flist_from_body(body, mirror, repo, asked)
}

/// What a content response means: a success status hands the received
/// bytes on unchanged to be written; any other status is exactly that
/// status error, and none of its bytes count as artifact content.
pub fn content_outcome(status: u16, body: Vec<u8>) -> (r: Result<Vec<u8>, HubError>)
    ensures
        200 <= status < 300 ==> ({
            &&& r matches Ok(b) && b@ == body@
        }),
        !(200 <= status < 300) ==> ({
            &&& r matches Err(HubError::Status(s)) && s == status
        }),
{
    if 200 <= status && status < 300 {
        Ok(body)
    } else {
        Err(HubError::Status(status))
    }
}

impl Repo {
    /// Lists every artifact of the repository from the working mirror; on
    /// success every entry's URL reads `mirror/repository/name` for one
    /// mirror of this run's list.
    pub fn list(&self) -> (r: Result<Vec<Flist>, HubError>)
        requires
            self.wf(),
        ensures
            r matches Ok(v) ==> exists|m: Seq<char>|
                #[trigger] from_mirror(self.hub@, m) && (forall|j: int|
                    0 <= j < v@.len() ==> (#[trigger] v@[j])@.url == spec_resolved_url(
                        m,
                        self.name@,
                        v@[j]@.name,
                    )),
            r matches Err(HubError::Status(s)) ==> s != 200,
    {
        let mirror = self.get_working_hub();
        let url = strutil::concat3(mirror.as_str(), "/api/flist/", self.name.as_str());
        let h = match http_get(url.as_str()) {
            Ok(h) => h,
            Err(e) => {
                return Err(HubError::Net(e));
            },
        };
        let r = list_outcome(h.status, h.body.as_slice(), mirror.as_str(), self.name.as_str());
        match r {
            Ok(v) => {
                proof {
                    let items = json::spec_doc_objs(h.body@)->0;
                    lemma_flists_urls(items, mirror@, self.name@, v@.map_values(|f: Flist| f@));
                    assert(from_mirror(self.hub@, mirror@));
                    assert(forall|j: int|
                        0 <= j < v@.len() ==> (#[trigger] v@[j])@ == v@.map_values(
                            |f: Flist| f@,
                        )[j]);
                }
                Ok(v)
            },
            Err(e) => Err(e),
        }
    }

    /// Lists the artifacts a tag names. A missing tag is the absent
    /// outcome, never an error; each symlink-style entry's URL is resolved
    /// from its target against the working mirror.
    pub fn list_tag(&self, tag: &str) -> (r: Result<Option<Vec<Flist>>, HubError>)
        requires
            self.wf(),
        ensures
            r matches Ok(o) ==> (o matches Some(v) ==> exists|m: Seq<char>|
                #[trigger] from_mirror(self.hub@, m) && (forall|j: int|
                    0 <= j < v@.len() ==> (#[trigger] v@[j])@.url == spec_tag_url(m, v@[j]@))),
    {
        let mirror = self.get_working_hub();
        let url = strutil::concat5(
            mirror.as_str(),
            "/api/flist/",
            self.name.as_str(),
            "/tags/",
            tag,
        );
        let h = match http_get(url.as_str()) {
            Ok(h) => h,
            Err(e) => {
                return Err(HubError::Net(e));
            },
        };
        let r = tag_list_outcome(h.status, h.body.as_slice(), mirror.as_str());
        match r {
            Ok(Some(v)) => {
                proof {
                    if h.status == 200 {
                        let items = json::spec_doc_objs(h.body@)->0;
                        lemma_tag_urls(items, mirror@, v@.map_values(|f: Flist| f@));
                    }
                    assert(from_mirror(self.hub@, mirror@));
                    assert(forall|j: int|
                        0 <= j < v@.len() ==> (#[trigger] v@[j])@ == v@.map_values(
                            |f: Flist| f@,
                        )[j]);
                }
                Ok(Some(v))
            },
            other => other,
        }
    }

    /// Fetches one artifact's metadata by name; the descriptor's URL is
    /// resolved to `mirror/repository/name` for the name asked for.
    pub fn get(&self, flist: &str) -> (r: Result<Flist, HubError>)
        requires
            self.wf(),
        ensures
            r matches Ok(f) ==> exists|m: Seq<char>|
                #[trigger] from_mirror(self.hub@, m) && f@.url == spec_resolved_url(
                    m,
                    self.name@,
                    flist@,
                ),
            r matches Err(HubError::Status(s)) ==> s != 200,
    {
        let mirror = self.get_working_hub();
        let url = strutil::concat5(
            mirror.as_str(),
            "/api/flist/",
            self.name.as_str(),
            "/",
            flist,
        );
        let url = strutil::concat2(url.as_str(), "/light");
        let h = match http_get(url.as_str()) {
            Ok(h) => h,
            Err(e) => {
                return Err(HubError::Net(e));
            },
        };
        let r = get_outcome(h.status, h.body.as_slice(), mirror.as_str(), self.name.as_str(), flist);
        proof {
            assert(from_mirror(self.hub@, mirror@));
        }
        r
    }
}

/// In a resolved listing every URL reads `mirror/repo/name`.
proof fn lemma_flists_urls(
    items: Seq<Seq<(Seq<char>, ScalarV)>>,
    mirror: Seq<char>,
    repo: Seq<char>,
    v: Seq<FlistV>,
)
    requires
        spec_flists_of_doc(items, mirror, repo) == Some(v),
    ensures
        forall|j: int|
            0 <= j < v.len() ==> (#[trigger] v[j]).url == spec_resolved_url(
                mirror,
                repo,
                v[j].name,
            ),
    decreases items.len(),
{
    if items.len() > 0 {
        let f = spec_flist_of(items[0])->0;
        let rest = spec_flists_of_doc(items.drop_first(), mirror, repo)->0;
        lemma_flists_urls(items.drop_first(), mirror, repo, rest);
        assert(forall|j: int| 0 < j < v.len() ==> v[j] == rest[j - 1]);
    }
}

/// In a resolved tag listing every URL is the one its own target gives.
proof fn lemma_tag_urls(items: Seq<Seq<(Seq<char>, ScalarV)>>, mirror: Seq<char>, v: Seq<FlistV>)
    requires
        spec_tag_flists(items, mirror) == Some(v),
    ensures
        forall|j: int| 0 <= j < v.len() ==> (#[trigger] v[j]).url == spec_tag_url(mirror, v[j]),
    decreases items.len(),
{
    if items.len() > 0 {
        let f = spec_flist_of(items[0])->0;
        let rest = spec_tag_flists(items.drop_first(), mirror)->0;
        lemma_tag_urls(items.drop_first(), mirror, rest);
        assert(forall|j: int| 0 < j < v.len() ==> v[j] == rest[j - 1]);
        assert(spec_tag_url(mirror, with_url(f, spec_tag_url(mirror, f))) == spec_tag_url(
            mirror,
            f,
        ));
    }
}

impl Flist {
    /// Streams the artifact's content to a file at `out`. Legal only for
    /// the regular and symlink kinds; any other kind is a contract
    /// violation, reported as an error and never retried.
    pub fn download(&self, out: &str) -> (r: Result<(), HubError>)
        ensures
            !(self.kind == Kind::Regular || self.kind == Kind::Symlink) <==> r matches Err(
                HubError::Contract,
            ),
            r matches Err(HubError::Status(s)) ==> !(200 <= s < 300),
    {
        match self.kind {
            Kind::Regular | Kind::Symlink => {},
            _ => {
                return Err(HubError::Contract);
            },
        }
        let h = match http_get(self.url.as_str()) {
            Ok(h) => h,
            Err(e) => {
                return Err(HubError::Net(e));
            },
        };
        let content = match content_outcome(h.status, h.body) {
            Ok(b) => b,
            Err(e) => {
                return Err(e);
            },
        };
        match sys::write_file(out, content.as_slice()) {
            Ok(()) => Ok(()),
            Err(e) => Err(HubError::Net(e)),
        }
    }
}

/// The hexadecimal digit for `d`, lower case.
pub open spec fn hexdig(d: int) -> char {
    if d < 10 {
        ((48 + d) as u8) as char
    } else {
        ((87 + d) as u8) as char
    }
}

/// How one character is written inside a JSON string: quotes, backslashes
/// and the named controls escape, other controls take the `\u00..` form,
/// everything else stands as itself.
pub open spec fn esc_json_char(c: char) -> Seq<char> {
    if c == '"' {
        seq!['\\', '"']
    } else if c == '\\' {
        seq!['\\', '\\']
    } else if c == '\n' {
        seq!['\\', 'n']
    } else if c == '\r' {
        seq!['\\', 'r']
    } else if c == '\t' {
        seq!['\\', 't']
    } else if (c as u32) < 32 {
        seq!['\\', 'u', '0', '0', hexdig((c as u32) as int / 16), hexdig((c as u32) as int % 16)]
    } else {
        seq![c]
    }
}

/// A whole string written inside JSON quotes.
pub open spec fn esc_json(s: Seq<char>) -> Seq<char>
    decreases s.len(),
{
    if s.len() == 0 {
        Seq::empty()
    } else {
        esc_json_char(s[0]) + esc_json(s.drop_first())
    }
}

/// Appends the JSON form of one character, as [`esc_json_char`] writes it.
fn push_esc(acc: &mut String, c: char)
    ensures
        final(acc)@ == old(acc)@ + esc_json_char(c),
{
    let code = c as u32;
    if c == '"' {
        acc.push('\\');
        acc.push('"');
    } else if c == '\\' {
        acc.push('\\');
        acc.push('\\');
    } else if c == '\n' {
        acc.push('\\');
        acc.push('n');
    } else if c == '\r' {
        acc.push('\\');
        acc.push('r');
    } else if c == '\t' {
        acc.push('\\');
        acc.push('t');
    } else if code < 32 {
        acc.push('\\');
        acc.push('u');
        acc.push('0');
        acc.push('0');
        let hi = (code / 16) as u8;
        let lo = (code % 16) as u8;
        acc.push(
            if hi < 10 {
                (48 + hi) as char
            } else {
                (87 + hi) as char
            },
        );
        acc.push(
            if lo < 10 {
                (48 + lo) as char
            } else {
                (87 + lo) as char
            },
        );
    } else {
        acc.push(c);
    }
    proof {
        assert(final(acc)@ =~= old(acc)@ + esc_json_char(c));
    }
}

/// Appends the escaped form of a whole string.
fn push_esc_str(acc: &mut String, s: &str)
    ensures
        final(acc)@ == old(acc)@ + esc_json(s@),
{
    let n = s.unicode_len();
    let mut i: usize = 0;
    proof {
        assert(old(acc)@ + Seq::<char>::empty() =~= old(acc)@);
        assert(esc_json(s@.take(0)) =~= Seq::<char>::empty());
    }
    while i < n
        invariant
            n == s@.len(),
            i <= n,
            acc@ == old(acc)@ + esc_json(s@.take(i as int)),
        decreases n - i,
    {
        let c = s.get_char(i);
        proof {
            lemma_esc_take(s@, i as int);
        }
        push_esc(acc, c);
        i = i + 1;
    }
    proof {
        assert(s@.take(n as int) =~= s@);
    }
}

/// Escaping one more character extends the escaped prefix.
proof fn lemma_esc_take(s: Seq<char>, i: int)
    requires
        0 <= i < s.len(),
    ensures
        esc_json(s.take(i + 1)) == esc_json(s.take(i)) + esc_json_char(s[i]),
    decreases i,
{
    if i == 0 {
        assert(s.take(1) =~= seq![s[0]]);
        assert(s.take(1).drop_first() =~= Seq::<char>::empty());
        assert(esc_json(s.take(0)) =~= Seq::<char>::empty());
        assert(esc_json(s.take(1)) == esc_json_char(s.take(1)[0]) + esc_json(
            s.take(1).drop_first(),
        ));
        assert(esc_json_char(s[0]) + Seq::<char>::empty() =~= esc_json_char(s[0]));
        assert(esc_json(s.take(1)) =~= esc_json_char(s[0]));
    } else {
        lemma_esc_take(s.drop_first(), i - 1);
        assert(s.take(i + 1).drop_first() =~= s.drop_first().take(i));
        assert(s.take(i).drop_first() =~= s.drop_first().take(i - 1));
        assert(esc_json(s.take(i + 1)) == esc_json_char(s[0]) + esc_json(s.drop_first().take(i)));
        assert(esc_json(s.take(i)) == esc_json_char(s[0]) + esc_json(s.drop_first().take(i - 1)));
        assert(s.drop_first()[i - 1] == s[i]);
        assert((esc_json_char(s[0]) + esc_json(s.drop_first().take(i - 1))) + esc_json_char(s[i])
            =~= esc_json_char(s[0]) + (esc_json(s.drop_first().take(i - 1)) + esc_json_char(s[i])));
    }
}

/// The kind names the repository protocol uses.
pub open spec fn kind_name(k: Kind) -> Seq<char> {
    match k {
        Kind::Regular => "regular"@,
        Kind::Symlink => "symlink"@,
        Kind::Tag => "tag"@,
        Kind::TagLink => "taglink"@,
    }
}

/// The JSON text a descriptor persists as: its kind, timestamp, checksum,
/// name and target; the resolved URL is transient and not written.
pub open spec fn spec_flist_json(f: FlistV) -> Seq<char> {
    "{\"type\":\""@ + kind_name(f.kind) + "\",\"updated\":"@ + strutil::dec_chars(f.updated as nat)
        + ",\"md5\":\""@ + esc_json(f.md5) + "\",\"name\":\""@ + esc_json(f.name) + "\",\"target\":"@
        + (match f.target {
        Some(t) => "\""@ + esc_json(t) + "\""@,
        None => "null"@,
    }) + "}"@
}

impl Flist {
    /// The persisted form of this descriptor, exactly as
    /// [`spec_flist_json`] writes it.
    pub fn to_json(&self) -> (r: String)
        ensures
            r@ == spec_flist_json(self@),
    {
        let mut acc = "{\"type\":\"".to_owned();
        let kn: &str = match self.kind {
            Kind::Regular => "regular",
            Kind::Symlink => "symlink",
            Kind::Tag => "tag",
            Kind::TagLink => "taglink",
        };
        acc.append(kn);
        acc.append("\",\"updated\":");
        let num = strutil::u64_to_string(self.updated);
        acc.append(num.as_str());
        acc.append(",\"md5\":\"");
        push_esc_str(&mut acc, self.md5.as_str());
        acc.append("\",\"name\":\"");
        push_esc_str(&mut acc, self.name.as_str());
        acc.append("\",\"target\":");
        match &self.target {
            Some(t) => {
                acc.append("\"");
                push_esc_str(&mut acc, t.as_str());
                acc.append("\"");
            },
            None => {
                acc.append("null");
            },
        }
        acc.append("}");
        proof {
            assert(acc@ =~= spec_flist_json(self@));
        }
        acc
    }

    /// Persists the descriptor's metadata as JSON at `out` for downstream
    /// collaborators, as [`spec_flist_json`] writes it.
    pub fn write(&self, out: &str) -> (r: Result<(), HubError>) {
        let text = self.to_json();
        match sys::write_file(out, text.as_str().as_bytes()) {
            Ok(()) => Ok(()),
            Err(e) => Err(HubError::Net(e)),
        }
    }
}

/// One manifest member: an artifact's name bound to its persisted form.
pub open spec fn spec_manifest_entry(f: FlistV) -> Seq<char> {
    "\""@ + esc_json(f.name) + "\":"@ + spec_flist_json(f)
}

/// The manifest members, comma-separated, in order.
pub open spec fn spec_manifest_members(fs: Seq<FlistV>) -> Seq<char>
    decreases fs.len(),
{
    if fs.len() == 0 {
        Seq::empty()
    } else if fs.len() == 1 {
        spec_manifest_entry(fs[0])
    } else {
        spec_manifest_members(fs.drop_last()) + ","@ + spec_manifest_entry(fs.last())
    }
}

/// The name-to-descriptor manifest the legacy install persists: one object
/// binding each installed artifact's name to its descriptor.
pub open spec fn spec_manifest_json(fs: Seq<FlistV>) -> Seq<char> {
    "{"@ + spec_manifest_members(fs) + "}"@
}

/// Renders the manifest, exactly as [`spec_manifest_json`] writes it.
pub fn manifest_json(items: &Vec<Flist>) -> (r: String)
    ensures
        r@ == spec_manifest_json(items@.map_values(|f: Flist| f@)),
{
    let ghost fsv = items@.map_values(|f: Flist| f@);
    let mut acc = "{".to_owned();
    let mut i: usize = 0;
    proof {
        assert(spec_manifest_members(fsv.take(0)) =~= Seq::<char>::empty());
        assert(acc@ + Seq::<char>::empty() =~= acc@);
    }
    while i < items.len()
        invariant
            i <= items@.len(),
            fsv == items@.map_values(|f: Flist| f@),
            acc@ == "{"@ + spec_manifest_members(fsv.take(i as int)),
        decreases items@.len() - i,
    {
        proof {
            assert(fsv.take(i + 1).drop_last() =~= fsv.take(i as int));
            assert(fsv.take(i + 1).last() == fsv[i as int]);
            assert(fsv[i as int] == items@[i as int]@);
        }
        if i > 0 {
            acc.append(",");
        }
        acc.append("\"");
        push_esc_str(&mut acc, items[i].name.as_str());
        acc.append("\":");
        let body = items[i].to_json();
        acc.append(body.as_str());
        proof {
            if i == 0 {
                assert(acc@ =~= "{"@ + spec_manifest_members(fsv.take(1)));
            } else {
                assert(acc@ =~= "{"@ + spec_manifest_members(fsv.take(i + 1)));
            }
        }
        i = i + 1;
    }
    proof {
        assert(fsv.take(items@.len() as int) =~= fsv);
    }
    acc.append("}");
    acc
}

} // verus!
