//! The boot-note writer's view of the repository: artifact info records and
//! the semantic version an artifact's name or symlink target carries.

use vstd::prelude::*;

use semver::Version as SemVersion;

use crate::hub::HttpBody;
use crate::json;
use crate::json::{Scalar, ScalarV};
use crate::strutil;

verus! {

/// Declares semver's version type so parsed versions can pass through.
#[verifier::external_type_specification]
#[verifier::external_body]
pub struct ExVersion(SemVersion);

/// Whether text parses as a semantic version, a function of the text alone.
pub uninterp spec fn semver_ok(s: Seq<char>) -> bool;

/// Relies on semver::Version::parse, deterministic in its input.
#[verifier::external_body]
fn parse_semver(s: &str) -> (r: Option<SemVersion>)
    ensures
        r is Some <==> semver_ok(s@),
{
    SemVersion::parse(s).ok()
}

/// Declares reqwest's blocking client so a handle can be kept.
#[verifier::external_type_specification]
#[verifier::external_body]
pub struct ExClient(reqwest::blocking::Client);

/// Relies on reqwest::blocking::Client::new.
#[verifier::external_body]
fn client_new() -> reqwest::blocking::Client {
    reqwest::blocking::Client::new()
}

/// What joining `rel` onto base URL text yields, a function of the texts.
pub uninterp spec fn url_joined(base: Seq<char>, rel: Seq<char>) -> Option<Seq<char>>;

/// Relies on url::Url::parse, url::Url::join, and the rendering of the
/// joined URL, all deterministic in the two texts.
#[verifier::external_body]
fn join_url(base: &str, rel: &str) -> (r: Option<String>)
    ensures
        r matches Some(u) ==> url_joined(base@, rel@) == Some(u@),
        r is None ==> url_joined(base@, rel@) is None,
{
    match url::Url::parse(base) {
        Ok(u) => match u.join(rel) {
            Ok(j) => Some(j.to_string()),
            Err(_) => None,
        },
        Err(_) => None,
    }
}

/// Relies on reqwest::blocking::Client::get and RequestBuilder::send: one
/// GET over this client, yielding whatever status and body came back. A
/// body fits an allocation.
#[verifier::external_body]
fn client_get(client: &reqwest::blocking::Client, url: &str) -> (r: Result<HttpBody, String>)
    ensures
        r matches Ok(h) ==> h.body@.len() < usize::MAX,
{
    match client.get(url).send() {
        Ok(resp) => {
            let status = resp.status().as_u16();
            match resp.bytes() {
                Ok(b) => Ok(HttpBody { status, body: b.to_vec() }),
                Err(e) => Err(e.to_string()),
            }
        },
        Err(e) => Err(e.to_string()),
    }
}

/// One artifact's info record.
pub struct Info {
    pub md5: String,
    pub name: String,
    pub size: u64,
    pub kind: String,
    pub target: String,
    pub updated: u64,
}

/// The mathematical image of an info record.
pub struct InfoV {
    pub md5: Seq<char>,
    pub name: Seq<char>,
    pub size: u64,
    pub kind: Seq<char>,
    pub target: Seq<char>,
    pub updated: u64,
}

impl View for Info {
    type V = InfoV;

    open spec fn view(&self) -> InfoV {
        InfoV {
            md5: self.md5@,
            name: self.name@,
            size: self.size,
            kind: self.kind@,
            target: self.target@,
            updated: self.updated,
        }
    }
}

/// The info record an object of scalar fields describes: every field is
/// required, the kind under the key `type`.
pub open spec fn spec_info_of(fs: Seq<(Seq<char>, ScalarV)>) -> Option<InfoV> {
    match (
        json::spec_lookup(fs, "md5"@),
        json::spec_lookup(fs, "name"@),
        json::spec_lookup(fs, "size"@),
        json::spec_lookup(fs, "type"@),
        json::spec_lookup(fs, "target"@),
        json::spec_lookup(fs, "updated"@),
    ) {
        (
            Some(ScalarV::Str(md5)),
            Some(ScalarV::Str(name)),
            Some(ScalarV::UInt(size)),
            Some(ScalarV::Str(kind)),
            Some(ScalarV::Str(target)),
            Some(ScalarV::UInt(updated)),
        ) => Some(InfoV { md5, name, size, kind, target, updated }),
        _ => None,
    }
}

/// Builds the info record an object of scalar fields describes, exactly as
/// [`spec_info_of`] reads it.
pub fn info_from_fields(fs: &Vec<(String, Scalar)>) -> (r: Option<Info>)
    ensures
        r matches Some(i) ==> spec_info_of(json::fields_view(fs@)) == Some(i@),
        r is None ==> spec_info_of(json::fields_view(fs@)) is None,
{
    let md5 = match json::lookup_idx(fs, "md5") {
        Some(ix) => match &fs[ix].1 {
            Scalar::Str(s) => s.clone(),
            _ => {
                return None;
            },
        },
        None => {
            return None;
        },
    };
    let name = match json::lookup_idx(fs, "name") {
        Some(ix) => match &fs[ix].1 {
            Scalar::Str(s) => s.clone(),
            _ => {
                return None;
            },
        },
        None => {
            return None;
        },
    };
    let size = match json::lookup_idx(fs, "size") {
        Some(ix) => match &fs[ix].1 {
            Scalar::UInt(n) => *n,
            _ => {
                return None;
            },
        },
        None => {
            return None;
        },
    };
    let kind = match json::lookup_idx(fs, "type") {
        Some(ix) => match &fs[ix].1 {
            Scalar::Str(s) => s.clone(),
            _ => {
                return None;
            },
        },
        None => {
            return None;
        },
    };
    let target = match json::lookup_idx(fs, "target") {
        Some(ix) => match &fs[ix].1 {
            Scalar::Str(s) => s.clone(),
            _ => {
                return None;
            },
        },
        None => {
            return None;
        },
    };
    let updated = match json::lookup_idx(fs, "updated") {
        Some(ix) => match &fs[ix].1 {
            Scalar::UInt(n) => *n,
            _ => {
                return None;
            },
        },
        None => {
            return None;
        },
    };
    Some(Info { md5, name, size, kind, target, updated })
}

/// The version-candidate text in `v`: the part after the first `:`, with
/// every trailing `.flist` removed; nothing when no `:` occurs.
pub open spec fn spec_extract(v: Seq<char>) -> Option<Seq<char>> {
    match strutil::spec_find(v, ':', 0) {
        Some(i) => Some(
            strutil::strip_all_suffix(v.subrange(i + 1, v.len() as int), ".flist"@),
        ),
        None => None,
    }
}

impl Info {
    /// The version candidate of `v`, parsed; succeeds exactly when `v` has
    /// a `:` and what follows it, stripped of `.flist`, is a semantic
    /// version.
    fn extract(&self, v: &str) -> (r: Option<SemVersion>)
        ensures
            match spec_extract(v@) {
                Some(c) => r is Some <==> semver_ok(c),
                None => r is None,
            },
    {
        proof {
            strutil::lemma_find_bounds(v@, ':', 0);
            reveal_strlit(".flist");
        }
        let (_, rest) = strutil::split_once_char(v, ':');
        let rest = match rest {
            Some(rest) => rest,
            None => {
                return None;
            },
        };
        let cand = strutil::trim_end_matches(rest.as_str(), ".flist");
        parse_semver(cand.as_str())
    }

    /// The version the artifact carries: read from the target for a
    /// symlink, from the name otherwise.
    pub fn version(&self) -> (r: Option<SemVersion>)
        ensures
            ({
                let sel = if self.kind@ == "symlink"@ {
                    self.target@
                } else {
                    self.name@
                };
                match spec_extract(sel) {
                    Some(c) => r is Some <==> semver_ok(c),
                    None => r is None,
                }
            }),
    {
        if strutil::str_eq(self.kind.as_str(), "symlink") {
            self.extract(self.target.as_str())
        } else {
            self.extract(self.name.as_str())
        }
    }
}

/// A handle on the default repository endpoint.
pub struct Hub {
    pub client: reqwest::blocking::Client,
}

impl Hub {
    pub fn new() -> Hub {
        Hub { client: client_new() }
    }

    /// The content URL of a named artifact under the default endpoint.
    pub fn url(&self, name: &str) -> (r: Result<String, String>)
        ensures
            r matches Ok(u) ==> url_joined("https://hub.grid.tf/"@, name@) == Some(u@),
            r is Err ==> url_joined("https://hub.grid.tf/"@, name@) is None,
    {
        match join_url("https://hub.grid.tf/", name) {
            Some(u) => Ok(u),
            None => Err(strutil::concat2("invalid artifact name: ", name)),
        }
    }

    /// Fetches a named artifact's info record from the default endpoint.
    pub fn info(&self, name: &str) -> (r: Result<Info, String>) {
        let url = match join_url("https://hub.grid.tf/api/flist/", name) {
            Some(u) => u,
            None => {
                return Err(strutil::concat2("invalid artifact name: ", name));
            },
        };
        let h = match client_get(&self.client, url.as_str()) {
            Ok(h) => h,
            Err(e) => {
                return Err(e);
            },
        };
        if h.status != 200 {
            return Err("unexpected response status".to_owned());
        }
        let fields = match json::doc_object(h.body.as_slice()) {
            Some(fields) => fields,
            None => {
                return Err("malformed response body".to_owned());
            },
        };
        let scalars = crate::hub::sc_fields(&fields);
        match info_from_fields(&scalars) {
            Some(i) => Ok(i),
            None => Err("malformed info record".to_owned()),
        }
    }
}

} // verus!
