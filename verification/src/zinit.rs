//! Service activation: the service names a materialized tree defines, and
//! the supervisor invocations that monitor them. The embedding program
//! lists the fixed services directory and runs the commands; a missing
//! directory means nothing to do, and one failing service never stops the
//! rest.

use vstd::prelude::*;

use crate::strutil;
use crate::strutil::{spec_rfind, match_at};

verus! {

/// The directory, relative to a materialized root, that holds service
/// definitions.
pub fn services_dir(root: &str) -> (r: String)
    ensures
        r@ == root@ + "/etc/zinit"@,
{
    strutil::concat2(root, "/etc/zinit")
}

/// The service name a definition file yields: everything before the last
/// occurrence of the definition suffix, or nothing when the suffix never
/// occurs and the file is skipped.
pub open spec fn spec_service_name(file: Seq<char>) -> Option<Seq<char>> {
    match spec_rfind(file, ".yaml"@, file.len() - 1) {
        Some(i) => Some(file.subrange(0, i)),
        None => None,
    }
}

/// The services of a list of definition file names, in order, skipping
/// files without the suffix.
pub open spec fn spec_service_names(files: Seq<Seq<char>>) -> Seq<Seq<char>>
    decreases files.len(),
{
    if files.len() == 0 {
        Seq::empty()
    } else {
        let rest = spec_service_names(files.drop_first());
        match spec_service_name(files[0]) {
            Some(n) => seq![n] + rest,
            None => rest,
        }
    }
}

/// Extracts the service names from definition file names, exactly as
/// [`spec_service_names`] reads them.
pub fn service_names(files: &Vec<String>) -> (r: Vec<String>)
    ensures
        r.deep_view() == spec_service_names(files.deep_view()),
{
    let ghost fsv = files.deep_view();
    let mut out: Vec<String> = Vec::new();
    let mut i: usize = 0;
    proof {
        assert(fsv.skip(0) =~= fsv);
        assert(out.deep_view() =~= Seq::<Seq<char>>::empty());
    }
    while i < files.len()
        invariant
            i <= files@.len(),
            fsv == files.deep_view(),
            spec_service_names(fsv) == out.deep_view() + spec_service_names(fsv.skip(i as int)),
        decreases files@.len() - i,
    {
        proof {
            assert(fsv.skip(i as int)[0] == fsv[i as int]);
            assert(fsv.skip(i as int).drop_first() =~= fsv.skip(i + 1));
            assert(fsv[i as int] == files@[i as int]@);
        }
        let ghost pre = out.deep_view();
        let name = &files[i];
        match strutil::rfind_sub(name.as_str(), ".yaml") {
            Some(idx) => {
                let n = name.as_str().unicode_len();
                proof {
                    reveal_strlit(".yaml");
                    strutil::lemma_rfind_bounds(name@, ".yaml"@, name@.len() - 1);
                    assert(match_at(name@, ".yaml"@, idx as int));
                }
                let service = name.as_str().substring_char(0, idx).to_owned();
                out.push(service);
                proof {
                    assert(out.deep_view() =~= pre.push(fsv[i as int].subrange(0, idx as int)));
                    assert(pre + (seq![fsv[i as int].subrange(0, idx as int)]
                        + spec_service_names(fsv.skip(i + 1))) =~= out.deep_view()
                        + spec_service_names(fsv.skip(i + 1)));
                }
            },
            None => {},
        }
        i = i + 1;
    }
    proof {
        assert(fsv.skip(files@.len() as int) =~= Seq::<Seq<char>>::empty());
        assert(out.deep_view() + Seq::<Seq<char>>::empty() =~= out.deep_view());
    }
    out
}

/// The supervisor invocation that begins monitoring one service.
pub fn monitor_command(name: &str) -> (r: Vec<String>)
    ensures
        r.deep_view() =~= seq!["zinit"@, "monitor"@, name@],
{
    let mut out: Vec<String> = Vec::new();
    out.push("zinit".to_owned());
    out.push("monitor".to_owned());
    out.push(name.to_owned());
    out
}

} // verus!
