//! Stage sequencing. Stages run to completion one at a time; after a
//! successful stage the process is replaced by a fresh invocation of the
//! same binary with the next stage number, so a stage that overwrote the
//! binary is followed by the new code. The embedding program performs the
//! replacement; this module decides the arguments.

use vstd::prelude::*;

use crate::strutil;
use crate::strutil::dec_chars;

verus! {

/// How many stages the sequence has: the self-update stage and the install
/// stage.
pub fn stage_count() -> (r: u32)
    ensures
        r == 2,
{
    2
}

/// The arguments the next stage's process is started with, or nothing when
/// the given stage is the last: the incremented stage number and, when
/// debug is set, the debug flag.
pub fn next_stage_args(stage: u32, debug: bool) -> (r: Option<Vec<String>>)
    requires
        1 <= stage,
    ensures
        stage >= 2 ==> r is None,
        stage < 2 ==> ({
            &&& r matches Some(v)
            &&& v.deep_view() == (if debug {
                seq!["-s"@, dec_chars((stage + 1) as nat), "-d"@]
            } else {
                seq!["-s"@, dec_chars((stage + 1) as nat)]
            })
        }),
{
    if stage >= 2 {
        return None;
    }
    let mut out: Vec<String> = Vec::new();
    out.push("-s".to_owned());
    out.push(strutil::u64_to_string((stage + 1) as u64));
    if debug {
        out.push("-d".to_owned());
    }
    proof {
        if debug {
            assert(out.deep_view() =~= seq!["-s"@, dec_chars((stage + 1) as nat), "-d"@]);
        } else {
            assert(out.deep_view() =~= seq!["-s"@, dec_chars((stage + 1) as nat)]);
        }
    }
    Some(out)
}

} // verus!
