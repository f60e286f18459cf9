//! A verified reader for the JSON documents the repository and the disk
//! listing tool serve: objects of scalar fields, arrays of strings, and
//! arrays of such objects. Values of other shapes are passed over, since
//! the documents' readers ignore fields they do not know.
//!
//! Every executable parser mirrors a spec-level parser over the byte view,
//! so a caller knows exactly which documents are accepted and what they
//! yield. String contents are restricted to ASCII with the plain escapes;
//! a kept field whose string falls outside that is a parse failure.

use vstd::prelude::*;

use crate::strutil::dec_val;

verus! {

// Byte values the grammar dispatches on.
pub const QUOTE: u8 = 34;

pub const BACKSLASH: u8 = 92;

pub const LBRACE: u8 = 123;

pub const RBRACE: u8 = 125;

pub const LBRACK: u8 = 91;

pub const RBRACK: u8 = 93;

pub const COMMA: u8 = 44;

pub const COLON: u8 = 58;

/// A scalar JSON value.
pub enum Scalar {
    Null,
    Bool(bool),
    UInt(u64),
    Str(String),
}

/// The mathematical image of a [`Scalar`].
pub enum ScalarV {
    Null,
    Bool(bool),
    UInt(u64),
    Str(Seq<char>),
}

impl View for Scalar {
    type V = ScalarV;

    open spec fn view(&self) -> ScalarV {
        match self {
            Scalar::Null => ScalarV::Null,
            Scalar::Bool(b) => ScalarV::Bool(*b),
            Scalar::UInt(n) => ScalarV::UInt(*n),
            Scalar::Str(s) => ScalarV::Str(s@),
        }
    }
}

impl Scalar {
    /// A copy equal in view.
    pub fn duplicate(&self) -> (r: Scalar)
        ensures
            r@ == self@,
    {
        match self {
            Scalar::Null => Scalar::Null,
            Scalar::Bool(b) => Scalar::Bool(*b),
            Scalar::UInt(n) => Scalar::UInt(*n),
            Scalar::Str(s) => Scalar::Str(s.clone()),
        }
    }
}

/// The view of a list of named scalar fields.
pub open spec fn fields_view(fs: Seq<(String, Scalar)>) -> Seq<(Seq<char>, ScalarV)> {
    fs.map_values(|p: (String, Scalar)| (p.0@, p.1@))
}

pub open spec fn is_ws(b: u8) -> bool {
    b == 32 || b == 9 || b == 10 || b == 13
}

pub open spec fn is_digit(b: u8) -> bool {
    48 <= b <= 57
}

/// The first index at or after `i` holding no whitespace.
pub open spec fn spec_skip_ws(s: Seq<u8>, i: int) -> int
    decreases s.len() - i
    when 0 <= i
{
    if i < s.len() && is_ws(s[i]) {
        spec_skip_ws(s, i + 1)
    } else {
        i
    }
}

pub fn skip_ws(s: &[u8], i: usize) -> (r: usize)
    requires
        i <= s@.len(),
    ensures
        r == spec_skip_ws(s@, i as int),
        i <= r <= s@.len(),
        r < s@.len() ==> !is_ws(s@[r as int]),
{
    let mut cur = i;
    while cur < s.len() && (s[cur] == 32 || s[cur] == 9 || s[cur] == 10 || s[cur] == 13)
        invariant
            i <= cur <= s@.len(),
            spec_skip_ws(s@, i as int) == spec_skip_ws(s@, cur as int),
        decreases s@.len() - cur,
    {
        cur = cur + 1;
    }
    cur
}

/// The character an escape code stands for, if the code is recognized.
pub open spec fn esc_char(b: u8) -> Option<char> {
    if b == QUOTE {
        Some('"')
    } else if b == BACKSLASH {
        Some('\\')
    } else if b == 47 {
        Some('/')
    } else if b == 110 {
        Some('\n')
    } else if b == 116 {
        Some('\t')
    } else if b == 114 {
        Some('\r')
    } else {
        None
    }
}

/// Reads a string body from `i` (just past the opening quote) to its closing
/// quote: the decoded characters and the index just past the quote. Accepts
/// printable ASCII and the recognized escapes, nothing else.
pub open spec fn spec_str_body(s: Seq<u8>, i: int) -> Option<(Seq<char>, int)>
    decreases s.len() - i
    when 0 <= i
{
    if i >= s.len() {
        None
    } else if s[i] == QUOTE {
        Some((Seq::empty(), i + 1))
    } else if s[i] == BACKSLASH {
        if i + 1 < s.len() {
            match esc_char(s[i + 1]) {
                Some(c) => match spec_str_body(s, i + 2) {
                    Some((rest, j)) => Some((seq![c] + rest, j)),
                    None => None,
                },
                None => None,
            }
        } else {
            None
        }
    } else if 32 <= s[i] < 127 {
        match spec_str_body(s, i + 1) {
            Some((rest, j)) => Some((seq![(s[i] as char)] + rest, j)),
            None => None,
        }
    } else {
        None
    }
}

/// Reads a string body as [`spec_str_body`] does, building the decoded text.
pub fn str_body(s: &[u8], i: usize) -> (r: Option<(String, usize)>)
    requires
        i <= s@.len(),
    ensures
        match r {
            Some(p) => spec_str_body(s@, i as int) == Some((p.0@, p.1 as int)) && i < p.1
                <= s@.len(),
            None => spec_str_body(s@, i as int) is None,
        },
{
    let mut cur = i;
    let mut acc = String::new();
    loop
        invariant
            i <= cur <= s@.len(),
            match spec_str_body(s@, cur as int) {
                Some(p) => spec_str_body(s@, i as int) == Some((acc@ + p.0, p.1)),
                None => spec_str_body(s@, i as int) is None,
            },
        decreases s@.len() - cur,
    {
        if cur >= s.len() {
            return None;
        }
        let b = s[cur];
        if b == QUOTE {
            proof {
                assert(acc@ + Seq::<char>::empty() =~= acc@);
            }
            return Some((acc, cur + 1));
        } else if b == BACKSLASH {
            if cur + 1 >= s.len() {
                return None;
            }
            let e = s[cur + 1];
            let c: char = match esc_byte(e) {
                Some(c) => c,
                None => {
                    return None;
                },
            };
            proof {
                if spec_str_body(s@, cur + 2) is Some {
                    let p2 = spec_str_body(s@, cur + 2)->0;
                    assert((acc@ + seq![c]) + p2.0 =~= acc@ + (seq![c] + p2.0));
                }
            }
            acc.push(c);
            cur = cur + 2;
        } else if 32 <= b && b < 127 {
            let c = b as char;
            proof {
                if spec_str_body(s@, cur + 1) is Some {
                    let p2 = spec_str_body(s@, cur + 1)->0;
                    assert((acc@ + seq![c]) + p2.0 =~= acc@ + (seq![c] + p2.0));
                }
            }
            acc.push(c);
            cur = cur + 1;
        } else {
            return None;
        }
    }
}

/// The character an escape code stands for, as [`esc_char`] gives it.
fn esc_byte(e: u8) -> (r: Option<char>)
    ensures
        r == esc_char(e),
{
    if e == QUOTE {
        Some('"')
    } else if e == BACKSLASH {
        Some('\\')
    } else if e == 47 {
        Some('/')
    } else if e == 110 {
        Some('\n')
    } else if e == 116 {
        Some('\t')
    } else if e == 114 {
        Some('\r')
    } else {
        None
    }
}

/// (2^64 - 1) / 10, the largest value that another digit may extend.
pub const U64_MAX_DIV10: u64 = 1_844_674_407_370_955_161;

/// The first index at or after `i` holding no decimal digit.
pub open spec fn spec_digits_end(s: Seq<u8>, i: int) -> int
    decreases s.len() - i
    when 0 <= i
{
    if i < s.len() && is_digit(s[i]) {
        spec_digits_end(s, i + 1)
    } else {
        i
    }
}

/// Reads a run of decimal digits at `i` as a `u64`: the value and the index
/// past the run. Nothing is read when no digit stands at `i` or the value
/// overflows.
pub open spec fn spec_number(s: Seq<u8>, i: int) -> Option<(u64, int)> {
    let j = spec_digits_end(s, i);
    if i < j && dec_val(s.subrange(i, j)) <= u64::MAX {
        Some((dec_val(s.subrange(i, j)) as u64, j))
    } else {
        None
    }
}

/// Reads a number as [`spec_number`] does.
pub fn number(s: &[u8], i: usize) -> (r: Option<(u64, usize)>)
    requires
        i <= s@.len(),
    ensures
        match r {
            Some(p) => spec_number(s@, i as int) == Some((p.0, p.1 as int)) && i < p.1 <= s@.len(),
            None => spec_number(s@, i as int) is None,
        },
{
    let mut cur = i;
    let mut val: u64 = 0;
    let mut over: bool = false;
    while cur < s.len() && 48 <= s[cur] && s[cur] <= 57
        invariant
            i <= cur <= s@.len(),
            spec_digits_end(s@, i as int) == spec_digits_end(s@, cur as int),
            !over ==> val == dec_val(s@.subrange(i as int, cur as int)),
            over ==> dec_val(s@.subrange(i as int, cur as int)) > u64::MAX,
        decreases s@.len() - cur,
    {
        let d: u8 = s[cur] - 48;
        proof {
            assert(s@.subrange(i as int, cur + 1).drop_last() =~= s@.subrange(
                i as int,
                cur as int,
            ));
            assert(dec_val(s@.subrange(i as int, cur + 1)) == dec_val(
                s@.subrange(i as int, cur as int),
            ) * 10 + d);
        }
        if over || val > U64_MAX_DIV10 || (val == U64_MAX_DIV10 && d > 5) {
            proof {
                if !over {
                    assert(val * 10 + d > u64::MAX);
                }
            }
            over = true;
        } else {
            val = val * 10 + d as u64;
        }
        cur = cur + 1;
    }
    if cur == i || over {
        return None;
    }
    Some((val, cur))
}

pub open spec fn null_bytes() -> Seq<u8> {
    seq![110u8, 117u8, 108u8, 108u8]
}

pub open spec fn true_bytes() -> Seq<u8> {
    seq![116u8, 114u8, 117u8, 101u8]
}

pub open spec fn false_bytes() -> Seq<u8> {
    seq![102u8, 97u8, 108u8, 115u8, 101u8]
}

/// Whether the word `w` stands at `i` in `s`.
pub open spec fn lit_at(s: Seq<u8>, i: int, w: Seq<u8>) -> bool {
    0 <= i && i + w.len() <= s.len() && s.subrange(i, i + w.len() as int) == w
}

/// Whether one of the literal words stands at `i`; used by the scalar reader.
fn lit_word(s: &[u8], i: usize, w: &[u8]) -> (r: bool)
    requires
        i <= s@.len(),
    ensures
        r == lit_at(s@, i as int, w@),
{
    if s.len() - i < w.len() {
        return false;
    }
    let mut k: usize = 0;
    while k < w.len()
        invariant
            i + w@.len() <= s@.len(),
            s@.len() <= usize::MAX,
            k <= w@.len(),
            forall|t: int| 0 <= t < k ==> s@[i + t] == w@[t],
        decreases w@.len() - k,
    {
        if s[i + k] != w[k] {
            return false;
        }
        k = k + 1;
    }
    proof {
        assert(s@.subrange(i as int, i + w@.len() as int) =~= w@);
    }
    true
}

/// Reads one scalar value at `i`: a string, an unsigned number, or one of
/// the literal words.
pub open spec fn spec_scalar(s: Seq<u8>, i: int) -> Option<(ScalarV, int)> {
    if i < 0 || i >= s.len() {
        None
    } else if s[i] == QUOTE {
        match spec_str_body(s, i + 1) {
            Some((v, j)) => Some((ScalarV::Str(v), j)),
            None => None,
        }
    } else if is_digit(s[i]) {
        match spec_number(s, i) {
            Some((n, j)) => Some((ScalarV::UInt(n), j)),
            None => None,
        }
    } else if lit_at(s, i, null_bytes()) {
        Some((ScalarV::Null, i + 4))
    } else if lit_at(s, i, true_bytes()) {
        Some((ScalarV::Bool(true), i + 4))
    } else if lit_at(s, i, false_bytes()) {
        Some((ScalarV::Bool(false), i + 5))
    } else {
        None
    }
}

/// Reads one scalar as [`spec_scalar`] does.
pub fn scalar(s: &[u8], i: usize) -> (r: Option<(Scalar, usize)>)
    requires
        i <= s@.len(),
    ensures
        match r {
            Some(p) => spec_scalar(s@, i as int) == Some((p.0@, p.1 as int)) && i < p.1 <= s@.len(),
            None => spec_scalar(s@, i as int) is None,
        },
{
    if i >= s.len() {
        return None;
    }
    let b = s[i];
    if b == QUOTE {
        match str_body(s, i + 1) {
            Some((v, j)) => Some((Scalar::Str(v), j)),
            None => None,
        }
    } else if 48 <= b && b <= 57 {
        match number(s, i) {
            Some((n, j)) => Some((Scalar::UInt(n), j)),
            None => None,
        }
    } else if lit_word(s, i, &[110, 117, 108, 108]) {
        proof {
            assert(seq![110u8, 117u8, 108u8, 108u8] =~= null_bytes());
        }
        Some((Scalar::Null, i + 4))
    } else if lit_word(s, i, &[116, 114, 117, 101]) {
        proof {
            assert(seq![116u8, 114u8, 117u8, 101u8] =~= true_bytes());
        }
        Some((Scalar::Bool(true), i + 4))
    } else if lit_word(s, i, &[102, 97, 108, 115, 101]) {
        proof {
            assert(seq![102u8, 97u8, 108u8, 115u8, 101u8] =~= false_bytes());
        }
        Some((Scalar::Bool(false), i + 5))
    } else {
        None
    }
}

/// The index just past a string entered at `i` (past its opening quote),
/// tolerating any bytes inside; used only to pass over skipped fields.
pub open spec fn spec_skip_str(s: Seq<u8>, i: int) -> Option<int>
    decreases s.len() - i
    when 0 <= i
{
    if i >= s.len() {
        None
    } else if s[i] == QUOTE {
        Some(i + 1)
    } else if s[i] == BACKSLASH {
        if i + 2 <= s.len() {
            spec_skip_str(s, i + 2)
        } else {
            None
        }
    } else {
        spec_skip_str(s, i + 1)
    }
}

fn skip_str(s: &[u8], i: usize) -> (r: Option<usize>)
    requires
        i <= s@.len(),
    ensures
        match r {
            Some(j) => spec_skip_str(s@, i as int) == Some(j as int) && i < j <= s@.len(),
            None => spec_skip_str(s@, i as int) is None,
        },
{
    let mut cur = i;
    loop
        invariant
            i <= cur <= s@.len(),
            spec_skip_str(s@, i as int) == spec_skip_str(s@, cur as int),
        decreases s@.len() - cur,
    {
        if cur >= s.len() {
            return None;
        }
        let b = s[cur];
        if b == QUOTE {
            return Some(cur + 1);
        } else if b == BACKSLASH {
            if s.len() - cur >= 2 {
                cur = cur + 2;
            } else {
                return None;
            }
        } else {
            cur = cur + 1;
        }
    }
}

/// Bytes that may appear in a skipped number.
pub open spec fn is_num_byte(b: u8) -> bool {
    is_digit(b) || b == 43 || b == 45 || b == 46 || b == 101 || b == 69
}

pub open spec fn spec_num_end(s: Seq<u8>, i: int) -> int
    decreases s.len() - i
    when 0 <= i
{
    if i < s.len() && is_num_byte(s[i]) {
        spec_num_end(s, i + 1)
    } else {
        i
    }
}

fn num_end(s: &[u8], i: usize) -> (r: usize)
    requires
        i <= s@.len(),
    ensures
        r == spec_num_end(s@, i as int),
        i <= r <= s@.len(),
{
    let mut cur = i;
    while cur < s.len() && (48 <= s[cur] && s[cur] <= 57 || s[cur] == 43 || s[cur] == 45 || s[cur]
        == 46 || s[cur] == 101 || s[cur] == 69)
        invariant
            i <= cur <= s@.len(),
            spec_num_end(s@, i as int) == spec_num_end(s@, cur as int),
        decreases s@.len() - cur,
    {
        cur = cur + 1;
    }
    cur
}

pub open spec fn is_alpha(b: u8) -> bool {
    97 <= b <= 122
}

pub open spec fn spec_alpha_end(s: Seq<u8>, i: int) -> int
    decreases s.len() - i
    when 0 <= i
{
    if i < s.len() && is_alpha(s[i]) {
        spec_alpha_end(s, i + 1)
    } else {
        i
    }
}

fn alpha_end(s: &[u8], i: usize) -> (r: usize)
    requires
        i <= s@.len(),
    ensures
        r == spec_alpha_end(s@, i as int),
        i <= r <= s@.len(),
{
    let mut cur = i;
    while cur < s.len() && 97 <= s[cur] && s[cur] <= 122
        invariant
            i <= cur <= s@.len(),
            spec_alpha_end(s@, i as int) == spec_alpha_end(s@, cur as int),
        decreases s@.len() - cur,
    {
        cur = cur + 1;
    }
    cur
}

/// The index just past a bracketed value entered at `i` with `depth` open
/// brackets; strings are passed over whole, other bytes only counted.
pub open spec fn spec_skip_composite(s: Seq<u8>, i: int, depth: int) -> Option<int>
    decreases s.len() - i
    when 0 <= i
{
    if i >= s.len() || depth < 1 {
        None
    } else if s[i] == QUOTE {
        match spec_skip_str(s, i + 1) {
            Some(j) => if i < j <= s.len() {
                spec_skip_composite(s, j, depth)
            } else {
                None
            },
            None => None,
        }
    } else if s[i] == LBRACK || s[i] == LBRACE {
        spec_skip_composite(s, i + 1, depth + 1)
    } else if s[i] == RBRACK || s[i] == RBRACE {
        if depth == 1 {
            Some(i + 1)
        } else {
            spec_skip_composite(s, i + 1, depth - 1)
        }
    } else {
        spec_skip_composite(s, i + 1, depth)
    }
}

fn skip_composite(s: &[u8], i: usize) -> (r: Option<usize>)
    requires
        i <= s@.len(),
        s@.len() < usize::MAX,
    ensures
        match r {
            Some(j) => spec_skip_composite(s@, i as int, 1) == Some(j as int) && i < j <= s@.len(),
            None => spec_skip_composite(s@, i as int, 1) is None,
        },
{
    let mut cur = i;
    let mut depth: usize = 1;
    loop
        invariant
            i <= cur <= s@.len(),
            s@.len() < usize::MAX,
            1 <= depth <= 1 + cur - i,
            spec_skip_composite(s@, i as int, 1) == spec_skip_composite(
                s@,
                cur as int,
                depth as int,
            ),
        decreases s@.len() - cur,
    {
        if cur >= s.len() {
            return None;
        }
        let b = s[cur];
        if b == QUOTE {
            match skip_str(s, cur + 1) {
                Some(j) => {
                    cur = j;
                },
                None => {
                    return None;
                },
            }
        } else if b == LBRACK || b == LBRACE {
            depth = depth + 1;
            cur = cur + 1;
        } else if b == RBRACK || b == RBRACE {
            if depth == 1 {
                return Some(cur + 1);
            }
            depth = depth - 1;
            cur = cur + 1;
        } else {
            cur = cur + 1;
        }
    }
}

/// The index just past any single value standing at `i`; the value is not
/// interpreted. Used to pass over fields of shapes the documents never
/// carry in positions the caller reads.
pub open spec fn spec_skip_value(s: Seq<u8>, i: int) -> Option<int> {
    if i < 0 || i >= s.len() {
        None
    } else if s[i] == QUOTE {
        spec_skip_str(s, i + 1)
    } else if is_digit(s[i]) || s[i] == 45 {
        Some(spec_num_end(s, i))
    } else if is_alpha(s[i]) {
        Some(spec_alpha_end(s, i))
    } else if s[i] == LBRACK || s[i] == LBRACE {
        spec_skip_composite(s, i + 1, 1)
    } else {
        None
    }
}

fn skip_value(s: &[u8], i: usize) -> (r: Option<usize>)
    requires
        i <= s@.len(),
        s@.len() < usize::MAX,
    ensures
        match r {
            Some(j) => spec_skip_value(s@, i as int) == Some(j as int) && i < j <= s@.len(),
            None => spec_skip_value(s@, i as int) is None,
        },
{
    if i >= s.len() {
        return None;
    }
    let b = s[i];
    if b == QUOTE {
        skip_str(s, i + 1)
    } else if 48 <= b && b <= 57 || b == 45 {
        let j = num_end(s, i + 1);
        proof {
            assert(spec_num_end(s@, i as int) == spec_num_end(s@, i + 1));
        }
        Some(j)
    } else if 97 <= b && b <= 122 {
        let j = alpha_end(s, i + 1);
        proof {
            assert(spec_alpha_end(s@, i as int) == spec_alpha_end(s@, i + 1));
        }
        Some(j)
    } else if b == LBRACK || b == LBRACE {
        skip_composite(s, i + 1)
    } else {
        None
    }
}

/// The first value bound to `key` among scalar fields.
pub open spec fn spec_lookup(fs: Seq<(Seq<char>, ScalarV)>, key: Seq<char>) -> Option<ScalarV>
    decreases fs.len(),
{
    if fs.len() == 0 {
        None
    } else if fs[0].0 == key {
        Some(fs[0].1)
    } else {
        spec_lookup(fs.drop_first(), key)
    }
}

/// Where the first field named `key` stands, if anywhere.
pub fn lookup_idx(fs: &Vec<(String, Scalar)>, key: &str) -> (r: Option<usize>)
    ensures
        match r {
            Some(ix) => ix < fs@.len() && fs@[ix as int].0@ == key@ && spec_lookup(
                fields_view(fs@),
                key@,
            ) == Some(fs@[ix as int].1@),
            None => spec_lookup(fields_view(fs@), key@) is None,
        },
{
    let mut i: usize = 0;
    proof {
        assert(fields_view(fs@).skip(0) =~= fields_view(fs@));
    }
    while i < fs.len()
        invariant
            i <= fs@.len(),
            spec_lookup(fields_view(fs@), key@) == spec_lookup(
                fields_view(fs@).skip(i as int),
                key@,
            ),
        decreases fs@.len() - i,
    {
        proof {
            assert(fields_view(fs@).skip(i as int)[0] == (fs@[i as int].0@, fs@[i as int].1@));
            assert(fields_view(fs@).skip(i as int).drop_first() =~= fields_view(fs@).skip(i + 1));
        }
        if crate::strutil::str_eq(fs[i].0.as_str(), key) {
            return Some(i);
        }
        i = i + 1;
    }
    proof {
        assert(fields_view(fs@).skip(fs@.len() as int) =~= Seq::<(Seq<char>, ScalarV)>::empty());
    }
    None
}

/// The first value bound to `key` among document fields.
pub open spec fn spec_doc_lookup(fs: Seq<(Seq<char>, FieldValV)>, key: Seq<char>) -> Option<
    FieldValV,
>
    decreases fs.len(),
{
    if fs.len() == 0 {
        None
    } else if fs[0].0 == key {
        Some(fs[0].1)
    } else {
        spec_doc_lookup(fs.drop_first(), key)
    }
}

/// Where the first document field named `key` stands, if anywhere.
pub fn doc_lookup_idx(fs: &Vec<(String, FieldVal)>, key: &str) -> (r: Option<usize>)
    ensures
        match r {
            Some(ix) => ix < fs@.len() && fs@[ix as int].0@ == key@ && spec_doc_lookup(
                doc_view(fs@),
                key@,
            ) == Some(fs@[ix as int].1@),
            None => spec_doc_lookup(doc_view(fs@), key@) is None,
        },
{
    let mut i: usize = 0;
    proof {
        assert(doc_view(fs@).skip(0) =~= doc_view(fs@));
    }
    while i < fs.len()
        invariant
            i <= fs@.len(),
            spec_doc_lookup(doc_view(fs@), key@) == spec_doc_lookup(
                doc_view(fs@).skip(i as int),
                key@,
            ),
        decreases fs@.len() - i,
    {
        proof {
            assert(doc_view(fs@).skip(i as int)[0] == (fs@[i as int].0@, fs@[i as int].1@));
            assert(doc_view(fs@).skip(i as int).drop_first() =~= doc_view(fs@).skip(i + 1));
        }
        if crate::strutil::str_eq(fs[i].0.as_str(), key) {
            return Some(i);
        }
        i = i + 1;
    }
    proof {
        assert(doc_view(fs@).skip(fs@.len() as int) =~= Seq::<(Seq<char>, FieldValV)>::empty());
    }
    None
}

/// A field value the reader keeps: a scalar, an array of strings, or an
/// array of objects whose own fields are scalar.
pub enum FieldVal {
    Sc(Scalar),
    Strs(Vec<String>),
    Objs(Vec<Vec<(String, Scalar)>>),
}

/// The mathematical image of a [`FieldVal`].
pub enum FieldValV {
    Sc(ScalarV),
    Strs(Seq<Seq<char>>),
    Objs(Seq<Seq<(Seq<char>, ScalarV)>>),
}

impl View for FieldVal {
    type V = FieldValV;

    open spec fn view(&self) -> FieldValV {
        match self {
            FieldVal::Sc(sc) => FieldValV::Sc(sc@),
            FieldVal::Strs(v) => FieldValV::Strs(v@.map_values(|x: String| x@)),
            FieldVal::Objs(v) => FieldValV::Objs(
                v@.map_values(|o: Vec<(String, Scalar)>| fields_view(o@)),
            ),
        }
    }
}

/// The view of a whole document object.
pub open spec fn doc_view(fs: Seq<(String, FieldVal)>) -> Seq<(Seq<char>, FieldValV)> {
    fs.map_values(|p: (String, FieldVal)| (p.0@, p.1@))
}

/// Reads the members of an object of scalar fields, from the first key to
/// just past the closing brace. A member whose value is bracketed is passed
/// over and dropped; a scalar member is kept in order.
pub open spec fn spec_inner_members(s: Seq<u8>, i: int) -> Option<
    (Seq<(Seq<char>, ScalarV)>, int),
>
    decreases s.len() - i
    when 0 <= i
{
    if i >= s.len() || s[i] != QUOTE {
        None
    } else {
        match spec_str_body(s, i + 1) {
            None => None,
            Some((key, j)) => {
                let c = spec_skip_ws(s, j);
                if j <= i || c >= s.len() || s[c] != COLON {
                    None
                } else {
                    let v = spec_skip_ws(s, c + 1);
                    let val = if v < s.len() && (s[v] == LBRACK || s[v] == LBRACE) {
                        match spec_skip_value(s, v) {
                            Some(j2) => Some((Option::<ScalarV>::None, j2)),
                            None => None,
                        }
                    } else {
                        match spec_scalar(s, v) {
                            Some((sc, j2)) => Some((Some(sc), j2)),
                            None => None,
                        }
                    };
                    match val {
                        None => None,
                        Some((kept, j2)) => {
                            let e = spec_skip_ws(s, j2);
                            if e < s.len() && s[e] == COMMA {
                                let n = spec_skip_ws(s, e + 1);
                                if n <= i || n > s.len() {
                                    None
                                } else {
                                    match spec_inner_members(s, n) {
                                        None => None,
                                        Some((rest, end)) => match kept {
                                            Some(sc) => Some((seq![(key, sc)] + rest, end)),
                                            None => Some((rest, end)),
                                        },
                                    }
                                }
                            } else if e < s.len() && s[e] == RBRACE {
                                match kept {
                                    Some(sc) => Some((seq![(key, sc)], e + 1)),
                                    None => Some((Seq::empty(), e + 1)),
                                }
                            } else {
                                None
                            }
                        },
                    }
                }
            },
        }
    }
}

/// Reads an object of scalar fields from its opening brace.
pub open spec fn spec_inner_object(s: Seq<u8>, i: int) -> Option<(Seq<(Seq<char>, ScalarV)>, int)> {
    if 0 <= i < s.len() && s[i] == LBRACE {
        let k = spec_skip_ws(s, i + 1);
        if k < s.len() && s[k] == RBRACE {
            Some((Seq::empty(), k + 1))
        } else {
            spec_inner_members(s, k)
        }
    } else {
        None
    }
}

/// Reads the members of an object of scalar fields, as
/// [`spec_inner_members`] does.
pub fn inner_members(s: &[u8], i: usize) -> (r: Option<(Vec<(String, Scalar)>, usize)>)
    requires
        i <= s@.len(),
        s@.len() < usize::MAX,
    ensures
        match r {
            Some(p) => spec_inner_members(s@, i as int) == Some((fields_view(p.0@), p.1 as int))
                && i < p.1 <= s@.len(),
            None => spec_inner_members(s@, i as int) is None,
        },
    decreases s@.len() - i,
{
    if i >= s.len() || s[i] != QUOTE {
        return None;
    }
    let (key, j) = match str_body(s, i + 1) {
        Some(p) => p,
        None => {
            return None;
        },
    };
    let c = skip_ws(s, j);
    if c >= s.len() || s[c] != COLON {
        return None;
    }
    let v = skip_ws(s, c + 1);
    let (kept, j2): (Option<Scalar>, usize) = if v < s.len() && (s[v] == LBRACK || s[v]
        == LBRACE) {
        match skip_value(s, v) {
            Some(j2) => (None, j2),
            None => {
                return None;
            },
        }
    } else {
        match scalar(s, v) {
            Some((sc, j2)) => (Some(sc), j2),
            None => {
                return None;
            },
        }
    };
    let e = skip_ws(s, j2);
    if e < s.len() && s[e] == COMMA {
        let n = skip_ws(s, e + 1);
        if n <= i {
            return None;
        }
        match inner_members(s, n) {
            None => None,
            Some((rest, end)) => match kept {
                Some(sc) => {
                    let mut out = rest;
                    proof {
                        assert(fields_view(out@.insert(0, (key, sc))) =~= seq![(key@, sc@)]
                            + fields_view(out@));
                    }
                    out.insert(0, (key, sc));
                    Some((out, end))
                },
                None => Some((rest, end)),
            },
        }
    } else if e < s.len() && s[e] == RBRACE {
        match kept {
            Some(sc) => {
                let mut out: Vec<(String, Scalar)> = Vec::new();
                proof {
                    assert(fields_view(out@.insert(0, (key, sc))) =~= seq![(key@, sc@)]);
                }
                out.insert(0, (key, sc));
                Some((out, e + 1))
            },
            None => {
                let out: Vec<(String, Scalar)> = Vec::new();
                proof {
                    assert(fields_view(out@) =~= Seq::<(Seq<char>, ScalarV)>::empty());
                }
                Some((out, e + 1))
            },
        }
    } else {
        None
    }
}

/// Reads an object of scalar fields, as [`spec_inner_object`] does.
pub fn inner_object(s: &[u8], i: usize) -> (r: Option<(Vec<(String, Scalar)>, usize)>)
    requires
        i <= s@.len(),
        s@.len() < usize::MAX,
    ensures
        match r {
            Some(p) => spec_inner_object(s@, i as int) == Some((fields_view(p.0@), p.1 as int))
                && i < p.1 <= s@.len(),
            None => spec_inner_object(s@, i as int) is None,
        },
{
    if i >= s.len() || s[i] != LBRACE {
        return None;
    }
    let k = skip_ws(s, i + 1);
    if k < s.len() && s[k] == RBRACE {
        let out: Vec<(String, Scalar)> = Vec::new();
        proof {
            assert(fields_view(out@) =~= Seq::<(Seq<char>, ScalarV)>::empty());
        }
        return Some((out, k + 1));
    }
    inner_members(s, k)
}

/// Reads the elements of an array of scalar-field objects, from the first
/// opening brace to just past the closing bracket.
pub open spec fn spec_obj_items(s: Seq<u8>, i: int) -> Option<(Seq<Seq<(Seq<char>, ScalarV)>>, int)>
    decreases s.len() - i
    when 0 <= i
{
    match spec_inner_object(s, i) {
        None => None,
        Some((o, j)) => {
            let e = spec_skip_ws(s, j);
            if e < s.len() && s[e] == COMMA {
                let n = spec_skip_ws(s, e + 1);
                if n <= i || n > s.len() {
                    None
                } else {
                    match spec_obj_items(s, n) {
                        None => None,
                        Some((rest, end)) => Some((seq![o] + rest, end)),
                    }
                }
            } else if e < s.len() && s[e] == RBRACK {
                Some((seq![o], e + 1))
            } else {
                None
            }
        },
    }
}

/// Reads the elements of an array of strings, from the first quote to just
/// past the closing bracket.
pub open spec fn spec_str_items(s: Seq<u8>, i: int) -> Option<(Seq<Seq<char>>, int)>
    decreases s.len() - i
    when 0 <= i
{
    if i >= s.len() || s[i] != QUOTE {
        None
    } else {
        match spec_str_body(s, i + 1) {
            None => None,
            Some((v, j)) => {
                let e = spec_skip_ws(s, j);
                if e < s.len() && s[e] == COMMA {
                    let n = spec_skip_ws(s, e + 1);
                    if n <= i || n > s.len() {
                        None
                    } else {
                        match spec_str_items(s, n) {
                            None => None,
                            Some((rest, end)) => Some((seq![v] + rest, end)),
                        }
                    }
                } else if e < s.len() && s[e] == RBRACK {
                    Some((seq![v], e + 1))
                } else {
                    None
                }
            },
        }
    }
}

/// Reads an array value from its opening bracket: an empty array counts as
/// an empty array of strings; otherwise the first element decides between
/// an array of strings and an array of scalar-field objects.
pub open spec fn spec_array(s: Seq<u8>, i: int) -> Option<(FieldValV, int)> {
    if 0 <= i < s.len() && s[i] == LBRACK {
        let k = spec_skip_ws(s, i + 1);
        if k < s.len() && s[k] == RBRACK {
            Some((FieldValV::Strs(Seq::empty()), k + 1))
        } else if k < s.len() && s[k] == QUOTE {
            match spec_str_items(s, k) {
                Some((items, j)) => Some((FieldValV::Strs(items), j)),
                None => None,
            }
        } else if k < s.len() && s[k] == LBRACE {
            match spec_obj_items(s, k) {
                Some((items, j)) => Some((FieldValV::Objs(items), j)),
                None => None,
            }
        } else {
            None
        }
    } else {
        None
    }
}

/// Reads one field value: an array it understands, a scalar, or — for a
/// nested object or an array of another shape — a pass-over yielding no
/// kept value.
pub open spec fn spec_field_val(s: Seq<u8>, i: int) -> Option<(Option<FieldValV>, int)> {
    if i < 0 || i >= s.len() {
        None
    } else if s[i] == LBRACK {
        match spec_array(s, i) {
            Some((fv, j)) => Some((Some(fv), j)),
            None => match spec_skip_value(s, i) {
                Some(j) => Some((Option::<FieldValV>::None, j)),
                None => None,
            },
        }
    } else if s[i] == LBRACE {
        match spec_skip_value(s, i) {
            Some(j) => Some((Option::<FieldValV>::None, j)),
            None => None,
        }
    } else {
        match spec_scalar(s, i) {
            Some((sc, j)) => Some((Some(FieldValV::Sc(sc)), j)),
            None => None,
        }
    }
}

/// Reads the members of a document object, dropping passed-over fields.
pub open spec fn spec_members(s: Seq<u8>, i: int) -> Option<(Seq<(Seq<char>, FieldValV)>, int)>
    decreases s.len() - i
    when 0 <= i
{
    if i >= s.len() || s[i] != QUOTE {
        None
    } else {
        match spec_str_body(s, i + 1) {
            None => None,
            Some((key, j)) => {
                let c = spec_skip_ws(s, j);
                if j <= i || c >= s.len() || s[c] != COLON {
                    None
                } else {
                    let v = spec_skip_ws(s, c + 1);
                    match spec_field_val(s, v) {
                        None => None,
                        Some((kept, j2)) => {
                            if j2 <= i || j2 > s.len() {
                                None
                            } else {
                                let e = spec_skip_ws(s, j2);
                                if e < s.len() && s[e] == COMMA {
                                    let n = spec_skip_ws(s, e + 1);
                                    if n <= i || n > s.len() {
                                        None
                                    } else {
                                        match spec_members(s, n) {
                                            None => None,
                                            Some((rest, end)) => match kept {
                                                Some(fv) => Some((seq![(key, fv)] + rest, end)),
                                                None => Some((rest, end)),
                                            },
                                        }
                                    }
                                } else if e < s.len() && s[e] == RBRACE {
                                    match kept {
                                        Some(fv) => Some((seq![(key, fv)], e + 1)),
                                        None => Some((Seq::empty(), e + 1)),
                                    }
                                } else {
                                    None
                                }
                            }
                        },
                    }
                }
            },
        }
    }
}

/// Reads a whole document: one object, surrounded by whitespace only.
pub open spec fn spec_doc_object(s: Seq<u8>) -> Option<Seq<(Seq<char>, FieldValV)>> {
    let i = spec_skip_ws(s, 0);
    if i < s.len() && s[i] == LBRACE {
        let k = spec_skip_ws(s, i + 1);
        let parsed = if k < s.len() && s[k] == RBRACE {
            Some((Seq::<(Seq<char>, FieldValV)>::empty(), k + 1))
        } else {
            spec_members(s, k)
        };
        match parsed {
            Some((fields, j)) => if spec_skip_ws(s, j) == s.len() {
                Some(fields)
            } else {
                None
            },
            None => None,
        }
    } else {
        None
    }
}

/// Reads a whole document: one array of scalar-field objects, surrounded by
/// whitespace only.
pub open spec fn spec_doc_objs(s: Seq<u8>) -> Option<Seq<Seq<(Seq<char>, ScalarV)>>> {
    let i = spec_skip_ws(s, 0);
    if i < s.len() && s[i] == LBRACK {
        let k = spec_skip_ws(s, i + 1);
        let parsed = if k < s.len() && s[k] == RBRACK {
            Some((Seq::<Seq<(Seq<char>, ScalarV)>>::empty(), k + 1))
        } else {
            spec_obj_items(s, k)
        };
        match parsed {
            Some((items, j)) => if spec_skip_ws(s, j) == s.len() {
                Some(items)
            } else {
                None
            },
            None => None,
        }
    } else {
        None
    }
}

/// Reads array elements as [`spec_obj_items`] does.
pub fn obj_items(s: &[u8], i: usize) -> (r: Option<(Vec<Vec<(String, Scalar)>>, usize)>)
    requires
        i <= s@.len(),
        s@.len() < usize::MAX,
    ensures
        match r {
            Some(p) => spec_obj_items(s@, i as int) == Some(
                (p.0@.map_values(|o: Vec<(String, Scalar)>| fields_view(o@)), p.1 as int),
            ) && i < p.1 <= s@.len(),
            None => spec_obj_items(s@, i as int) is None,
        },
    decreases s@.len() - i,
{
    let (o, j) = match inner_object(s, i) {
        Some(p) => p,
        None => {
            return None;
        },
    };
    let e = skip_ws(s, j);
    if e < s.len() && s[e] == COMMA {
        let n = skip_ws(s, e + 1);
        if n <= i {
            return None;
        }
        match obj_items(s, n) {
            None => None,
            Some((rest, end)) => {
                let mut out = rest;
                proof {
                    assert(out@.insert(0, o).map_values(
                        |x: Vec<(String, Scalar)>| fields_view(x@),
                    ) =~= seq![fields_view(o@)] + out@.map_values(
                        |x: Vec<(String, Scalar)>| fields_view(x@),
                    ));
                }
                out.insert(0, o);
                Some((out, end))
            },
        }
    } else if e < s.len() && s[e] == RBRACK {
        let mut out: Vec<Vec<(String, Scalar)>> = Vec::new();
        proof {
            assert(out@.insert(0, o).map_values(|x: Vec<(String, Scalar)>| fields_view(x@))
                =~= seq![fields_view(o@)]);
        }
        out.insert(0, o);
        Some((out, e + 1))
    } else {
        None
    }
}

/// Reads array elements as [`spec_str_items`] does.
pub fn str_items(s: &[u8], i: usize) -> (r: Option<(Vec<String>, usize)>)
    requires
        i <= s@.len(),
        s@.len() < usize::MAX,
    ensures
        match r {
            Some(p) => spec_str_items(s@, i as int) == Some(
                (p.0@.map_values(|x: String| x@), p.1 as int),
            ) && i < p.1 <= s@.len(),
            None => spec_str_items(s@, i as int) is None,
        },
    decreases s@.len() - i,
{
    if i >= s.len() || s[i] != QUOTE {
        return None;
    }
    let (v, j) = match str_body(s, i + 1) {
        Some(p) => p,
        None => {
            return None;
        },
    };
    let e = skip_ws(s, j);
    if e < s.len() && s[e] == COMMA {
        let n = skip_ws(s, e + 1);
        if n <= i {
            return None;
        }
        match str_items(s, n) {
            None => None,
            Some((rest, end)) => {
                let mut out = rest;
                proof {
                    assert(out@.insert(0, v).map_values(|x: String| x@) =~= seq![v@]
                        + out@.map_values(|x: String| x@));
                }
                out.insert(0, v);
                Some((out, end))
            },
        }
    } else if e < s.len() && s[e] == RBRACK {
        let mut out: Vec<String> = Vec::new();
        proof {
            assert(out@.insert(0, v).map_values(|x: String| x@) =~= seq![v@]);
        }
        out.insert(0, v);
        Some((out, e + 1))
    } else {
        None
    }
}

/// Reads an array value as [`spec_array`] does.
pub fn array(s: &[u8], i: usize) -> (r: Option<(FieldVal, usize)>)
    requires
        i <= s@.len(),
        s@.len() < usize::MAX,
    ensures
        match r {
            Some(p) => spec_array(s@, i as int) == Some((p.0@, p.1 as int)) && i < p.1 <= s@.len(),
            None => spec_array(s@, i as int) is None,
        },
{
    if i >= s.len() || s[i] != LBRACK {
        return None;
    }
    let k = skip_ws(s, i + 1);
    if k < s.len() && s[k] == RBRACK {
        let out: Vec<String> = Vec::new();
        proof {
            assert(out@.map_values(|x: String| x@) =~= Seq::<Seq<char>>::empty());
        }
        Some((FieldVal::Strs(out), k + 1))
    } else if k < s.len() && s[k] == QUOTE {
        match str_items(s, k) {
            Some((items, j)) => Some((FieldVal::Strs(items), j)),
            None => None,
        }
    } else if k < s.len() && s[k] == LBRACE {
        match obj_items(s, k) {
            Some((items, j)) => Some((FieldVal::Objs(items), j)),
            None => None,
        }
    } else {
        None
    }
}

/// Reads one field value as [`spec_field_val`] does.
pub fn field_val(s: &[u8], i: usize) -> (r: Option<(Option<FieldVal>, usize)>)
    requires
        i <= s@.len(),
        s@.len() < usize::MAX,
    ensures
        match r {
            Some(p) => (match p.0 {
                Some(fv) => spec_field_val(s@, i as int) == Some(
                    (Some(fv@), p.1 as int),
                ),
                None => spec_field_val(s@, i as int) == Some(
                    (Option::<FieldValV>::None, p.1 as int),
                ),
            }) && i < p.1 <= s@.len(),
            None => spec_field_val(s@, i as int) is None,
        },
{
    if i >= s.len() {
        return None;
    }
    let b = s[i];
    if b == LBRACK {
        match array(s, i) {
            Some((fv, j)) => Some((Some(fv), j)),
            None => match skip_value(s, i) {
                Some(j) => Some((None, j)),
                None => None,
            },
        }
    } else if b == LBRACE {
        match skip_value(s, i) {
            Some(j) => Some((None, j)),
            None => None,
        }
    } else {
        match scalar(s, i) {
            Some((sc, j)) => Some((Some(FieldVal::Sc(sc)), j)),
            None => None,
        }
    }
}

/// Reads document-object members as [`spec_members`] does.
pub fn members(s: &[u8], i: usize) -> (r: Option<(Vec<(String, FieldVal)>, usize)>)
    requires
        i <= s@.len(),
        s@.len() < usize::MAX,
    ensures
        match r {
            Some(p) => spec_members(s@, i as int) == Some((doc_view(p.0@), p.1 as int)) && i < p.1
                <= s@.len(),
            None => spec_members(s@, i as int) is None,
        },
    decreases s@.len() - i,
{
    if i >= s.len() || s[i] != QUOTE {
        return None;
    }
    let (key, j) = match str_body(s, i + 1) {
        Some(p) => p,
        None => {
            return None;
        },
    };
    let c = skip_ws(s, j);
    if c >= s.len() || s[c] != COLON {
        return None;
    }
    let v = skip_ws(s, c + 1);
    let (kept, j2) = match field_val(s, v) {
        Some(p) => p,
        None => {
            return None;
        },
    };
    let e = skip_ws(s, j2);
    if e < s.len() && s[e] == COMMA {
        let n = skip_ws(s, e + 1);
        if n <= i {
            return None;
        }
        match members(s, n) {
            None => None,
            Some((rest, end)) => match kept {
                Some(fv) => {
                    let mut out = rest;
                    proof {
                        assert(doc_view(out@.insert(0, (key, fv))) =~= seq![(key@, fv@)] + doc_view(
                            out@,
                        ));
                    }
                    out.insert(0, (key, fv));
                    Some((out, end))
                },
                None => Some((rest, end)),
            },
        }
    } else if e < s.len() && s[e] == RBRACE {
        match kept {
            Some(fv) => {
                let mut out: Vec<(String, FieldVal)> = Vec::new();
                proof {
                    assert(doc_view(out@.insert(0, (key, fv))) =~= seq![(key@, fv@)]);
                }
                out.insert(0, (key, fv));
                Some((out, e + 1))
            },
            None => {
                let out: Vec<(String, FieldVal)> = Vec::new();
                proof {
                    assert(doc_view(out@) =~= Seq::<(Seq<char>, FieldValV)>::empty());
                }
                Some((out, e + 1))
            },
        }
    } else {
        None
    }
}

/// Reads one object with document-style fields from its opening brace.
pub open spec fn spec_object(s: Seq<u8>, i: int) -> Option<(Seq<(Seq<char>, FieldValV)>, int)> {
    if 0 <= i < s.len() && s[i] == LBRACE {
        let k = spec_skip_ws(s, i + 1);
        if k < s.len() && s[k] == RBRACE {
            Some((Seq::empty(), k + 1))
        } else {
            spec_members(s, k)
        }
    } else {
        None
    }
}

/// Reads one object as [`spec_object`] does.
pub fn object(s: &[u8], i: usize) -> (r: Option<(Vec<(String, FieldVal)>, usize)>)
    requires
        i <= s@.len(),
        s@.len() < usize::MAX,
    ensures
        match r {
            Some(p) => spec_object(s@, i as int) == Some((doc_view(p.0@), p.1 as int)) && i < p.1
                <= s@.len(),
            None => spec_object(s@, i as int) is None,
        },
{
    if i >= s.len() || s[i] != LBRACE {
        return None;
    }
    let k = skip_ws(s, i + 1);
    if k < s.len() && s[k] == RBRACE {
        let out: Vec<(String, FieldVal)> = Vec::new();
        proof {
            assert(doc_view(out@) =~= Seq::<(Seq<char>, FieldValV)>::empty());
        }
        return Some((out, k + 1));
    }
    members(s, k)
}

/// Reads the elements of an array of document-style objects, from the first
/// opening brace to just past the closing bracket.
pub open spec fn spec_docobj_items(s: Seq<u8>, i: int) -> Option<
    (Seq<Seq<(Seq<char>, FieldValV)>>, int),
>
    decreases s.len() - i
    when 0 <= i
{
    match spec_object(s, i) {
        None => None,
        Some((o, j)) => {
            if j <= i || j > s.len() {
                None
            } else {
                let e = spec_skip_ws(s, j);
                if e < s.len() && s[e] == COMMA {
                    let n = spec_skip_ws(s, e + 1);
                    if n <= i || n > s.len() {
                        None
                    } else {
                        match spec_docobj_items(s, n) {
                            None => None,
                            Some((rest, end)) => Some((seq![o] + rest, end)),
                        }
                    }
                } else if e < s.len() && s[e] == RBRACK {
                    Some((seq![o], e + 1))
                } else {
                    None
                }
            }
        },
    }
}

/// Reads array elements as [`spec_docobj_items`] does.
pub fn docobj_items(s: &[u8], i: usize) -> (r: Option<(Vec<Vec<(String, FieldVal)>>, usize)>)
    requires
        i <= s@.len(),
        s@.len() < usize::MAX,
    ensures
        match r {
            Some(p) => spec_docobj_items(s@, i as int) == Some(
                (p.0@.map_values(|o: Vec<(String, FieldVal)>| doc_view(o@)), p.1 as int),
            ) && i < p.1 <= s@.len(),
            None => spec_docobj_items(s@, i as int) is None,
        },
    decreases s@.len() - i,
{
    let (o, j) = match object(s, i) {
        Some(p) => p,
        None => {
            return None;
        },
    };
    let e = skip_ws(s, j);
    if e < s.len() && s[e] == COMMA {
        let n = skip_ws(s, e + 1);
        if n <= i {
            return None;
        }
        match docobj_items(s, n) {
            None => None,
            Some((rest, end)) => {
                let mut out = rest;
                proof {
                    assert(out@.insert(0, o).map_values(
                        |x: Vec<(String, FieldVal)>| doc_view(x@),
                    ) =~= seq![doc_view(o@)] + out@.map_values(
                        |x: Vec<(String, FieldVal)>| doc_view(x@),
                    ));
                }
                out.insert(0, o);
                Some((out, end))
            },
        }
    } else if e < s.len() && s[e] == RBRACK {
        let mut out: Vec<Vec<(String, FieldVal)>> = Vec::new();
        proof {
            assert(out@.insert(0, o).map_values(|x: Vec<(String, FieldVal)>| doc_view(x@))
                =~= seq![doc_view(o@)]);
        }
        out.insert(0, o);
        Some((out, e + 1))
    } else {
        None
    }
}

/// Reads the members of the device-listing document: the one field named
/// `blockdevices` must hold an array of objects, which is the result; every
/// other member is passed over.
pub open spec fn spec_listing_members(s: Seq<u8>, i: int) -> Option<
    (Option<Seq<Seq<(Seq<char>, FieldValV)>>>, int),
>
    decreases s.len() - i
    when 0 <= i
{
    if i >= s.len() || s[i] != QUOTE {
        None
    } else {
        match spec_str_body(s, i + 1) {
            None => None,
            Some((key, j)) => {
                let c = spec_skip_ws(s, j);
                if j <= i || c >= s.len() || s[c] != COLON {
                    None
                } else {
                    let v = spec_skip_ws(s, c + 1);
                    let got: Option<(Option<Seq<Seq<(Seq<char>, FieldValV)>>>, int)> = if key
                        == "blockdevices"@ && v < s.len() && s[v] == LBRACK {
                        let k2 = spec_skip_ws(s, v + 1);
                        if k2 < s.len() && s[k2] == RBRACK {
                            Some((Some(Seq::empty()), k2 + 1))
                        } else {
                            match spec_docobj_items(s, k2) {
                                Some((items, j2)) => Some((Some(items), j2)),
                                None => None,
                            }
                        }
                    } else {
                        match spec_skip_value(s, v) {
                            Some(j2) => Some((Option::<Seq<Seq<(Seq<char>, FieldValV)>>>::None, j2)),
                            None => None,
                        }
                    };
                    match got {
                        None => None,
                        Some((found, j2)) => {
                            if j2 <= i || j2 > s.len() {
                                None
                            } else {
                                let e = spec_skip_ws(s, j2);
                                if e < s.len() && s[e] == COMMA {
                                    let n = spec_skip_ws(s, e + 1);
                                    if n <= i || n > s.len() {
                                        None
                                    } else {
                                        match spec_listing_members(s, n) {
                                            None => None,
                                            Some((found2, end)) => Some(
                                                (
                                                    if found is Some {
                                                        found
                                                    } else {
                                                        found2
                                                    },
                                                    end,
                                                ),
                                            ),
                                        }
                                    }
                                } else if e < s.len() && s[e] == RBRACE {
                                    Some((found, e + 1))
                                } else {
                                    None
                                }
                            }
                        },
                    }
                }
            },
        }
    }
}

/// Reads device-listing members as [`spec_listing_members`] does.
pub fn listing_members(s: &[u8], i: usize) -> (r: Option<
    (Option<Vec<Vec<(String, FieldVal)>>>, usize),
>)
    requires
        i <= s@.len(),
        s@.len() < usize::MAX,
    ensures
        match r {
            Some(p) => (match p.0 {
                Some(items) => spec_listing_members(s@, i as int) == Some(
                    (
                        Some(items@.map_values(|o: Vec<(String, FieldVal)>| doc_view(o@))),
                        p.1 as int,
                    ),
                ),
                None => spec_listing_members(s@, i as int) == Some(
                    (Option::<Seq<Seq<(Seq<char>, FieldValV)>>>::None, p.1 as int),
                ),
            }) && i < p.1 <= s@.len(),
            None => spec_listing_members(s@, i as int) is None,
        },
    decreases s@.len() - i,
{
    if i >= s.len() || s[i] != QUOTE {
        return None;
    }
    let (key, j) = match str_body(s, i + 1) {
        Some(p) => p,
        None => {
            return None;
        },
    };
    let c = skip_ws(s, j);
    if c >= s.len() || s[c] != COLON {
        return None;
    }
    let v = skip_ws(s, c + 1);
    let (found, j2): (Option<Vec<Vec<(String, FieldVal)>>>, usize) = if crate::strutil::str_eq(
        key.as_str(),
        "blockdevices",
    ) && v < s.len() && s[v] == LBRACK {
        let k2 = skip_ws(s, v + 1);
        if k2 < s.len() && s[k2] == RBRACK {
            let out: Vec<Vec<(String, FieldVal)>> = Vec::new();
            proof {
                assert(out@.map_values(|o: Vec<(String, FieldVal)>| doc_view(o@)) =~= Seq::<
                    Seq<(Seq<char>, FieldValV)>,
                >::empty());
            }
            (Some(out), k2 + 1)
        } else {
            match docobj_items(s, k2) {
                Some((items, j2)) => (Some(items), j2),
                None => {
                    return None;
                },
            }
        }
    } else {
        match skip_value(s, v) {
            Some(j2) => (None, j2),
            None => {
                return None;
            },
        }
    };
    let e = skip_ws(s, j2);
    if e < s.len() && s[e] == COMMA {
        let n = skip_ws(s, e + 1);
        if n <= i {
            return None;
        }
        match listing_members(s, n) {
            None => None,
            Some((found2, end)) => match found {
                Some(items) => Some((Some(items), end)),
                None => Some((found2, end)),
            },
        }
    } else if e < s.len() && s[e] == RBRACE {
        Some((found, e + 1))
    } else {
        None
    }
}

/// Reads a whole device-listing document: one object whose `blockdevices`
/// field holds the devices; a document without that field is refused.
pub open spec fn spec_listing_doc(s: Seq<u8>) -> Option<Seq<Seq<(Seq<char>, FieldValV)>>> {
    let i = spec_skip_ws(s, 0);
    if i < s.len() && s[i] == LBRACE {
        let k = spec_skip_ws(s, i + 1);
        let parsed = if k < s.len() && s[k] == RBRACE {
            Some((Option::<Seq<Seq<(Seq<char>, FieldValV)>>>::None, k + 1))
        } else {
            spec_listing_members(s, k)
        };
        match parsed {
            Some((found, j)) => if spec_skip_ws(s, j) == s.len() {
                found
            } else {
                None
            },
            None => None,
        }
    } else {
        None
    }
}

/// Reads a device-listing document as [`spec_listing_doc`] does.
pub fn listing_doc(s: &[u8]) -> (r: Option<Vec<Vec<(String, FieldVal)>>>)
    requires
        s@.len() < usize::MAX,
    ensures
        match r {
            Some(items) => spec_listing_doc(s@) == Some(
                items@.map_values(|o: Vec<(String, FieldVal)>| doc_view(o@)),
            ),
            None => spec_listing_doc(s@) is None,
        },
{
    let i = skip_ws(s, 0);
    if i >= s.len() || s[i] != LBRACE {
        return None;
    }
    let k = skip_ws(s, i + 1);
    if k < s.len() && s[k] == RBRACE {
        return None;
    }
    match listing_members(s, k) {
        Some((found, j)) => {
            if skip_ws(s, j) == s.len() {
                found
            } else {
                None
            }
        },
        None => None,
    }
}

/// Reads a whole object document as [`spec_doc_object`] does.
pub fn doc_object(s: &[u8]) -> (r: Option<Vec<(String, FieldVal)>>)
    requires
        s@.len() < usize::MAX,
    ensures
        match r {
            Some(fields) => spec_doc_object(s@) == Some(doc_view(fields@)),
            None => spec_doc_object(s@) is None,
        },
{
    let i = skip_ws(s, 0);
    if i >= s.len() || s[i] != LBRACE {
        return None;
    }
    let k = skip_ws(s, i + 1);
    let parsed: Option<(Vec<(String, FieldVal)>, usize)> = if k < s.len() && s[k] == RBRACE {
        let out: Vec<(String, FieldVal)> = Vec::new();
        proof {
            assert(doc_view(out@) =~= Seq::<(Seq<char>, FieldValV)>::empty());
        }
        Some((out, k + 1))
    } else {
        members(s, k)
    };
    match parsed {
        Some((fields, j)) => {
            if skip_ws(s, j) == s.len() {
                Some(fields)
            } else {
                None
            }
        },
        None => None,
    }
}

/// Reads a whole array-of-objects document as [`spec_doc_objs`] does.
pub fn doc_objs(s: &[u8]) -> (r: Option<Vec<Vec<(String, Scalar)>>>)
    requires
        s@.len() < usize::MAX,
    ensures
        match r {
            Some(items) => spec_doc_objs(s@) == Some(
                items@.map_values(|o: Vec<(String, Scalar)>| fields_view(o@)),
            ),
            None => spec_doc_objs(s@) is None,
        },
{
    let i = skip_ws(s, 0);
    if i >= s.len() || s[i] != LBRACK {
        return None;
    }
    let k = skip_ws(s, i + 1);
    let parsed: Option<(Vec<Vec<(String, Scalar)>>, usize)> = if k < s.len() && s[k] == RBRACK {
        let out: Vec<Vec<(String, Scalar)>> = Vec::new();
        proof {
            assert(out@.map_values(|o: Vec<(String, Scalar)>| fields_view(o@)) =~= Seq::<
                Seq<(Seq<char>, ScalarV)>,
            >::empty());
        }
        Some((out, k + 1))
    } else {
        obj_items(s, k)
    };
    match parsed {
        Some((items, j)) => {
            if skip_ws(s, j) == s.len() {
                Some(items)
            } else {
                None
            }
        },
        None => None,
    }
}

} // verus!
