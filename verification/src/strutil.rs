//! Verified string helpers: equality, concatenation, searching, splitting,
//! suffix stripping and decimal rendering, each with an exact contract over
//! `Seq<char>` views.

use vstd::prelude::*;
use vstd::string::*;

verus! {

/// The characters of a sequence of bytes read one byte per character.
pub open spec fn ascii_chars(bs: Seq<u8>) -> Seq<char> {
    bs.map_values(|b: u8| b as char)
}

/// Relies on std's String::push: appends one character.
pub assume_specification[ String::push ](s: &mut String, c: char)
    ensures
        final(s)@ == old(s)@.push(c),
;

pub fn str_eq(a: &str, b: &str) -> (r: bool)
    ensures
        r == (a@ == b@),
{
    a.to_owned() == b.to_owned()
}

pub fn concat2(a: &str, b: &str) -> (r: String)
    ensures
        r@ == a@ + b@,
{
    let mut s = a.to_owned();
    s.append(b);
    s
}

pub fn concat3(a: &str, b: &str, c: &str) -> (r: String)
    ensures
        r@ == a@ + b@ + c@,
{
    let mut s = a.to_owned();
    s.append(b);
    s.append(c);
    s
}

pub fn concat5(a: &str, b: &str, c: &str, d: &str, e: &str) -> (r: String)
    ensures
        r@ == a@ + b@ + c@ + d@ + e@,
{
    let mut s = a.to_owned();
    s.append(b);
    s.append(c);
    s.append(d);
    s.append(e);
    s
}

/// The first index at or after `from` where `c` occurs in `s`.
pub open spec fn spec_find(s: Seq<char>, c: char, from: int) -> Option<int>
    decreases s.len() - from
        when 0 <= from

{
    if from >= s.len() {
        None
    } else if s[from] == c {
        Some(from)
    } else {
        spec_find(s, c, from + 1)
    }
}

/// A found index lies in `s`, holds `c`, and is the first such index; when
/// nothing is found, `c` occurs nowhere at or after `from`.
pub proof fn lemma_find_bounds(s: Seq<char>, c: char, from: int)
    requires
        0 <= from,
    ensures
        spec_find(s, c, from) matches Some(i) ==> from <= i < s.len() && s[i] == c && (forall|
            j: int,
        |
            from <= j < i ==> s[j] != c),
        spec_find(s, c, from) is None ==> forall|j: int| from <= j < s.len() ==> s[j] != c,
    decreases s.len() - from,
{
    if from < s.len() && s[from] != c {
        lemma_find_bounds(s, c, from + 1);
    }
}

pub fn find_char(s: &str, c: char) -> (r: Option<usize>)
    ensures
        match r {
            Some(i) => spec_find(s@, c, 0) == Some(i as int),
            None => spec_find(s@, c, 0) is None,
        },
{
    let n = s.unicode_len();
    let mut i: usize = 0;
    while i < n
        invariant
            n == s@.len(),
            i <= n,
            spec_find(s@, c, 0) == spec_find(s@, c, i as int),
        decreases n - i,
    {
        if s.get_char(i) == c {
            return Some(i);
        }
        i = i + 1;
    }
    None
}

/// Splits `s` at the first occurrence of `c`: the part before it and, when
/// `c` occurs, the part after it.
pub fn split_once_char(s: &str, c: char) -> (r: (String, Option<String>))
    ensures
        match spec_find(s@, c, 0) {
            Some(i) => {
                &&& r.0@ == s@.subrange(0, i)
                &&& r.1 matches Some(rest) && rest@ == s@.subrange(i + 1, s@.len() as int)
            },
            None => r.0@ == s@ && r.1 is None,
        },
{
    let n = s.unicode_len();
    proof {
        lemma_find_bounds(s@, c, 0);
    }
    match find_char(s, c) {
        Some(i) => {
            let head = s.substring_char(0, i).to_owned();
            let tail = s.substring_char(i + 1, n).to_owned();
            (head, Some(tail))
        },
        None => (s.to_owned(), None),
    }
}

/// Whether `pat` occurs in `s` starting at `at`.
pub open spec fn match_at(s: Seq<char>, pat: Seq<char>, at: int) -> bool {
    0 <= at && at + pat.len() <= s.len() && s.subrange(at, at + pat.len() as int) == pat
}

/// The last index at or before `upto` where `pat` occurs in `s`.
pub open spec fn spec_rfind(s: Seq<char>, pat: Seq<char>, upto: int) -> Option<int>
    decreases upto + 1
        when upto < s.len()

{
    if upto < 0 {
        None
    } else if match_at(s, pat, upto) {
        Some(upto)
    } else {
        spec_rfind(s, pat, upto - 1)
    }
}

/// A found match really stands at its index.
pub proof fn lemma_rfind_bounds(s: Seq<char>, pat: Seq<char>, upto: int)
    requires
        upto < s.len(),
    ensures
        spec_rfind(s, pat, upto) matches Some(i) ==> 0 <= i <= upto && match_at(s, pat, i),
    decreases upto + 1,
{
    if upto >= 0 && !match_at(s, pat, upto) {
        lemma_rfind_bounds(s, pat, upto - 1);
    }
}

/// The last index where `pat` occurs in `s`, as with str::rfind.
pub fn rfind_sub(s: &str, pat: &str) -> (r: Option<usize>)
    ensures
        match r {
            Some(i) => spec_rfind(s@, pat@, s@.len() - 1) == Some(i as int),
            None => spec_rfind(s@, pat@, s@.len() - 1) is None,
        },
{
    let n = s.unicode_len();
    let m = pat.unicode_len();
    let mut i: usize = n;
    while i > 0
        invariant
            n == s@.len(),
            m == pat@.len(),
            i <= n,
            spec_rfind(s@, pat@, n - 1) == spec_rfind(s@, pat@, i - 1),
        decreases i,
    {
        i = i - 1;
        if m <= n - i {
            let cand = s.substring_char(i, i + m);
            if str_eq(cand, pat) {
                return Some(i);
            }
        }
    }
    None
}

/// `s` with every trailing copy of `suf` removed, as with
/// str::trim_end_matches.
pub open spec fn strip_all_suffix(s: Seq<char>, suf: Seq<char>) -> Seq<char>
    decreases s.len()
        when suf.len() > 0

{
    if s.len() >= suf.len() && s.subrange(s.len() - suf.len(), s.len() as int) == suf {
        strip_all_suffix(s.subrange(0, s.len() - suf.len()), suf)
    } else {
        s
    }
}

pub fn trim_end_matches(s: &str, suf: &str) -> (r: String)
    requires
        suf@.len() > 0,
    ensures
        r@ == strip_all_suffix(s@, suf@),
{
    let m = suf.unicode_len();
    let mut cur = s.to_owned();
    loop
        invariant
            m == suf@.len(),
            m > 0,
            strip_all_suffix(s@, suf@) == strip_all_suffix(cur@, suf@),
        decreases cur@.len(),
    {
        let n = cur.as_str().unicode_len();
        if n >= m {
            let tail = cur.as_str().substring_char(n - m, n);
            if str_eq(tail, suf) {
                let head = cur.as_str().substring_char(0, n - m).to_owned();
                cur = head;
                continue ;
            }
        }
        return cur;
    }
}

/// The decimal digits of `n`, most significant first.
pub open spec fn dec_chars(n: nat) -> Seq<char>
    decreases n,
{
    if n < 10 {
        seq![(((48 + n) as u8) as char)]
    } else {
        dec_chars(n / 10).push((((48 + n % 10) as u8) as char))
    }
}

/// Renders `n` in decimal.
pub fn u64_to_string(n: u64) -> (r: String)
    ensures
        r@ == dec_chars(n as nat),
{
    let mut digits: Vec<u8> = Vec::new();
    let mut m = n;
    proof {
        assert(dec_chars(n as nat) =~= dec_chars(n as nat) + ascii_chars(digits@));
    }
    loop
        invariant_except_break
            dec_chars(n as nat) == dec_chars(m as nat) + ascii_chars(digits@),
        ensures
            dec_chars(n as nat) == ascii_chars(digits@),
        decreases m,
    {
        let d: u8 = (m % 10) as u8 + 48;
        let rest = m / 10;
        proof {
            if m >= 10 {
                assert(dec_chars(m as nat) == dec_chars((m / 10) as nat).push(
                    (((48 + m as nat % 10) as u8) as char),
                ));
            }
            assert(ascii_chars(digits@.insert(0, d)) =~= seq![(d as char)] + ascii_chars(digits@));
        }
        digits.insert(0, d);
        if rest == 0 {
            proof {
                assert(m < 10);
                assert(dec_chars(m as nat) == seq![(((48 + m as nat) as u8) as char)]);
                assert(dec_chars(n as nat) =~= ascii_chars(digits@));
            }
            break ;
        }
        m = rest;
    }
    let mut out = String::new();
    let mut i: usize = 0;
    while i < digits.len()
        invariant
            i <= digits@.len(),
            out@ == ascii_chars(digits@.subrange(0, i as int)),
            dec_chars(n as nat) == ascii_chars(digits@),
        decreases digits@.len() - i,
    {
        let b = digits[i];
        out.push(b as char);
        proof {
            assert(ascii_chars(digits@.subrange(0, i + 1)) =~= ascii_chars(
                digits@.subrange(0, i as int),
            ).push(digits@[i as int] as char));
        }
        i = i + 1;
    }
    proof {
        assert(digits@.subrange(0, digits@.len() as int) =~= digits@);
    }
    out
}

/// The value of a sequence of decimal digit bytes, most significant first.
pub open spec fn dec_val(ds: Seq<u8>) -> nat
    decreases ds.len(),
{
    if ds.len() == 0 {
        0
    } else {
        dec_val(ds.drop_last()) * 10 + (if ds.last() >= 48 {
            (ds.last() - 48) as nat
        } else {
            0
        })
    }
}

} // verus!
