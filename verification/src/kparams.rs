//! Boot-parameter parsing: a shell-quoted parameter string becomes a
//! key-to-optional-value map, later entries for a key shadowing earlier
//! ones.

use vstd::prelude::*;

use crate::strutil;
use crate::strutil::spec_find;

verus! {

/// What shlex::split returns: the shell words of the text, or nothing when
/// its quoting is unbalanced. A function of the text alone.
pub uninterp spec fn shell_words(s: Seq<char>) -> Option<Seq<Seq<char>>>;

/// Relies on shlex::split for shell-style word splitting.
#[verifier::external_body]
pub(crate) fn shlex_split(s: &str) -> (r: Option<Vec<String>>)
    ensures
        r matches Some(v) ==> shell_words(s@) == Some(v.deep_view()),
        r is None ==> shell_words(s@) is None,
{
    shlex::split(s)
}

/// The key and optional value a single word carries: the part before the
/// first `=`, and the part after it when one stands there.
pub open spec fn spec_param_entry(w: Seq<char>) -> (Seq<char>, Option<Seq<char>>) {
    match spec_find(w, '=', 0) {
        Some(i) => (w.subrange(0, i), Some(w.subrange(i + 1, w.len() as int))),
        None => (w, Option::<Seq<char>>::None),
    }
}

/// The value the last word with key `k` carries, scanning from the end.
pub open spec fn spec_words_get(words: Seq<Seq<char>>, k: Seq<char>) -> Option<Option<Seq<char>>>
    decreases words.len(),
{
    if words.len() == 0 {
        None
    } else {
        let e = spec_param_entry(words.last());
        if e.0 == k {
            Some(e.1)
        } else {
            spec_words_get(words.drop_last(), k)
        }
    }
}

/// The view of parameter entries.
pub open spec fn entries_view(es: Seq<(String, Option<String>)>) -> Seq<
    (Seq<char>, Option<Seq<char>>),
> {
    es.map_values(
        |p: (String, Option<String>)|
            (
                p.0@,
                match p.1 {
                    Some(v) => Some(v@),
                    None => None,
                },
            ),
    )
}

/// The entry for `k` whose position is last, as a map lookup would see it.
pub open spec fn spec_lookup_last(
    es: Seq<(Seq<char>, Option<Seq<char>>)>,
    k: Seq<char>,
) -> Option<Option<Seq<char>>>
    decreases es.len(),
{
    if es.len() == 0 {
        None
    } else if es.last().0 == k {
        Some(es.last().1)
    } else {
        spec_lookup_last(es.drop_last(), k)
    }
}

/// Parsed boot parameters: keys with optional values, later entries for a
/// key shadowing earlier ones.
pub struct Params {
    pub entries: Vec<(String, Option<String>)>,
}

impl Params {
    /// The value bound to `k`: absent, present without a value, or present
    /// with one.
    pub open spec fn spec_get(&self, k: Seq<char>) -> Option<Option<Seq<char>>> {
        spec_lookup_last(entries_view(self.entries@), k)
    }

    pub fn new() -> (r: Params)
        ensures
            r.entries@.len() == 0,
    {
        Params { entries: Vec::new() }
    }

    /// Adds one entry, shadowing earlier entries for the same key.
    pub fn insert(&mut self, k: String, v: Option<String>)
        ensures
            final(self).entries@ == old(self).entries@.push((k, v)),
    {
        self.entries.push((k, v));
    }

    pub fn len(&self) -> (r: usize)
        ensures
            r == self.entries@.len(),
    {
        self.entries.len()
    }

    /// Looks `k` up, as [`Params::spec_get`] reads the entries.
    pub fn get(&self, k: &str) -> (r: Option<Option<String>>)
        ensures
            match r {
                None => self.spec_get(k@) is None,
                Some(ov) => match ov {
                    None => self.spec_get(k@) == Some(Option::<Seq<char>>::None),
                    Some(v) => self.spec_get(k@) == Some(Some(v@)),
                },
            },
    {
        let ghost es = entries_view(self.entries@);
        let mut i: usize = self.entries.len();
        proof {
            assert(es.take(self.entries@.len() as int) =~= es);
        }
        while i > 0
            invariant
                i <= self.entries@.len(),
                es == entries_view(self.entries@),
                spec_lookup_last(es, k@) == spec_lookup_last(es.take(i as int), k@),
            decreases i,
        {
            i = i - 1;
            proof {
                assert(es.take(i + 1).last() == es[i as int]);
                assert(es.take(i + 1).drop_last() =~= es.take(i as int));
                assert(es[i as int] == (
                    self.entries@[i as int].0@,
                    match self.entries@[i as int].1 {
                        Some(v) => Some(v@),
                        None => None,
                    },
                ));
            }
            if strutil::str_eq(self.entries[i].0.as_str(), k) {
                return Some(
                    match &self.entries[i].1 {
                        Some(v) => Some(v.clone()),
                        None => None,
                    },
                );
            }
        }
        proof {
            assert(es.take(0) =~= Seq::<(Seq<char>, Option<Seq<char>>)>::empty());
        }
        None
    }
}

/// Splits a parameter text into words and each word at its first `=`. The
/// result answers lookups exactly as the word list read back to front does;
/// a text whose quoting is unbalanced is an error.
pub fn parse(s: &str) -> (r: Result<Params, String>)
    ensures
        r matches Ok(p) ==> ({
            &&& shell_words(s@) matches Some(words) && (forall|k: Seq<char>|
                #[trigger] p.spec_get(k) == spec_words_get(words, k)) && p.entries@.len()
                == words.len()
        }),
        r is Err ==> shell_words(s@) is None,
{
    let words = match shlex_split(s) {
        Some(w) => w,
        None => {
            return Err("failed to parse kernel params".to_owned());
        },
    };
    let mut out = Params::new();
    let mut i: usize = 0;
    proof {
        assert(words.deep_view().take(0) =~= Seq::<Seq<char>>::empty());
        assert(entries_view(out.entries@) =~= Seq::<(Seq<char>, Option<Seq<char>>)>::empty());
    }
    while i < words.len()
        invariant
            i <= words@.len(),
            words.deep_view() == shell_words(s@)->0,
            shell_words(s@) is Some,
            out.entries@.len() == i,
            forall|k: Seq<char>| #[trigger] spec_lookup_last(entries_view(out.entries@), k)
                == spec_words_get(words.deep_view().take(i as int), k),
        decreases words@.len() - i,
    {
        let w = &words[i];
        proof {
            strutil::lemma_find_bounds(w@, '=', 0);
        }
        let (key, value) = strutil::split_once_char(w.as_str(), '=');
        let ghost before = entries_view(out.entries@);
        out.insert(key, value);
        proof {
            let wordsv = words.deep_view();
            assert(wordsv[i as int] == words@[i as int]@);
            assert(entries_view(out.entries@) =~= before.push(
                (spec_param_entry(wordsv[i as int]).0, spec_param_entry(wordsv[i as int]).1),
            ));
            assert(wordsv.take(i + 1).last() == wordsv[i as int]);
            assert(wordsv.take(i + 1).drop_last() =~= wordsv.take(i as int));
            assert forall|k: Seq<char>|
                #[trigger] spec_lookup_last(entries_view(out.entries@), k) == spec_words_get(
                    wordsv.take(i + 1),
                    k,
                ) by {
                assert(spec_lookup_last(before, k) == spec_words_get(wordsv.take(i as int), k));
                assert(entries_view(out.entries@).drop_last() =~= before);
                assert(entries_view(out.entries@).last() == (
                    spec_param_entry(wordsv[i as int]).0,
                    spec_param_entry(wordsv[i as int]).1,
                ));
            }
        }
        i = i + 1;
    }
    proof {
        assert(words.deep_view().take(words@.len() as int) =~= words.deep_view());
    }
    Ok(out)
}

} // verus!
