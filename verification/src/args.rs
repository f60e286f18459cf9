//! The argument map the boot-note writer reads: shell words become a map
//! from key to the list of values given for it, in order.

use vstd::prelude::*;

use crate::kparams::{shell_words, shlex_split, spec_param_entry};
use crate::strutil;

verus! {

/// The view of argument-map rows.
pub open spec fn amap_view(es: Seq<(String, Vec<String>)>) -> Seq<(Seq<char>, Seq<Seq<char>>)> {
    es.map_values(|p: (String, Vec<String>)| (p.0@, p.1.deep_view()))
}

/// Where the row for `k` stands, if anywhere.
pub open spec fn spec_key_idx(m: Seq<(Seq<char>, Seq<Seq<char>>)>, k: Seq<char>) -> Option<int>
    decreases m.len(),
{
    if m.len() == 0 {
        None
    } else if m[0].0 == k {
        Some(0int)
    } else {
        match spec_key_idx(m.drop_first(), k) {
            Some(i) => Some(i + 1),
            None => None,
        }
    }
}

/// A found row index lies in the map, carries `k`, and is the first such.
pub proof fn lemma_key_idx(m: Seq<(Seq<char>, Seq<Seq<char>>)>, k: Seq<char>)
    ensures
        spec_key_idx(m, k) matches Some(i) ==> 0 <= i < m.len() && m[i].0 == k && (forall|j: int|
            0 <= j < i ==> m[j].0 != k),
        spec_key_idx(m, k) is None ==> forall|j: int| 0 <= j < m.len() ==> m[j].0 != k,
    decreases m.len(),
{
    if m.len() > 0 && m[0].0 != k {
        lemma_key_idx(m.drop_first(), k);
        assert(forall|j: int| 0 < j < m.len() ==> m[j] == m.drop_first()[j - 1]);
    }
}

/// The values recorded for `k`.
pub open spec fn spec_amap_get(m: Seq<(Seq<char>, Seq<Seq<char>>)>, k: Seq<char>) -> Option<
    Seq<Seq<char>>,
> {
    match spec_key_idx(m, k) {
        Some(i) => Some(m[i].1),
        None => None,
    }
}

/// One word folded into the map: a fresh key opens a row (empty when the
/// word carries no value), a value for a known key is appended to its row,
/// and a bare known key changes nothing.
pub open spec fn spec_amap_step(
    m: Seq<(Seq<char>, Seq<Seq<char>>)>,
    w: Seq<char>,
) -> Seq<(Seq<char>, Seq<Seq<char>>)> {
    let e = spec_param_entry(w);
    match spec_key_idx(m, e.0) {
        None => match e.1 {
            Some(v) => m.push((e.0, seq![v])),
            None => m.push((e.0, Seq::empty())),
        },
        Some(i) => match e.1 {
            Some(v) => m.update(i, (e.0, m[i].1.push(v))),
            None => m,
        },
    }
}

/// The map a word list folds to.
pub open spec fn spec_amap(words: Seq<Seq<char>>) -> Seq<(Seq<char>, Seq<Seq<char>>)>
    decreases words.len(),
{
    if words.len() == 0 {
        Seq::empty()
    } else {
        spec_amap_step(spec_amap(words.drop_last()), words.last())
    }
}

/// A map from argument key to the values recorded for it.
pub struct ArgMap {
    pub entries: Vec<(String, Vec<String>)>,
}

impl ArgMap {
    pub fn new() -> (r: ArgMap)
        ensures
            r.entries@.len() == 0,
    {
        ArgMap { entries: Vec::new() }
    }

    /// Adds a row outright; rows carry distinct keys when built by [`args`].
    pub fn insert(&mut self, k: String, vs: Vec<String>)
        ensures
            final(self).entries@ == old(self).entries@.push((k, vs)),
    {
        self.entries.push((k, vs));
    }

    /// Where the row for `k` stands, as [`spec_key_idx`] finds it.
    fn key_idx(&self, k: &str) -> (r: Option<usize>)
        ensures
            match r {
                Some(i) => i < self.entries@.len() && spec_key_idx(amap_view(self.entries@), k@)
                    == Some(i as int),
                None => spec_key_idx(amap_view(self.entries@), k@) is None,
            },
    {
        let ghost m = amap_view(self.entries@);
        proof {
            lemma_key_idx(m, k@);
        }
        let mut i: usize = 0;
        while i < self.entries.len()
            invariant
                i <= self.entries@.len(),
                m == amap_view(self.entries@),
                forall|j: int| 0 <= j < i ==> m[j].0 != k@,
                spec_key_idx(m, k@) matches Some(w) ==> 0 <= w < m.len() && m[w].0 == k@ && (forall|
                    j: int,
                |
                    0 <= j < w ==> m[j].0 != k@),
                spec_key_idx(m, k@) is None ==> forall|j: int| 0 <= j < m.len() ==> m[j].0 != k@,
            decreases self.entries@.len() - i,
        {
            proof {
                assert(m[i as int].0 == self.entries@[i as int].0@);
            }
            if strutil::str_eq(self.entries[i].0.as_str(), k) {
                proof {
                    if spec_key_idx(m, k@) is None {
                        assert(false);
                    }
                }
                return Some(i);
            }
            i = i + 1;
        }
        proof {
            if spec_key_idx(m, k@) is Some {
                assert(false);
            }
        }
        None
    }

    /// The last value recorded for `k`, when the key is known and carries
    /// at least one value.
    pub fn last(&self, k: &str) -> (r: Option<&str>)
        ensures
            match spec_amap_get(amap_view(self.entries@), k@) {
                Some(vs) => if vs.len() > 0 {
                    r matches Some(v) && v@ == vs.last()
                } else {
                    r is None
                },
                None => r is None,
            },
    {
        let ix = match self.key_idx(k) {
            Some(ix) => ix,
            None => {
                return None;
            },
        };
        let row = &self.entries[ix];
        let n = row.1.len();
        if n == 0 {
            return None;
        }
        proof {
            assert(amap_view(self.entries@)[ix as int].1 == self.entries@[ix as int].1.deep_view());
            assert(self.entries@[ix as int].1.deep_view().last() == self.entries@[ix as int].1@[n
                - 1]@);
        }
        Some(row.1[n - 1].as_str())
    }
}

/// Splits an arguments text into words and folds each into the map, exactly
/// as [`spec_amap`] does; a text with unbalanced quoting is an error.
pub fn args(s: &str) -> (r: Result<ArgMap, String>)
    ensures
        r matches Ok(m) ==> ({
            &&& shell_words(s@) matches Some(words) && amap_view(m.entries@) == spec_amap(words)
        }),
        r is Err ==> shell_words(s@) is None,
{
    let words = match shlex_split(s) {
        Some(w) => w,
        None => {
            return Err("invalid arguments file".to_owned());
        },
    };
    let mut out = ArgMap::new();
    let mut i: usize = 0;
    proof {
        assert(words.deep_view().take(0) =~= Seq::<Seq<char>>::empty());
        assert(amap_view(out.entries@) =~= Seq::<(Seq<char>, Seq<Seq<char>>)>::empty());
    }
    while i < words.len()
        invariant
            i <= words@.len(),
            words.deep_view() == shell_words(s@)->0,
            shell_words(s@) is Some,
            amap_view(out.entries@) == spec_amap(words.deep_view().take(i as int)),
        decreases words@.len() - i,
    {
        let w = &words[i];
        proof {
            strutil::lemma_find_bounds(w@, '=', 0);
            assert(words.deep_view()[i as int] == words@[i as int]@);
            assert(words.deep_view().take(i + 1).last() == words.deep_view()[i as int]);
            assert(words.deep_view().take(i + 1).drop_last() =~= words.deep_view().take(i as int));
        }
        let (key, value) = strutil::split_once_char(w.as_str(), '=');
        let ghost before = amap_view(out.entries@);
        let ghost e = spec_param_entry(words.deep_view()[i as int]);
        match out.key_idx(key.as_str()) {
            None => {
                let row: Vec<String> = match value {
                    Some(v) => {
                        let mut row: Vec<String> = Vec::new();
                        row.push(v);
                        row
                    },
                    None => Vec::new(),
                };
                proof {
                    assert(row.deep_view() =~= (match e.1 {
                        Some(v) => seq![v],
                        None => Seq::<Seq<char>>::empty(),
                    }));
                }
                out.insert(key, row);
                proof {
                    assert(amap_view(out.entries@) =~= before.push((e.0, (match e.1 {
                        Some(v) => seq![v],
                        None => Seq::<Seq<char>>::empty(),
                    }))));
                }
            },
            Some(ix) => {
                match value {
                    Some(v) => {
                        proof {
                            lemma_key_idx(before, e.0);
                        }
                        let ghost rows = out.entries@;
                        let mut row = self_remove(&mut out.entries, ix);
                        row.1.push(v);
                        proof {
                            assert(row.1.deep_view() =~= before[ix as int].1.push(v@));
                        }
                        let ghost rowg = row;
                        out.entries.insert(ix, row);
                        proof {
                            assert(out.entries@ =~= rows.update(ix as int, rowg));
                            assert(amap_view(out.entries@) =~= before.update(
                                ix as int,
                                (e.0, before[ix as int].1.push(v@)),
                            ));
                        }
                    },
                    None => {
                        proof {
                            assert(amap_view(out.entries@) == spec_amap_step(
                                before,
                                words.deep_view()[i as int],
                            ));
                        }
                    },
                }
            },
        }
        i = i + 1;
    }
    proof {
        assert(words.deep_view().take(words@.len() as int) =~= words.deep_view());
    }
    Ok(out)
}

/// Takes row `ix` out of the rows.
fn self_remove(es: &mut Vec<(String, Vec<String>)>, ix: usize) -> (r: (String, Vec<String>))
    requires
        ix < old(es)@.len(),
    ensures
        final(es)@ == old(es)@.remove(ix as int),
        r == old(es)@[ix as int],
{
    es.remove(ix)
}

} // verus!
