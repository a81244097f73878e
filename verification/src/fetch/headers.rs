//! A string-keyed map of HTTP headers with the semantics of a hash map: one
//! value per name, a later insert replacing an earlier one.
use vstd::prelude::*;

use crate::text::str_eq;

verus! {

/// The value stored under `k`: the entry for `k` nearest the end.
pub open spec fn lookup_header(s: Seq<(Seq<char>, Seq<char>)>, k: Seq<char>) -> Option<Seq<char>>
    decreases s.len(),
{
    if s.len() == 0 {
        None
    } else if s.last().0 == k {
        Some(s.last().1)
    } else {
        lookup_header(s.drop_last(), k)
    }
}

pub open spec fn names_unique(s: Seq<(Seq<char>, Seq<char>)>) -> bool {
    forall|i: int, j: int| 0 <= i < s.len() && 0 <= j < s.len() && i != j ==> s[i].0 != s[j].0
}

pub proof fn lemma_lookup_at(s: Seq<(Seq<char>, Seq<char>)>, k: Seq<char>, j: int)
    requires
        names_unique(s),
        0 <= j < s.len(),
        s[j].0 == k,
    ensures
        lookup_header(s, k) == Some(s[j].1),
    decreases s.len(),
{
    if j < s.len() - 1 {
        lemma_lookup_at(s.drop_last(), k, j);
    }
}

pub proof fn lemma_lookup_absent(s: Seq<(Seq<char>, Seq<char>)>, k: Seq<char>)
    requires
        forall|i: int| 0 <= i < s.len() ==> s[i].0 != k,
    ensures
        lookup_header(s, k) is None,
    decreases s.len(),
{
    if s.len() > 0 {
        lemma_lookup_absent(s.drop_last(), k);
    }
}

/// Header names and values.
pub struct HeaderMap {
    entries: Vec<(String, String)>,
}

pub open spec fn pair_view(p: (String, String)) -> (Seq<char>, Seq<char>) {
    (p.0@, p.1@)
}

impl HeaderMap {
    /// The entries, in insertion order of their names.
    pub closed spec fn pairs(&self) -> Seq<(Seq<char>, Seq<char>)> {
        self.entries@.map_values(|p: (String, String)| pair_view(p))
    }

    /// The value of header `k`.
    pub open spec fn get_spec(&self, k: Seq<char>) -> Option<Seq<char>> {
        lookup_header(self.pairs(), k)
    }

    pub open spec fn wf(&self) -> bool {
        names_unique(self.pairs())
    }

    /// An empty map.
    pub fn new() -> (m: Self)
        ensures
            m.wf(),
            m.pairs() == Seq::<(Seq<char>, Seq<char>)>::empty(),
    {
        let m = HeaderMap { entries: Vec::new() };
        proof {
            assert(m.pairs() =~= Seq::<(Seq<char>, Seq<char>)>::empty());
        }
        m
    }

    fn position(&self, k: &str) -> (r: Option<usize>)
        ensures
            match r {
                Some(i) => i < self.pairs().len() && self.pairs()[i as int].0 == k@,
                None => forall|i: int| 0 <= i < self.pairs().len() ==> self.pairs()[i].0 != k@,
            },
    {
        let mut i: usize = 0;
        while i < self.entries.len()
            invariant
                0 <= i <= self.entries@.len(),
                self.pairs().len() == self.entries@.len(),
                forall|j: int| 0 <= j < i ==> self.pairs()[j].0 != k@,
            decreases self.entries@.len() - i,
        {
            if str_eq(self.entries[i].0.as_str(), k) {
                return Some(i);
            }
            i = i + 1;
        }
        None
    }

    /// Whether header `k` is present.
    pub fn contains_key(&self, k: &str) -> (r: bool)
        requires
            self.wf(),
        ensures
            r == self.get_spec(k@) is Some,
    {
        match self.position(k) {
            Some(i) => {
                proof {
                    lemma_lookup_at(self.pairs(), k@, i as int);
                }
                true
            },
            None => {
                proof {
                    lemma_lookup_absent(self.pairs(), k@);
                }
                false
            },
        }
    }

    /// The value of header `k`.
    pub fn get(&self, k: &str) -> (r: Option<&str>)
        requires
            self.wf(),
        ensures
            match (r, self.get_spec(k@)) {
                (Some(v), Some(w)) => v@ == w,
                (None, None) => true,
                _ => false,
            },
    {
        match self.position(k) {
            Some(i) => {
                proof {
                    lemma_lookup_at(self.pairs(), k@, i as int);
                }
                Some(self.entries[i].1.as_str())
            },
            None => {
                proof {
                    lemma_lookup_absent(self.pairs(), k@);
                }
                None
            },
        }
    }

    /// Set header `k` to `v`, replacing an earlier value; a new name goes last.
    pub fn insert(&mut self, k: String, v: String)
        requires
            old(self).wf(),
        ensures
            final(self).wf(),
            final(self).get_spec(k@) == Some(v@),
            forall|q: Seq<char>| q != k@ ==> final(self).get_spec(q) == old(self).get_spec(q),
            old(self).get_spec(k@) is Some ==> final(self).pairs().len() == old(self).pairs().len(),
            old(self).get_spec(k@) is None ==> final(self).pairs() == old(self).pairs().push((k@, v@)),
    {
        let ghost old_s = self.pairs();
        match self.position(k.as_str()) {
            Some(i) => {
                proof {
                    lemma_lookup_at(old_s, k@, i as int);
                }
                let ghost kv = k@;
                let ghost vv = v@;
                self.entries.set(i, (k, v));
                proof {
                    let s = self.pairs();
                    assert(s =~= old_s.update(i as int, (kv, vv)));
                    assert(names_unique(s));
                    lemma_lookup_at(s, kv, i as int);
                    assert forall|q: Seq<char>| q != kv implies lookup_header(s, q) == lookup_header(old_s, q) by {
                        if exists|j: int| 0 <= j < old_s.len() && old_s[j].0 == q {
                            let j = choose|j: int| 0 <= j < old_s.len() && old_s[j].0 == q;
                            lemma_lookup_at(old_s, q, j);
                            lemma_lookup_at(s, q, j);
                        } else {
                            lemma_lookup_absent(old_s, q);
                            lemma_lookup_absent(s, q);
                        }
                    }
                }
            },
            None => {
                proof {
                    lemma_lookup_absent(old_s, k@);
                }
                let ghost kv = k@;
                let ghost vv = v@;
                self.entries.push((k, v));
                proof {
                    let s = self.pairs();
                    assert(s =~= old_s.push((kv, vv)));
                    assert(s.drop_last() =~= old_s);
                    assert(names_unique(s));
                }
            },
        }
    }

    /// The number of headers.
    pub fn len(&self) -> (n: usize)
        ensures
            n == self.pairs().len(),
    {
        self.entries.len()
    }

    /// The name and value of the `i`-th header.
    pub fn entry(&self, i: usize) -> (r: (&str, &str))
        requires
            i < self.pairs().len(),
        ensures
            (r.0@, r.1@) == self.pairs()[i as int],
    {
        (self.entries[i].0.as_str(), self.entries[i].1.as_str())
    }
}

} // verus!
