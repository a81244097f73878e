//! The CORS preflight cache: successful preflights are remembered per
//! (origin host, method) until `Access-Control-Max-Age` seconds have passed.
//! Times are milliseconds on a monotonic clock the caller reads.
use vstd::prelude::*;

use crate::text::str_eq;

verus! {

pub open spec fn is_digit(c: char) -> bool {
    '0' <= c && c <= '9'
}

/// The number a string of decimal digits denotes.
pub open spec fn digits_value(s: Seq<char>) -> int
    decreases s.len(),
{
    if s.len() == 0 {
        0
    } else {
        digits_value(s.drop_last()) * 10 + (s.last() as int - '0' as int)
    }
}

/// `str::parse::<u64>`: an optional `+`, then one or more decimal digits whose
/// value fits in 64 bits.
pub open spec fn parse_u64_spec(s: Seq<char>) -> Option<u64> {
    let d = unsigned_digits(s);
    if d.len() > 0 && (forall|i: int| 0 <= i < d.len() ==> is_digit(#[trigger] d[i])) && digits_value(d)
        <= u64::MAX {
        Some(digits_value(d) as u64)
    } else {
        None
    }
}

/// The digits part of a number: without a leading `+`.
pub open spec fn unsigned_digits(s: Seq<char>) -> Seq<char> {
    if s.len() > 0 && s[0] == '+' {
        s.drop_first()
    } else {
        s
    }
}

proof fn lemma_parse_non_digit(s: Seq<char>, j: int)
    requires
        0 <= j < unsigned_digits(s).len(),
        !is_digit(unsigned_digits(s)[j]),
    ensures
        parse_u64_spec(s) is None,
{
}

proof fn lemma_parse_too_big(s: Seq<char>)
    requires
        forall|i: int| 0 <= i < unsigned_digits(s).len() ==> is_digit(#[trigger] unsigned_digits(s)[i]),
        digits_value(unsigned_digits(s)) > u64::MAX,
    ensures
        parse_u64_spec(s) is None,
{
}

proof fn lemma_digits_value_nonneg(s: Seq<char>)
    requires
        forall|i: int| 0 <= i < s.len() ==> is_digit(#[trigger] s[i]),
    ensures
        digits_value(s) >= 0,
    decreases s.len(),
{
    if s.len() > 0 {
        lemma_digits_value_nonneg(s.drop_last());
    }
}

proof fn lemma_digits_value_grows(s: Seq<char>)
    requires
        s.len() > 0,
        forall|i: int| 0 <= i < s.len() ==> is_digit(#[trigger] s[i]),
    ensures
        digits_value(s) >= digits_value(s.drop_last()),
{
    lemma_digits_value_nonneg(s.drop_last());
}

/// Parse an unsigned 64-bit decimal number.
pub fn parse_u64(s: &str) -> (r: Option<u64>)
    ensures
        r == parse_u64_spec(s@),
{
    let n = s.unicode_len();
    let mut start: usize = 0;
    if n > 0 && s.get_char(0) == '+' {
        start = 1;
    }
    let ghost d = if s@.len() > 0 && s@[0] == '+' {
        s@.drop_first()
    } else {
        s@
    };
    proof {
        assert(d =~= s@.skip(start as int));
    }
    if start == n {
        return None;
    }
    let mut v: u64 = 0;
    let mut i: usize = start;
    while i < n
        invariant
            n == s@.len(),
            start <= i <= n,
            start < n,
            d == s@.skip(start as int),
            d == unsigned_digits(s@),
            forall|j: int| start <= j < i ==> is_digit(#[trigger] s@[j]),
            v == digits_value(s@.subrange(start as int, i as int)),
        decreases n - i,
    {
        let c = s.get_char(i);
        let ghost pre = s@.subrange(start as int, i as int);
        let ghost post = s@.subrange(start as int, i + 1);
        proof {
            assert(post.drop_last() =~= pre);
            assert(post.last() == c);
        }
        if c < '0' || c > '9' {
            proof {
                assert(d[i - start] == c);
                assert(!is_digit(d[i - start]));
                lemma_parse_non_digit(s@, i - start);
            }
            return None;
        }
        let dv = (c as u32 - '0' as u32) as u64;
        if v > (u64::MAX - dv) / 10 {
            proof {
                assert forall|j: int| 0 <= j < post.len() implies is_digit(#[trigger] post[j]) by {
                    assert(post[j] == s@[j + start]);
                }
                assert(v * 10 + dv > u64::MAX) by (nonlinear_arith)
                    requires
                        v > (u64::MAX - dv) / 10,
                        dv <= 9,
                ;
                assert(digits_value(post) > u64::MAX);
                if forall|j: int| 0 <= j < d.len() ==> is_digit(#[trigger] d[j]) {
                    lemma_digits_value_rest_grows(d, (i + 1 - start) as int);
                    assert(d.take((i + 1 - start) as int) =~= post);
                    lemma_parse_too_big(s@);
                } else {
                    let j = choose|j: int| 0 <= j < d.len() && !is_digit(#[trigger] d[j]);
                    lemma_parse_non_digit(s@, j);
                }
            }
            return None;
        }
        v = v * 10 + dv;
        i = i + 1;
    }
    proof {
        assert(s@.subrange(start as int, n as int) =~= d);
        assert forall|j: int| 0 <= j < d.len() implies is_digit(#[trigger] d[j]) by {
            assert(d[j] == s@[j + start]);
        }
    }
    Some(v)
}

/// The value of a digit string is at least that of each of its prefixes.
proof fn lemma_digits_value_rest_grows(s: Seq<char>, k: int)
    requires
        0 <= k <= s.len(),
        forall|i: int| 0 <= i < s.len() ==> is_digit(#[trigger] s[i]),
    ensures
        digits_value(s) >= digits_value(s.take(k)),
    decreases s.len() - k,
{
    if k < s.len() {
        assert(s.take(k + 1).drop_last() =~= s.take(k));
        assert forall|i: int| 0 <= i < s.take(k + 1).len() implies is_digit(#[trigger] s.take(k + 1)[i]) by {
            assert(s.take(k + 1)[i] == s[i]);
        }
        lemma_digits_value_grows(s.take(k + 1));
        lemma_digits_value_rest_grows(s, k + 1);
    } else {
        assert(s.take(k) =~= s);
    }
}

/// `Access-Control-Max-Age` in seconds: the header's number, or 5 when it is
/// missing or not a number.
pub fn preflight_max_age(header: Option<&str>) -> (r: u64)
    ensures
        r == match header {
            Some(h) => match parse_u64_spec(h@) {
                Some(n) => n,
                None => 5,
            },
            None => 5,
        },
{
    match header {
        Some(h) => match parse_u64(h) {
            Some(n) => n,
            None => 5,
        },
        None => 5,
    }
}

/// The expiry, in milliseconds, of a preflight recorded at `now` with a max
/// age of `max_age` seconds; a time past the clock's range is held at its
/// end.
pub open spec fn expiry_at(now: u64, max_age: u64) -> u64 {
    if now + max_age * 1000 <= u64::MAX {
        (now + max_age * 1000) as u64
    } else {
        u64::MAX
    }
}

/// One cached preflight: the origin host and method it was for, and its
/// expiry time.
pub struct CacheEntry {
    pub host: String,
    pub method: String,
    pub expiry: u64,
}

/// The expiry stored for `(host, method)`: the entry nearest the end.
pub open spec fn lookup_expiry(s: Seq<(Seq<char>, Seq<char>, u64)>, host: Seq<char>, method: Seq<char>) -> Option<u64>
    decreases s.len(),
{
    if s.len() == 0 {
        None
    } else if s.last().0 == host && s.last().1 == method {
        Some(s.last().2)
    } else {
        lookup_expiry(s.drop_last(), host, method)
    }
}

pub open spec fn keys_unique(s: Seq<(Seq<char>, Seq<char>, u64)>) -> bool {
    forall|i: int, j: int|
        0 <= i < s.len() && 0 <= j < s.len() && i != j ==> !(s[i].0 == s[j].0 && s[i].1 == s[j].1)
}

proof fn lemma_lookup_at(s: Seq<(Seq<char>, Seq<char>, u64)>, host: Seq<char>, method: Seq<char>, j: int)
    requires
        keys_unique(s),
        0 <= j < s.len(),
        s[j].0 == host && s[j].1 == method,
    ensures
        lookup_expiry(s, host, method) == Some(s[j].2),
    decreases s.len(),
{
    if j < s.len() - 1 {
        lemma_lookup_at(s.drop_last(), host, method, j);
    }
}

proof fn lemma_lookup_absent(s: Seq<(Seq<char>, Seq<char>, u64)>, host: Seq<char>, method: Seq<char>)
    requires
        forall|i: int| 0 <= i < s.len() ==> !(s[i].0 == host && s[i].1 == method),
    ensures
        lookup_expiry(s, host, method) is None,
    decreases s.len(),
{
    if s.len() > 0 {
        lemma_lookup_absent(s.drop_last(), host, method);
    }
}

pub open spec fn entry_view(e: CacheEntry) -> (Seq<char>, Seq<char>, u64) {
    (e.host@, e.method@, e.expiry)
}

/// Whether `(host, method)` has a preflight that is still fresh at `now`.
pub open spec fn fresh_in(s: Seq<(Seq<char>, Seq<char>, u64)>, host: Seq<char>, method: Seq<char>, now: u64) -> bool {
    match lookup_expiry(s, host, method) {
        Some(e) => now < e,
        None => false,
    }
}

/// The cache of successful preflights.
pub struct PreflightCache {
    entries: Vec<CacheEntry>,
}

/// The most entries the cache keeps before it drops expired ones.
pub const PREFLIGHT_CACHE_LIMIT: usize = 100;

impl PreflightCache {
    pub closed spec fn view(&self) -> Seq<(Seq<char>, Seq<char>, u64)> {
        self.entries@.map_values(|e: CacheEntry| entry_view(e))
    }

    pub open spec fn wf(&self) -> bool {
        keys_unique(self@)
    }

    /// Whether `(host, method)` has a fresh preflight at `now`.
    pub open spec fn fresh(&self, host: Seq<char>, method: Seq<char>, now: u64) -> bool {
        fresh_in(self@, host, method, now)
    }

    /// An empty cache.
    pub fn new() -> (c: Self)
        ensures
            c.wf(),
            c@ == Seq::<(Seq<char>, Seq<char>, u64)>::empty(),
    {
        let c = PreflightCache { entries: Vec::new() };
        proof {
            assert(c@ =~= Seq::<(Seq<char>, Seq<char>, u64)>::empty());
        }
        c
    }

    /// The number of cached preflights.
    pub fn len(&self) -> (n: usize)
        ensures
            n == self@.len(),
    {
        self.entries.len()
    }

    fn position(&self, host: &str, method: &str) -> (r: Option<usize>)
        ensures
            match r {
                Some(i) => i < self@.len() && self@[i as int].0 == host@ && self@[i as int].1 == method@,
                None => forall|i: int| 0 <= i < self@.len() ==> !(self@[i].0 == host@ && self@[i].1 == method@),
            },
    {
        let mut i: usize = 0;
        while i < self.entries.len()
            invariant
                0 <= i <= self.entries@.len(),
                self@.len() == self.entries@.len(),
                forall|j: int| 0 <= j < i ==> !(self@[j].0 == host@ && self@[j].1 == method@),
            decreases self.entries@.len() - i,
        {
            if str_eq(self.entries[i].host.as_str(), host) && str_eq(self.entries[i].method.as_str(), method) {
                return Some(i);
            }
            i = i + 1;
        }
        None
    }

    /// Whether a preflight for `(host, method)` is cached and fresh at `now`.
    pub fn is_fresh(&self, host: &str, method: &str, now: u64) -> (r: bool)
        requires
            self.wf(),
        ensures
            r == self.fresh(host@, method@, now),
    {
        match self.position(host, method) {
            Some(i) => {
                proof {
                    lemma_lookup_at(self@, host@, method@, i as int);
                }
                now < self.entries[i].expiry
            },
            None => {
                proof {
                    lemma_lookup_absent(self@, host@, method@);
                }
                false
            },
        }
    }

    fn insert(&mut self, host: String, method: String, expiry: u64)
        requires
            old(self).wf(),
        ensures
            final(self).wf(),
            lookup_expiry(final(self)@, host@, method@) == Some(expiry),
            forall|h: Seq<char>, m: Seq<char>|
                !(h == host@ && m == method@) ==> lookup_expiry(final(self)@, h, m) == lookup_expiry(old(self)@, h, m),
    {
        let ghost old_s = self@;
        let ghost hv = host@;
        let ghost mv = method@;
        match self.position(host.as_str(), method.as_str()) {
            Some(i) => {
                self.entries.set(i, CacheEntry { host, method, expiry });
                proof {
                    let s = self@;
                    assert(s =~= old_s.update(i as int, (hv, mv, expiry)));
                    assert(keys_unique(s));
                    lemma_lookup_at(s, hv, mv, i as int);
                    assert forall|h: Seq<char>, m: Seq<char>| !(h == hv && m == mv) implies lookup_expiry(s, h, m)
                        == lookup_expiry(old_s, h, m) by {
                        if exists|j: int| 0 <= j < old_s.len() && old_s[j].0 == h && old_s[j].1 == m {
                            let j = choose|j: int| 0 <= j < old_s.len() && old_s[j].0 == h && old_s[j].1 == m;
                            lemma_lookup_at(old_s, h, m, j);
                            lemma_lookup_at(s, h, m, j);
                        } else {
                            lemma_lookup_absent(old_s, h, m);
                            lemma_lookup_absent(s, h, m);
                        }
                    }
                }
            },
            None => {
                self.entries.push(CacheEntry { host, method, expiry });
                proof {
                    let s = self@;
                    assert(s =~= old_s.push((hv, mv, expiry)));
                    assert(s.drop_last() =~= old_s);
                    assert(keys_unique(s));
                }
            },
        }
    }

    /// Drop the entries that expired by `now`.
    fn evict_expired(&mut self, now: u64)
        requires
            old(self).wf(),
        ensures
            final(self).wf(),
            forall|h: Seq<char>, m: Seq<char>|
                lookup_expiry(final(self)@, h, m) == (match lookup_expiry(old(self)@, h, m) {
                    Some(e) => if now < e {
                        Some(e)
                    } else {
                        None
                    },
                    None => None,
                }),
    {
        let ghost old_s = self@;
        let mut kept: Vec<CacheEntry> = Vec::new();
        let ghost mut idx: Seq<int> = Seq::empty();
        let mut i: usize = 0;
        let n0 = self.entries.len();
        assert(old_s.len() == n0);
        while self.entries.len() > 0
            invariant
                keys_unique(old_s),
                old_s.len() <= usize::MAX,
                i + self@.len() == old_s.len(),
                self@ == old_s.skip(i as int),
                idx.len() == kept@.len(),
                forall|j: int| 0 <= j < idx.len() ==> 0 <= #[trigger] idx[j] < i,
                forall|j: int| 0 <= j < idx.len() ==> old_s[idx[j]] == entry_view(#[trigger] kept@[j]),
                forall|j: int| 0 <= j < idx.len() ==> now < #[trigger] old_s[idx[j]].2,
                forall|a: int, b: int| 0 <= a < b < idx.len() ==> idx[a] < idx[b],
                forall|k: int| 0 <= k < i && now < old_s[k].2 ==> exists|j: int| 0 <= j < idx.len() && #[trigger] idx[j] == k,
            decreases self@.len(),
        {
            let ghost prev_entries = self.entries@;
            let ghost prev_view = self@;
            let e = self.entries.remove(0);
            proof {
                assert(self.entries@ == prev_entries.remove(0));
                assert(old_s.skip(i as int)[0] == old_s[i as int]);
                assert(entry_view(prev_entries[0]) == old_s.skip(i as int)[0]);
                assert(old_s[i as int] == entry_view(e));
                assert forall|j: int| 0 <= j < self@.len() implies self@[j] == prev_view[j + 1] by {
                    assert(self.entries@[j] == prev_entries[j + 1]);
                }
                assert(self@ =~= prev_view.drop_first());
                assert(old_s.skip(i as int).drop_first() =~= old_s.skip(i + 1));
            }
            if now < e.expiry {
                let ghost ev = entry_view(e);
                let ghost old_idx = idx;
                kept.push(e);
                proof {
                    idx = idx.push(i as int);
                    assert(entry_view(kept@[kept@.len() - 1]) == ev);
                    assert forall|k: int| 0 <= k < i + 1 && now < old_s[k].2 implies exists|j: int|
                        0 <= j < idx.len() && #[trigger] idx[j] == k by {
                        if k == i {
                            assert(idx[idx.len() - 1] == k);
                        } else {
                            let j = choose|j: int| 0 <= j < old_idx.len() && #[trigger] old_idx[j] == k;
                            assert(idx[j] == k);
                        }
                    }
                }
            }
            i = i + 1;
        }
        self.entries = kept;
        proof {
            let s = self@;
            assert(i == old_s.len());
            assert forall|j: int| 0 <= j < s.len() implies #[trigger] s[j] == old_s[idx[j]] by {
                assert(s[j] == entry_view(self.entries@[j]));
            }
            assert forall|a: int, b: int| 0 <= a < s.len() && 0 <= b < s.len() && a != b implies !(s[a].0 == s[b].0
                && s[a].1 == s[b].1) by {
                assert(s[a] == old_s[idx[a]]);
                assert(s[b] == old_s[idx[b]]);
                if a < b {
                    assert(idx[a] < idx[b]);
                } else {
                    assert(idx[b] < idx[a]);
                }
            }
            assert forall|h: Seq<char>, m: Seq<char>| lookup_expiry(s, h, m) == (match lookup_expiry(old_s, h, m) {
                Some(e) => if now < e {
                    Some(e)
                } else {
                    None
                },
                None => None,
            }) by {
                if exists|k: int| 0 <= k < old_s.len() && old_s[k].0 == h && old_s[k].1 == m {
                    let k = choose|k: int| 0 <= k < old_s.len() && old_s[k].0 == h && old_s[k].1 == m;
                    lemma_lookup_at(old_s, h, m, k);
                    if now < old_s[k].2 {
                        let j = choose|j: int| 0 <= j < idx.len() && #[trigger] idx[j] == k;
                        assert(s[j] == old_s[k]);
                        lemma_lookup_at(s, h, m, j);
                    } else {
                        assert forall|j: int| 0 <= j < s.len() implies !(s[j].0 == h && s[j].1 == m) by {
                            assert(s[j] == old_s[idx[j]]);
                            if s[j].0 == h && s[j].1 == m {
                                assert(idx[j] == k);
                            }
                        }
                        lemma_lookup_absent(s, h, m);
                    }
                } else {
                    lemma_lookup_absent(old_s, h, m);
                    assert forall|j: int| 0 <= j < s.len() implies !(s[j].0 == h && s[j].1 == m) by {
                        assert(s[j] == old_s[idx[j]]);
                    }
                    lemma_lookup_absent(s, h, m);
                }
            }
        }
    }

    /// Remember a successful preflight for `(host, method)` made at `now`,
    /// fresh for `max_age` seconds (an expiry past the clock's range is held
    /// at its end); a zero max age caches nothing. Past
    /// `PREFLIGHT_CACHE_LIMIT` entries, the expired ones are dropped.
    pub fn record(&mut self, host: String, method: String, now: u64, max_age: u64)
        requires
            old(self).wf(),
        ensures
            final(self).wf(),
            max_age == 0 ==> final(self)@ == old(self)@,
            max_age > 0 && now < u64::MAX ==> lookup_expiry(final(self)@, host@, method@) == Some(
                expiry_at(now, max_age),
            ),
            forall|h: Seq<char>, m: Seq<char>, t: u64|
                now <= t && !(h == host@ && m == method@) ==> fresh_in(final(self)@, h, m, t) == fresh_in(
                    old(self)@,
                    h,
                    m,
                    t,
                ),
    {
        if max_age == 0 {
            return;
        }
        let expiry = match max_age.checked_mul(1000) {
            Some(ms) => match now.checked_add(ms) {
                Some(e) => e,
                None => u64::MAX,
            },
            None => u64::MAX,
        };
        assert(expiry == expiry_at(now, max_age));
        let ghost hv = host@;
        let ghost mv = method@;
        self.insert(host, method, expiry);
        if self.entries.len() > PREFLIGHT_CACHE_LIMIT {
            let ghost before = self@;
            self.evict_expired(now);
            proof {
                if now < u64::MAX {
                    assert(lookup_expiry(self@, hv, mv) == lookup_expiry(before, hv, mv));
                }
                assert forall|h: Seq<char>, m: Seq<char>, t: u64| now <= t implies fresh_in(self@, h, m, t)
                    == fresh_in(before, h, m, t) by {
                    assert(lookup_expiry(self@, h, m) == (match lookup_expiry(before, h, m) {
                        Some(e) => if now < e {
                            Some(e)
                        } else {
                            None
                        },
                        None => None,
                    }));
                }
            }
        }
    }
}

} // verus!
