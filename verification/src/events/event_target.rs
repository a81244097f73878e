//! The EventTarget interface: per-type listener lists and the order in which a
//! target's listeners fire (https://dom.spec.whatwg.org/#interface-eventtarget).
//!
//! Callbacks are identified by the integer ids that the embedding gives to its
//! JavaScript function objects; a null or undefined callback is `None`.
use vstd::prelude::*;
use super::event::EventPhase;
use crate::text::str_eq;

verus! {

/// Event listener entry with its options.
#[derive(Debug, Clone, Copy, PartialEq, Eq, Structural)]
pub struct EventListener {
    /// The callback function
    pub callback: u64,
    /// Capture flag
    pub capture: bool,
    /// Once flag: removed after its first invocation
    pub once: bool,
    /// Passive flag: cannot call preventDefault
    pub passive: bool,
    /// Set once the listener was aborted
    pub aborted: bool,
}

impl EventListener {
    pub fn new(callback: u64, capture: bool, once: bool, passive: bool) -> (l: Self)
        ensures
            l == (EventListener { callback, capture, once, passive, aborted: false }),
    {
        EventListener { callback, capture, once, passive, aborted: false }
    }

    /// Whether this listener is the one named by a removal request: same callback
    /// and same capture flag.
    pub open spec fn spec_matches(self, callback: Option<u64>, capture: bool) -> bool {
        callback == Some(self.callback) && self.capture == capture
    }

    pub fn matches(&self, callback: Option<u64>, capture: bool) -> (b: bool)
        ensures
            b == self.spec_matches(callback, capture),
    {
        match callback {
            Some(c) => c == self.callback && self.capture == capture,
            None => false,
        }
    }

    pub fn is_active(&self) -> (b: bool)
        ensures
            b == !self.aborted,
    {
        !self.aborted
    }

    pub fn abort(&mut self)
        ensures
            *final(self) == (EventListener { aborted: true, ..*old(self) }),
    {
        self.aborted = true;
    }
}

/// Whether a listener fires when its target is visited in `phase`: capture
/// listeners in the capturing phase, the others in the bubbling phase, all of
/// them at the target, and none outside of a dispatch.
pub open spec fn fires_in(l: EventListener, phase: EventPhase) -> bool {
    !l.aborted && match phase {
        EventPhase::CapturingPhase => l.capture,
        EventPhase::BubblingPhase => !l.capture,
        EventPhase::AtTarget => true,
        EventPhase::NoPhase => false,
    }
}

/// The listeners of one event type.
#[derive(Debug, Clone)]
struct ListenerBucket {
    event_type: String,
    listeners: Vec<EventListener>,
}

/// The EventTarget listener store: event type to list of listeners.
#[derive(Debug)]
pub struct EventTargetData {
    buckets: Vec<ListenerBucket>,
}

impl View for EventTargetData {
    type V = Seq<(Seq<char>, Seq<EventListener>)>;

    closed spec fn view(&self) -> Seq<(Seq<char>, Seq<EventListener>)> {
        self.buckets@.map_values(|b: ListenerBucket| (b.event_type@, b.listeners@))
    }
}

/// Each event type has at most one list.
pub open spec fn types_unique(v: Seq<(Seq<char>, Seq<EventListener>)>) -> bool {
    forall|i: int, j: int| 0 <= i < v.len() && 0 <= j < v.len() && i != j ==> v[i].0 != v[j].0
}

/// The listeners registered for `t`, in registration order.
pub open spec fn listeners_in(v: Seq<(Seq<char>, Seq<EventListener>)>, t: Seq<char>) -> Seq<
    EventListener,
> {
    if exists|i: int| 0 <= i < v.len() && v[i].0 == t {
        v[choose|i: int| 0 <= i < v.len() && v[i].0 == t].1
    } else {
        Seq::empty()
    }
}

proof fn lemma_listeners_at(v: Seq<(Seq<char>, Seq<EventListener>)>, i: int)
    requires
        types_unique(v),
        0 <= i < v.len(),
    ensures
        listeners_in(v, v[i].0) == v[i].1,
{
    let t = v[i].0;
    assert(exists|k: int| 0 <= k < v.len() && v[k].0 == t);
    let k = choose|k: int| 0 <= k < v.len() && v[k].0 == t;
    assert(k == i);
}

proof fn lemma_unique_update(
    v: Seq<(Seq<char>, Seq<EventListener>)>,
    w: Seq<(Seq<char>, Seq<EventListener>)>,
    i: int,
)
    requires
        types_unique(v),
        0 <= i < v.len(),
        w.len() == v.len(),
        w[i].0 == v[i].0,
        forall|j: int| 0 <= j < v.len() && j != i ==> w[j] == v[j],
    ensures
        types_unique(w),
{
    assert forall|a: int, b: int| 0 <= a < w.len() && 0 <= b < w.len() && a != b implies w[a].0 != w[b].0 by {
        assert(v[a].0 != v[b].0);
    }
}

/// Changing the list at index `i` leaves the lists of the other types alone.
proof fn lemma_listeners_other(
    v: Seq<(Seq<char>, Seq<EventListener>)>,
    w: Seq<(Seq<char>, Seq<EventListener>)>,
    i: int,
    t: Seq<char>,
)
    requires
        types_unique(v),
        0 <= i < v.len(),
        w.len() == v.len(),
        w[i].0 == v[i].0,
        forall|j: int| 0 <= j < v.len() && j != i ==> w[j] == v[j],
        t != v[i].0,
    ensures
        types_unique(w),
        listeners_in(w, t) == listeners_in(v, t),
{
    assert(types_unique(w)) by {
        assert forall|a: int, b: int| 0 <= a < w.len() && 0 <= b < w.len() && a != b implies w[a].0 != w[b].0 by {
            assert(v[a].0 != v[b].0);
        }
    }
    if exists|k: int| 0 <= k < v.len() && v[k].0 == t {
        let k = choose|k: int| 0 <= k < v.len() && v[k].0 == t;
        lemma_listeners_at(v, k);
        lemma_listeners_at(w, k);
    } else {
        assert(!exists|k: int| 0 <= k < w.len() && w[k].0 == t);
    }
}

impl EventTargetData {
    /// The store holds one list per event type.
    pub open spec fn wf(&self) -> bool {
        types_unique(self@)
    }

    /// The listeners registered for `t`.
    pub open spec fn listeners_for(&self, t: Seq<char>) -> Seq<EventListener> {
        listeners_in(self@, t)
    }

    /// Create a new, empty EventTarget.
    pub fn new() -> (s: Self)
        ensures
            s.wf(),
            forall|t: Seq<char>| #[trigger] s.listeners_for(t) == Seq::<EventListener>::empty(),
    {
        let s = EventTargetData { buckets: Vec::new() };
        assert(s@ =~= Seq::empty());
        s
    }

    fn find_bucket(&self, event_type: &str) -> (r: Option<usize>)
        requires
            self.wf(),
        ensures
            match r {
                Some(i) => i < self@.len() && self@[i as int].0 == event_type@,
                None => forall|i: int| 0 <= i < self@.len() ==> self@[i].0 != event_type@,
            },
    {
        let mut i: usize = 0;
        while i < self.buckets.len()
            invariant
                i <= self.buckets@.len(),
                self@.len() == self.buckets@.len(),
                self@ == self.buckets@.map_values(|b: ListenerBucket| (b.event_type@, b.listeners@)),
                forall|j: int| 0 <= j < i ==> self@[j].0 != event_type@,
            decreases self.buckets@.len() - i,
        {
            if str_eq(self.buckets[i].event_type.as_str(), event_type) {
                return Some(i);
            }
            i = i + 1;
        }
        None
    }

    /// `addEventListener`: a null or undefined callback is ignored; otherwise the
    /// listener is appended to the list of its event type.
    pub fn add_event_listener(
        &mut self,
        event_type: String,
        callback: Option<u64>,
        capture: bool,
        once: bool,
        passive: bool,
    )
        requires
            old(self).wf(),
        ensures
            final(self).wf(),
            callback is None ==> final(self)@ == old(self)@,
            callback is Some ==> final(self).listeners_for(event_type@) == old(self).listeners_for(
                event_type@,
            ).push(EventListener::new_spec(callback->0, capture, once, passive)),
            forall|t: Seq<char>|
                t != event_type@ ==> #[trigger] final(self).listeners_for(t) == old(self).listeners_for(t),
    {
        let cb = match callback {
            Some(cb) => cb,
            None => return,
        };
        let listener = EventListener::new(cb, capture, once, passive);
        let ghost old_v = self@;
        match self.find_bucket(event_type.as_str()) {
            Some(i) => {
                let mut bucket = self.buckets.remove(i);
                bucket.listeners.push(listener);
                self.buckets.insert(i, bucket);
                assert(self@ =~= old_v.update(i as int, (old_v[i as int].0, old_v[i as int].1.push(listener))));
                proof {
                    lemma_listeners_at(old_v, i as int);
                    lemma_listeners_at(self@, i as int);
                    assert forall|t: Seq<char>| t != event_type@ implies #[trigger] listeners_in(self@, t) == listeners_in(old_v, t) by {
                        lemma_listeners_other(old_v, self@, i as int, t);
                    }
                }
            },
            None => {
                let ghost t = event_type@;
                let mut listeners: Vec<EventListener> = Vec::new();
                listeners.push(listener);
                assert(listeners@ =~= seq![listener]);
                self.buckets.push(ListenerBucket { event_type, listeners });
                assert(self@ =~= old_v.push((t, seq![listener])));
                proof {
                    lemma_listeners_at(self@, old_v.len() as int);
                    assert forall|u: Seq<char>| u != t implies #[trigger] listeners_in(self@, u) == listeners_in(old_v, u) by {
                        if exists|k: int| 0 <= k < old_v.len() && old_v[k].0 == u {
                            let k = choose|k: int| 0 <= k < old_v.len() && old_v[k].0 == u;
                            lemma_listeners_at(old_v, k);
                            lemma_listeners_at(self@, k);
                        } else {
                            assert(!exists|k: int| 0 <= k < self@.len() && self@[k].0 == u);
                        }
                    }
                }
            },
        }
    }
}

impl EventListener {
    pub open spec fn new_spec(callback: u64, capture: bool, once: bool, passive: bool) -> EventListener {
        EventListener { callback, capture, once, passive, aborted: false }
    }
}

/// The list left after the listeners named by a removal request are dropped.
pub open spec fn without_matching(s: Seq<EventListener>, callback: Option<u64>, capture: bool) -> Seq<
    EventListener,
> {
    s.filter(|l: EventListener| !l.spec_matches(callback, capture))
}

proof fn lemma_without_matching_none(s: Seq<EventListener>, callback: Option<u64>, capture: bool)
    requires
        forall|i: int| 0 <= i < s.len() ==> !(#[trigger] s[i]).spec_matches(callback, capture),
    ensures
        without_matching(s, callback, capture) == s,
    decreases s.len(),
{
    reveal_with_fuel(Seq::<EventListener>::filter, 1);
    if s.len() > 0 {
        assert forall|i: int| 0 <= i < s.drop_last().len() implies !(#[trigger] s.drop_last()[i]).spec_matches(
            callback,
            capture,
        ) by {
            assert(s.drop_last()[i] == s[i]);
        }
        lemma_without_matching_none(s.drop_last(), callback, capture);
        assert(!s.last().spec_matches(callback, capture));
        assert(s.drop_last().push(s.last()) =~= s);
    } else {
        assert(s =~= Seq::<EventListener>::empty());
    }
}

/// `removeEventListener` undoes `addEventListener`: when no listener of the list
/// matches a callback and capture flag, adding a listener for them and then
/// removing by the same callback and flag gives the list back.
pub proof fn law_remove_undoes_add(s: Seq<EventListener>, callback: u64, capture: bool, once: bool, passive: bool)
    requires
        forall|i: int| 0 <= i < s.len() ==> !(#[trigger] s[i]).spec_matches(Some(callback), capture),
    ensures
        without_matching(s.push(EventListener::new_spec(callback, capture, once, passive)), Some(callback), capture)
            == s,
{
    let e = EventListener::new_spec(callback, capture, once, passive);
    reveal_with_fuel(Seq::<EventListener>::filter, 1);
    assert(s.push(e).drop_last() =~= s);
    assert(s.push(e).last() == e);
    assert(e.spec_matches(Some(callback), capture));
    lemma_without_matching_none(s, Some(callback), capture);
}

/// Removal of positions, taking them from the last to the first; a position past
/// the end of the list is skipped.
pub open spec fn remove_positions(s: Seq<EventListener>, idx: Seq<usize>) -> Seq<EventListener>
    decreases idx.len(),
{
    if idx.len() == 0 {
        s
    } else {
        let i = idx.last();
        let s2 = if (i as int) < s.len() {
            s.remove(i as int)
        } else {
            s
        };
        remove_positions(s2, idx.drop_last())
    }
}

impl EventTargetData {
    /// Replace the list of the bucket at `i`.
    fn replace_list(&mut self, i: usize, list: Vec<EventListener>)
        requires
            old(self).wf(),
            i < old(self)@.len(),
        ensures
            final(self).wf(),
            final(self).listeners_for(old(self)@[i as int].0) == list@,
            forall|t: Seq<char>|
                t != old(self)@[i as int].0 ==> #[trigger] final(self).listeners_for(t) == old(self).listeners_for(t),
    {
        let ghost old_v = self@;
        let mut bucket = self.buckets.remove(i);
        bucket.listeners = list;
        self.buckets.insert(i, bucket);
        assert(self@ =~= old_v.update(i as int, (old_v[i as int].0, list@)));
        proof {
            assert forall|t: Seq<char>| t != old_v[i as int].0 implies #[trigger] listeners_in(self@, t) == listeners_in(old_v, t) by {
                lemma_listeners_other(old_v, self@, i as int, t);
            }
            lemma_unique_update(old_v, self@, i as int);
            lemma_listeners_at(self@, i as int);
        }
    }

    /// `removeEventListener`: drops every listener of the type with the same
    /// callback and capture flag.
    pub fn remove_event_listener(&mut self, event_type: &str, callback: Option<u64>, capture: bool)
        requires
            old(self).wf(),
        ensures
            final(self).wf(),
            final(self).listeners_for(event_type@) == without_matching(
                old(self).listeners_for(event_type@),
                callback,
                capture,
            ),
            forall|t: Seq<char>|
                t != event_type@ ==> #[trigger] final(self).listeners_for(t) == old(self).listeners_for(t),
    {
        match self.find_bucket(event_type) {
            None => {
                proof {
                    assert(!exists|k: int| 0 <= k < self@.len() && self@[k].0 == event_type@);
                    assert(without_matching(Seq::<EventListener>::empty(), callback, capture) =~= Seq::<EventListener>::empty());
                }
            },
            Some(i) => {
                proof {
                    lemma_listeners_at(self@, i as int);
                }
                let old_list = &self.buckets[i].listeners;
                assert(old_list@ == self@[i as int].1);
                let mut kept: Vec<EventListener> = Vec::new();
                let mut j: usize = 0;
                while j < old_list.len()
                    invariant
                        j <= old_list@.len(),
                        kept@ == without_matching(old_list@.take(j as int), callback, capture),
                    decreases old_list@.len() - j,
                {
                    let l = old_list[j];
                    proof {
                        reveal_with_fuel(Seq::<_>::filter, 1);
                        assert(old_list@.take(j + 1).drop_last() =~= old_list@.take(j as int));
                        assert(old_list@.take(j + 1).last() == l);
                    }
                    if !l.matches(callback, capture) {
                        kept.push(l);
                    }
                    j = j + 1;
                }
                assert(old_list@.take(old_list@.len() as int) =~= old_list@);
                self.replace_list(i, kept);
            },
        }
    }

    /// A copy of the listeners currently registered for `event_type`.
    pub fn listeners_snapshot(&self, event_type: &str) -> (r: Vec<EventListener>)
        requires
            self.wf(),
        ensures
            r@ == self.listeners_for(event_type@),
    {
        match self.find_bucket(event_type) {
            None => {
                assert(!exists|k: int| 0 <= k < self@.len() && self@[k].0 == event_type@);
                Vec::new()
            },
            Some(i) => {
                proof {
                    lemma_listeners_at(self@, i as int);
                }
                let list = &self.buckets[i].listeners;
                let mut out: Vec<EventListener> = Vec::new();
                let mut j: usize = 0;
                while j < list.len()
                    invariant
                        j <= list@.len(),
                        out@ == list@.take(j as int),
                    decreases list@.len() - j,
                {
                    out.push(list[j]);
                    j = j + 1;
                    assert(out@ =~= list@.take(j as int));
                }
                assert(list@.take(list@.len() as int) =~= list@);
                out
            },
        }
    }

    /// After a run of listeners, drop the `once` listeners that were called, by
    /// their positions, taken from the last to the first; a position past the end
    /// of the current list is skipped.
    pub fn remove_fired_once(&mut self, event_type: &str, positions: &Vec<usize>)
        requires
            old(self).wf(),
        ensures
            final(self).wf(),
            final(self).listeners_for(event_type@) == remove_positions(
                old(self).listeners_for(event_type@),
                positions@,
            ),
            forall|t: Seq<char>|
                t != event_type@ ==> #[trigger] final(self).listeners_for(t) == old(self).listeners_for(t),
    {
        if positions.len() == 0 {
            return;
        }
        match self.find_bucket(event_type) {
            None => {
                proof {
                    assert(!exists|k: int| 0 <= k < self@.len() && self@[k].0 == event_type@);
                    lemma_remove_positions_empty(positions@);
                }
            },
            Some(i) => {
                proof {
                    lemma_listeners_at(self@, i as int);
                }
                let mut list = self.listeners_snapshot(event_type);
                assert(positions@.take(positions@.len() as int) =~= positions@);
                let mut k: usize = positions.len();
                while k > 0
                    invariant
                        k <= positions@.len(),
                        remove_positions(list@, positions@.take(k as int)) == remove_positions(
                            self.listeners_for(event_type@),
                            positions@,
                        ),
                    decreases k,
                {
                    let p = positions[k - 1];
                    proof {
                        assert(positions@.take(k as int).drop_last() =~= positions@.take(k - 1));
                    }
                    if p < list.len() {
                        list.remove(p);
                    }
                    k = k - 1;
                }
                self.replace_list(i, list);
            },
        }
    }
}

proof fn lemma_remove_positions_empty(idx: Seq<usize>)
    ensures
        remove_positions(Seq::<EventListener>::empty(), idx) == Seq::<EventListener>::empty(),
    decreases idx.len(),
{
    if idx.len() > 0 {
        lemma_remove_positions_empty(idx.drop_last());
    }
}


/// The callbacks, in order, of the listeners among the first `n` of `s` that fire
/// in `phase`.
pub open spec fn fire_calls(s: Seq<EventListener>, phase: EventPhase, n: int) -> Seq<u64>
    decreases n,
{
    if n <= 0 || n > s.len() {
        Seq::empty()
    } else {
        let prev = fire_calls(s, phase, n - 1);
        if fires_in(s[n - 1], phase) {
            prev.push(s[n - 1].callback)
        } else {
            prev
        }
    }
}

/// The positions of the `once` listeners among the first `n` of `s` that fire in
/// `phase` and are among the first `made` to be called.
pub open spec fn once_fired_upto(s: Seq<EventListener>, phase: EventPhase, made: int, n: int) -> Seq<
    usize,
>
    decreases n,
{
    if n <= 0 || n > s.len() {
        Seq::empty()
    } else {
        let prev = once_fired_upto(s, phase, made, n - 1);
        if fires_in(s[n - 1], phase) && s[n - 1].once && fire_calls(s, phase, n - 1).len() < made {
            prev.push((n - 1) as usize)
        } else {
            prev
        }
    }
}

proof fn lemma_fire_calls_prefix(s: Seq<EventListener>, phase: EventPhase, n: int, m: int)
    requires
        0 <= n <= m <= s.len(),
    ensures
        fire_calls(s, phase, n).len() <= fire_calls(s, phase, m).len(),
        forall|k: int|
            0 <= k < fire_calls(s, phase, n).len() ==> #[trigger] fire_calls(s, phase, m)[k]
                == fire_calls(s, phase, n)[k],
    decreases m - n,
{
    if n < m {
        lemma_fire_calls_prefix(s, phase, n, m - 1);
    }
}

proof fn lemma_fire_calls_len(s: Seq<EventListener>, phase: EventPhase, n: int)
    requires
        0 <= n <= s.len(),
    ensures
        fire_calls(s, phase, n).len() <= n,
    decreases n,
{
    if n > 0 {
        lemma_fire_calls_len(s, phase, n - 1);
    }
}

/// Once-positions computed under two call bounds agree when every firing listener
/// before `n` is within both bounds.
proof fn lemma_once_bound(s: Seq<EventListener>, phase: EventPhase, r1: int, r2: int, n: int)
    requires
        0 <= n <= s.len(),
        fire_calls(s, phase, n).len() <= r1 <= r2,
    ensures
        once_fired_upto(s, phase, r1, n) == once_fired_upto(s, phase, r2, n),
    decreases n,
{
    if n > 0 {
        lemma_fire_calls_prefix(s, phase, n - 1, n);
        lemma_once_bound(s, phase, r1, r2, n - 1);
    }
}

/// Once-positions do not grow past the point where the `made` calls were made.
proof fn lemma_once_stable(s: Seq<EventListener>, phase: EventPhase, made: int, a: int, n: int)
    requires
        0 <= a <= n <= s.len(),
        fire_calls(s, phase, a).len() == made,
    ensures
        once_fired_upto(s, phase, made, n) == once_fired_upto(s, phase, made, a),
    decreases n - a,
{
    if a < n {
        lemma_once_stable(s, phase, made, a, n - 1);
        lemma_fire_calls_prefix(s, phase, a, n - 1);
    }
}

/// The first `n` listeners of `s` without the `once` listeners that fire in
/// `phase`.
pub open spec fn without_fired_once(s: Seq<EventListener>, phase: EventPhase, n: int) -> Seq<EventListener>
    decreases n,
{
    if n <= 0 || n > s.len() {
        Seq::empty()
    } else {
        let prev = without_fired_once(s, phase, n - 1);
        if fires_in(s[n - 1], phase) && s[n - 1].once {
            prev
        } else {
            prev.push(s[n - 1])
        }
    }
}

proof fn lemma_remove_fired_once(s: Seq<EventListener>, t: Seq<EventListener>, phase: EventPhase, n: int)
    requires
        0 <= n <= s.len(),
        s.len() <= usize::MAX,
        n <= t.len(),
        t.take(n) == s.take(n),
    ensures
        remove_positions(t, once_fired_upto(s, phase, fire_calls(s, phase, s.len() as int).len() as int, n))
            == without_fired_once(s, phase, n) + t.skip(n),
    decreases n,
{
    let made = fire_calls(s, phase, s.len() as int).len() as int;
    if n == 0 {
        assert(t.skip(0) =~= t);
        assert(without_fired_once(s, phase, 0) + t.skip(0) =~= t);
    } else {
        assert(t[n - 1] == t.take(n)[n - 1]);
        assert(s[n - 1] == s.take(n)[n - 1]);
        let prev_idx = once_fired_upto(s, phase, made, n - 1);
        if fires_in(s[n - 1], phase) && s[n - 1].once {
            lemma_fire_calls_prefix(s, phase, n, s.len() as int);
            assert(fire_calls(s, phase, n - 1).len() < made);
            let idx = prev_idx.push((n - 1) as usize);
            assert(once_fired_upto(s, phase, made, n) == idx);
            let t2 = t.remove(n - 1);
            assert(idx.last() as int == n - 1);
            assert(idx.drop_last() =~= prev_idx);
            assert(remove_positions(t, idx) == remove_positions(t2, prev_idx));
            assert(t2.take(n - 1) =~= s.take(n - 1));
            lemma_remove_fired_once(s, t2, phase, n - 1);
            assert(t2.skip(n - 1) =~= t.skip(n));
        } else {
            assert(once_fired_upto(s, phase, made, n) == prev_idx);
            assert(t.take(n - 1) =~= s.take(n - 1));
            lemma_remove_fired_once(s, t, phase, n - 1);
            assert(t.skip(n - 1) =~= seq![t[n - 1]] + t.skip(n));
            assert(without_fired_once(s, phase, n - 1) + t.skip(n - 1) =~= without_fired_once(s, phase, n - 1).push(
                s[n - 1],
            ) + t.skip(n));
        }
    }
}

/// A `once` listener fires in one dispatch only: after a run that nothing
/// stopped, removing the `once` listeners it called leaves, in order, exactly
/// the listeners that are not `once` listeners of that phase.
pub proof fn law_once_listeners_removed_after_run(s: Seq<EventListener>, phase: EventPhase)
    requires
        s.len() <= usize::MAX,
    ensures
        remove_positions(s, once_fired_upto(s, phase, fire_calls(s, phase, s.len() as int).len() as int, s.len() as int))
            == without_fired_once(s, phase, s.len() as int),
        forall|i: int|
            0 <= i < without_fired_once(s, phase, s.len() as int).len() ==> !(#[trigger] without_fired_once(
                s,
                phase,
                s.len() as int,
            )[i].once && fires_in(without_fired_once(s, phase, s.len() as int)[i], phase)),
{
    assert(s.take(s.len() as int) =~= s);
    lemma_remove_fired_once(s, s, phase, s.len() as int);
    assert(s.skip(s.len() as int) =~= Seq::<EventListener>::empty());
    assert(without_fired_once(s, phase, s.len() as int) + s.skip(s.len() as int) =~= without_fired_once(
        s,
        phase,
        s.len() as int,
    ));
    lemma_without_fired_once_clean(s, phase, s.len() as int);
}

proof fn lemma_without_fired_once_clean(s: Seq<EventListener>, phase: EventPhase, n: int)
    requires
        0 <= n <= s.len(),
    ensures
        forall|i: int|
            0 <= i < without_fired_once(s, phase, n).len() ==> !(#[trigger] without_fired_once(s, phase, n)[i].once
                && fires_in(without_fired_once(s, phase, n)[i], phase)),
    decreases n,
{
    if n > 0 {
        lemma_without_fired_once_clean(s, phase, n - 1);
        let prev = without_fired_once(s, phase, n - 1);
        if !(fires_in(s[n - 1], phase) && s[n - 1].once) {
            assert forall|i: int| 0 <= i < prev.push(s[n - 1]).len() implies !(#[trigger] prev.push(s[n - 1])[i].once
                && fires_in(prev.push(s[n - 1])[i], phase)) by {
                if i < prev.len() {
                    assert(prev.push(s[n - 1])[i] == prev[i]);
                }
            }
        }
    }
}

/// What a listener run asks of its caller.
#[derive(Debug, Clone, Copy, PartialEq, Eq, Structural)]
pub enum RunStep {
    /// Call the listener with this callback, then step again with the event's
    /// stopImmediatePropagation flag.
    Call(u64),
    /// The run is over; `stop_immediate` tells whether stopImmediatePropagation
    /// ended it.
    Finished { stop_immediate: bool },
}

/// The firing of one target's listeners for one phase: the listeners are those
/// registered when the run started; after each call the run ends if
/// stopImmediatePropagation was called.
#[derive(Debug)]
pub struct ListenerRun {
    snapshot: Vec<EventListener>,
    phase: EventPhase,
    next: usize,
    made: usize,
    once_positions: Vec<usize>,
    done: bool,
    stopped: bool,
}

impl ListenerRun {
    /// The listeners the run works on.
    pub closed spec fn snapshot(&self) -> Seq<EventListener> {
        self.snapshot@
    }

    pub closed spec fn phase(&self) -> EventPhase {
        self.phase
    }

    /// Number of listener calls asked for so far.
    pub closed spec fn made(&self) -> nat {
        self.made as nat
    }

    pub closed spec fn is_done(&self) -> bool {
        self.done
    }

    pub closed spec fn ended_by_stop(&self) -> bool {
        self.stopped
    }

    /// The callbacks the run calls when nothing stops it.
    pub open spec fn calls(&self) -> Seq<u64> {
        fire_calls(self.snapshot(), self.phase(), self.snapshot().len() as int)
    }

    pub closed spec fn wf(&self) -> bool {
        &&& self.next <= self.snapshot@.len()
        &&& self.made == fire_calls(self.snapshot@, self.phase, self.next as int).len()
        &&& self.once_positions@ == once_fired_upto(
            self.snapshot@,
            self.phase,
            self.made as int,
            self.next as int,
        )
        &&& (self.stopped ==> self.done)
        &&& (self.done && !self.stopped ==> self.next == self.snapshot@.len())
    }

    /// Start firing `target`'s listeners for `event_type` in `phase`.
    pub fn start(target: &EventTargetData, event_type: &str, phase: EventPhase) -> (r: Self)
        requires
            target.wf(),
        ensures
            r.wf(),
            r.snapshot() == target.listeners_for(event_type@),
            r.phase() == phase,
            r.made() == 0,
            !r.is_done(),
    {
        let snapshot = target.listeners_snapshot(event_type);
        ListenerRun {
            snapshot,
            phase,
            next: 0,
            made: 0,
            once_positions: Vec::new(),
            done: false,
            stopped: false,
        }
    }

    /// Advance the run. `stop_immediate` is the event's stopImmediatePropagation
    /// flag as it stands after the previous call (it is not looked at before the
    /// first call).
    pub fn step(&mut self, stop_immediate: bool) -> (r: RunStep)
        requires
            old(self).wf(),
        ensures
            final(self).wf(),
            final(self).snapshot() == old(self).snapshot(),
            final(self).phase() == old(self).phase(),
            old(self).is_done() ==> r == (RunStep::Finished {
                stop_immediate: old(self).ended_by_stop(),
            }) && final(self).made() == old(self).made() && final(self).is_done(),
            !old(self).is_done() && old(self).made() > 0 && stop_immediate ==> r
                == (RunStep::Finished { stop_immediate: true }) && final(self).made() == old(self).made() && final(self).is_done() && final(self).ended_by_stop(),
            !old(self).is_done() && !(old(self).made() > 0 && stop_immediate) && old(self).made()
                < old(self).calls().len() ==> r == RunStep::Call(old(self).calls()[old(self).made() as int])
                && final(self).made() == old(self).made() + 1 && !final(self).is_done(),
            !old(self).is_done() && !(old(self).made() > 0 && stop_immediate) && old(self).made()
                >= old(self).calls().len() ==> r == (RunStep::Finished { stop_immediate: false })
                && final(self).made() == old(self).made() && final(self).is_done()
                && !final(self).ended_by_stop(),
    {
        if self.done {
            return RunStep::Finished { stop_immediate: self.stopped };
        }
        if self.made > 0 && stop_immediate {
            self.done = true;
            self.stopped = true;
            return RunStep::Finished { stop_immediate: true };
        }
        let ghost s = self.snapshot@;
        let ghost ph = self.phase;
        proof {
            lemma_fire_calls_prefix(s, ph, self.next as int, s.len() as int);
        }
        let mut j: usize = self.next;
        while j < self.snapshot.len()
            invariant
                self.snapshot@ == s,
                self.phase == ph,
                self.next <= j <= s.len(),
                fire_calls(s, ph, j as int) == fire_calls(s, ph, self.next as int),
            ensures
                self.next <= j <= s.len(),
                fire_calls(s, ph, j as int) == fire_calls(s, ph, self.next as int),
                j < s.len() ==> fires_in(s[j as int], ph),
            decreases s.len() - j,
        {
            let l = self.snapshot[j];
            let fires = !l.aborted && match self.phase {
                EventPhase::CapturingPhase => l.capture,
                EventPhase::BubblingPhase => !l.capture,
                EventPhase::AtTarget => true,
                EventPhase::NoPhase => false,
            };
            if fires {
                break;
            }
            j = j + 1;
        }
        if j >= self.snapshot.len() {
            proof {
                lemma_once_stable(s, ph, self.made as int, self.next as int, s.len() as int);
            }
            self.next = self.snapshot.len();
            self.done = true;
            return RunStep::Finished { stop_immediate: false };
        }
        let l = self.snapshot[j];
        assert(fires_in(l, ph));
        assert(fire_calls(s, ph, j + 1) == fire_calls(s, ph, j as int).push(l.callback));
        proof {
            lemma_fire_calls_len(s, ph, j + 1);
            lemma_fire_calls_prefix(s, ph, j + 1, s.len() as int);
            lemma_once_stable(s, ph, self.made as int, self.next as int, j as int);
            lemma_once_bound(s, ph, self.made as int, self.made + 1, j as int);
        }
        if l.once {
            self.once_positions.push(j);
        }
        self.made = self.made + 1;
        self.next = j + 1;
        RunStep::Call(l.callback)
    }

    /// Positions (in the run's snapshot) of the `once` listeners that were called.
    pub fn once_positions(&self) -> (r: &Vec<usize>)
        requires
            self.wf(),
            self.is_done(),
        ensures
            r@ == once_fired_upto(
                self.snapshot(),
                self.phase(),
                self.made() as int,
                self.snapshot().len() as int,
            ),
    {
        proof {
            lemma_fire_calls_prefix(self.snapshot@, self.phase, self.next as int, self.snapshot@.len() as int);
            lemma_once_stable(self.snapshot@, self.phase, self.made as int, self.next as int, self.snapshot@.len() as int);
        }
        &self.once_positions
    }
}

/// The third argument of `addEventListener` / `removeEventListener`.
#[derive(Debug, Clone, Copy, PartialEq, Eq, Structural)]
pub enum ListenerOptions {
    /// A boolean: the capture flag.
    Flag(bool),
    /// An options object, its `capture`, `once` and `passive` read as booleans.
    Dict { capture: bool, once: bool, passive: bool },
    /// Anything else (undefined, a number, ...).
    Other,
}

/// The `EventTarget` object.
pub struct EventTarget;

impl EventTarget {
    /// The state of a new event target: no listeners.
    pub fn create() -> (t: EventTargetData)
        ensures
            t.wf(),
            forall|e: Seq<char>| #[trigger] t.listeners_for(e) == Seq::<EventListener>::empty(),
    {
        EventTargetData::new()
    }

    /// The `(capture, once, passive)` flags `addEventListener` reads from its
    /// options: a boolean gives the capture flag alone, an object gives all
    /// three, anything else none.
    pub fn listener_flags(options: ListenerOptions) -> (r: (bool, bool, bool))
        ensures
            r == match options {
                ListenerOptions::Flag(b) => (b, false, false),
                ListenerOptions::Dict { capture, once, passive } => (capture, once, passive),
                ListenerOptions::Other => (false, false, false),
            },
    {
        match options {
            ListenerOptions::Flag(b) => (b, false, false),
            ListenerOptions::Dict { capture, once, passive } => (capture, once, passive),
            ListenerOptions::Other => (false, false, false),
        }
    }

    /// The capture flag `removeEventListener` reads from its options.
    pub fn removal_capture(options: ListenerOptions) -> (r: bool)
        ensures
            r == match options {
                ListenerOptions::Flag(b) => b,
                ListenerOptions::Dict { capture, .. } => capture,
                ListenerOptions::Other => false,
            },
    {
        match options {
            ListenerOptions::Flag(b) => b,
            ListenerOptions::Dict { capture, .. } => capture,
            ListenerOptions::Other => false,
        }
    }
}


proof fn lemma_fire_calls_filter(s: Seq<EventListener>, phase: EventPhase, p: spec_fn(EventListener) -> bool, n: int)
    requires
        0 <= n <= s.len(),
        forall|l: EventListener| #[trigger] fires_in(l, phase) == p(l),
    ensures
        fire_calls(s, phase, n) == s.take(n).filter(p).map_values(|l: EventListener| l.callback),
    decreases n,
{
    reveal_with_fuel(Seq::<EventListener>::filter, 1);
    if n == 0 {
        assert(s.take(0) =~= Seq::<EventListener>::empty());
        assert(s.take(0).filter(p).map_values(|l: EventListener| l.callback) =~= Seq::<u64>::empty());
    } else {
        lemma_fire_calls_filter(s, phase, p, n - 1);
        let t = s.take(n);
        assert(t.drop_last() =~= s.take(n - 1));
        assert(t.last() == s[n - 1]);
        let prev = s.take(n - 1).filter(p);
        if p(s[n - 1]) {
            assert(t.filter(p) == prev.push(s[n - 1]));
            assert(prev.push(s[n - 1]).map_values(|l: EventListener| l.callback) =~= prev.map_values(
                |l: EventListener| l.callback,
            ).push(s[n - 1].callback));
        } else {
            assert(t.filter(p) == prev);
        }
    }
}

/// The listeners that run when a target is visited: in the capturing phase
/// exactly the active listeners registered with `capture`, in the bubbling
/// phase exactly the active ones registered without it, at the target every
/// active listener, and none outside of a dispatch; always in the order they
/// were added.
pub proof fn law_phase_selects_listeners(s: Seq<EventListener>)
    ensures
        fire_calls(s, EventPhase::CapturingPhase, s.len() as int) == s.filter(
            |l: EventListener| !l.aborted && l.capture,
        ).map_values(|l: EventListener| l.callback),
        fire_calls(s, EventPhase::BubblingPhase, s.len() as int) == s.filter(
            |l: EventListener| !l.aborted && !l.capture,
        ).map_values(|l: EventListener| l.callback),
        fire_calls(s, EventPhase::AtTarget, s.len() as int) == s.filter(|l: EventListener| !l.aborted).map_values(
            |l: EventListener| l.callback,
        ),
        fire_calls(s, EventPhase::NoPhase, s.len() as int) == Seq::<u64>::empty(),
{
    assert(s.take(s.len() as int) =~= s);
    lemma_fire_calls_filter(s, EventPhase::CapturingPhase, |l: EventListener| !l.aborted && l.capture, s.len() as int);
    lemma_fire_calls_filter(s, EventPhase::BubblingPhase, |l: EventListener| !l.aborted && !l.capture, s.len() as int);
    lemma_fire_calls_filter(s, EventPhase::AtTarget, |l: EventListener| !l.aborted, s.len() as int);
    lemma_fire_calls_filter(s, EventPhase::NoPhase, |l: EventListener| false, s.len() as int);
    assert(s.filter(|l: EventListener| false).len() == 0) by {
        s.filter_lemma(|l: EventListener| false);
        if s.filter(|l: EventListener| false).len() > 0 {
            assert((|l: EventListener| false)(s.filter(|l: EventListener| false)[0]));
        }
    }
    assert(s.filter(|l: EventListener| false).map_values(|l: EventListener| l.callback) =~= Seq::<u64>::empty());
}

/// `removeEventListener(type, callback, capture)` drops exactly the listeners
/// with that callback and that capture flag: every listener whose callback or
/// capture flag differs stays, none with both left, and without a callback
/// nothing is dropped.
pub proof fn law_remove_drops_only_same_flag(s: Seq<EventListener>, callback: u64, capture: bool)
    ensures
        forall|i: int|
            0 <= i < s.len() && ((#[trigger] s[i]).callback != callback || s[i].capture != capture)
                ==> without_matching(s, Some(callback), capture).contains(s[i]),
        forall|j: int|
            0 <= j < without_matching(s, Some(callback), capture).len() ==> !((#[trigger] without_matching(
                s,
                Some(callback),
                capture,
            )[j]).callback == callback && without_matching(s, Some(callback), capture)[j].capture == capture),
        without_matching(s, None, capture) == s,
{
    let pred = |l: EventListener| !l.spec_matches(Some(callback), capture);
    s.filter_lemma(pred);
    assert(without_matching(s, Some(callback), capture) == s.filter(pred));
    assert forall|j: int| 0 <= j < s.filter(pred).len() implies !((#[trigger] s.filter(pred)[j]).callback
        == callback && s.filter(pred)[j].capture == capture) by {
        assert(pred(s.filter(pred)[j]));
    }
    assert forall|i: int| 0 <= i < s.len() && ((#[trigger] s[i]).callback != callback || s[i].capture != capture)
        implies s.filter(pred).contains(s[i]) by {
        assert(pred(s[i]));
    }
    lemma_without_matching_none(s, None, capture);
}

} // verus!
