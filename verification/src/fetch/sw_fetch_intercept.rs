//! Service-worker fetch interception: the registry of scopes whose worker
//! handles `fetch` events, and the choice of the worker that controls a URL.
use vstd::prelude::*;

use crate::text::{is_prefix, starts_with, str_eq};

verus! {

/// A service worker's fetch handler.
pub struct ServiceWorkerFetchHandler {
    /// The scope this service worker controls.
    pub scope: String,
    /// Whether a fetch event handler is registered.
    pub has_fetch_handler: bool,
    /// Identifies the callback that dispatches a FetchEvent to the worker.
    pub dispatch_id: u64,
}

/// The registry of service-worker fetch handlers, one per scope.
pub struct SwFetchRegistry {
    entries: Vec<(String, ServiceWorkerFetchHandler)>,
}

pub open spec fn scopes_unique(s: Seq<(Seq<char>, bool, u64)>) -> bool {
    forall|i: int, j: int| 0 <= i < s.len() && 0 <= j < s.len() && i != j ==> s[i].0 != s[j].0
}

/// Whether a registered scope controls `url`: it has a fetch handler and
/// `url` starts with it.
pub open spec fn controls(e: (Seq<char>, bool, u64), url: Seq<char>) -> bool {
    e.1 && is_prefix(e.0, url)
}

/// The controlling scope of `url`: the longest scope that controls it.
pub open spec fn is_controlling_scope(s: Seq<(Seq<char>, bool, u64)>, url: Seq<char>, scope: Seq<char>) -> bool {
    &&& exists|i: int| 0 <= i < s.len() && s[i].0 == scope && controls(s[i], url)
    &&& forall|j: int| 0 <= j < s.len() && #[trigger] controls(s[j], url) ==> s[j].0.len() <= scope.len()
}

impl SwFetchRegistry {
    /// Each registered scope, whether it handles fetch, and its dispatch id.
    pub closed spec fn view(&self) -> Seq<(Seq<char>, bool, u64)> {
        self.entries@.map_values(|e: (String, ServiceWorkerFetchHandler)| (e.0@, e.1.has_fetch_handler, e.1.dispatch_id))
    }

    pub open spec fn wf(&self) -> bool {
        scopes_unique(self@)
    }

    /// Whether `scope` is registered.
    pub open spec fn has_scope(&self, scope: Seq<char>) -> bool {
        exists|i: int| 0 <= i < self@.len() && self@[i].0 == scope
    }

    /// An empty registry.
    pub fn new() -> (r: Self)
        ensures
            r.wf(),
            r@ == Seq::<(Seq<char>, bool, u64)>::empty(),
    {
        let r = SwFetchRegistry { entries: Vec::new() };
        proof {
            assert(r@ =~= Seq::<(Seq<char>, bool, u64)>::empty());
        }
        r
    }

    fn position(&self, scope: &str) -> (r: Option<usize>)
        ensures
            match r {
                Some(i) => i < self@.len() && self@[i as int].0 == scope@,
                None => forall|i: int| 0 <= i < self@.len() ==> self@[i].0 != scope@,
            },
    {
        let mut i: usize = 0;
        while i < self.entries.len()
            invariant
                0 <= i <= self.entries@.len(),
                self@.len() == self.entries@.len(),
                forall|j: int| 0 <= j < i ==> self@[j].0 != scope@,
            decreases self.entries@.len() - i,
        {
            if str_eq(self.entries[i].0.as_str(), scope) {
                return Some(i);
            }
            i = i + 1;
        }
        None
    }

    /// Register a service worker's fetch handler for a scope, replacing an
    /// earlier one for the same scope.
    pub fn register_sw_fetch_handler(&mut self, scope: String, handler: ServiceWorkerFetchHandler)
        requires
            old(self).wf(),
        ensures
            final(self).wf(),
            exists|i: int|
                0 <= i < final(self)@.len() && final(self)@[i] == (scope@, handler.has_fetch_handler, handler.dispatch_id),
            forall|e: (Seq<char>, bool, u64)| e.0 != scope@ ==> (final(self)@.contains(e) <==> old(self)@.contains(e)),
    {
        let ghost old_s = self@;
        let ghost ev = (scope@, handler.has_fetch_handler, handler.dispatch_id);
        match self.position(scope.as_str()) {
            Some(i) => {
                self.entries.set(i, (scope, handler));
                proof {
                    let s = self@;
                    assert(s =~= old_s.update(i as int, ev));
                    assert(s[i as int] == ev);
                    assert forall|e: (Seq<char>, bool, u64)| e.0 != ev.0 implies (s.contains(e) <==> old_s.contains(e)) by {
                        if s.contains(e) {
                            let k = choose|k: int| 0 <= k < s.len() && s[k] == e;
                            assert(k != i);
                            assert(old_s[k] == e);
                        }
                        if old_s.contains(e) {
                            let k = choose|k: int| 0 <= k < old_s.len() && old_s[k] == e;
                            assert(k != i);
                            assert(s[k] == e);
                        }
                    }
                }
            },
            None => {
                self.entries.push((scope, handler));
                proof {
                    let s = self@;
                    assert(s =~= old_s.push(ev));
                    assert(s[old_s.len() as int] == ev);
                    assert forall|e: (Seq<char>, bool, u64)| e.0 != ev.0 implies (s.contains(e) <==> old_s.contains(e)) by {
                        if s.contains(e) {
                            let k = choose|k: int| 0 <= k < s.len() && s[k] == e;
                            assert(k != old_s.len());
                            assert(old_s[k] == e);
                        }
                        if old_s.contains(e) {
                            let k = choose|k: int| 0 <= k < old_s.len() && old_s[k] == e;
                            assert(s[k] == e);
                        }
                    }
                }
            },
        }
    }

    /// Unregister the fetch handler of a scope.
    pub fn unregister_sw_fetch_handler(&mut self, scope: &str)
        requires
            old(self).wf(),
        ensures
            final(self).wf(),
            !final(self).has_scope(scope@),
            forall|e: (Seq<char>, bool, u64)| e.0 != scope@ ==> (final(self)@.contains(e) <==> old(self)@.contains(e)),
    {
        let ghost old_s = self@;
        match self.position(scope) {
            Some(i) => {
                self.entries.remove(i);
                proof {
                    let s = self@;
                    assert(s =~= old_s.remove(i as int));
                    assert forall|e: (Seq<char>, bool, u64)| e.0 != scope@ implies (s.contains(e) <==> old_s.contains(e)) by {
                        if s.contains(e) {
                            let k = choose|k: int| 0 <= k < s.len() && s[k] == e;
                            if k < i {
                                assert(old_s[k] == e);
                            } else {
                                assert(old_s[k + 1] == e);
                            }
                        }
                        if old_s.contains(e) {
                            let k = choose|k: int| 0 <= k < old_s.len() && old_s[k] == e;
                            assert(k != i);
                            if k < i {
                                assert(s[k] == e);
                            } else {
                                assert(s[k - 1] == e);
                            }
                        }
                    }
                    assert forall|a: int| 0 <= a < s.len() implies s[a].0 != scope@ by {
                        if a < i {
                            assert(s[a] == old_s[a]);
                        } else {
                            assert(s[a] == old_s[a + 1]);
                        }
                    }
                }
            },
            None => {},
        }
    }

    /// The scope of the service worker that controls `url`: among the scopes
    /// with a fetch handler that `url` starts with, the longest.
    pub fn find_controlling_sw(&self, url: &str) -> (r: Option<String>)
        requires
            self.wf(),
        ensures
            match r {
                Some(s) => is_controlling_scope(self@, url@, s@),
                None => forall|i: int| 0 <= i < self@.len() ==> !controls(#[trigger] self@[i], url@),
            },
    {
        let mut best: Option<usize> = None;
        let mut i: usize = 0;
        while i < self.entries.len()
            invariant
                0 <= i <= self.entries@.len(),
                self@.len() == self.entries@.len(),
                match best {
                    Some(b) => b < i && controls(self@[b as int], url@) && forall|j: int|
                        0 <= j < i && #[trigger] controls(self@[j], url@) ==> self@[j].0.len() <= self@[b as int].0.len(),
                    None => forall|j: int| 0 <= j < i ==> !controls(#[trigger] self@[j], url@),
                },
            decreases self.entries@.len() - i,
        {
            let e = &self.entries[i];
            proof {
                assert(self@[i as int] == (e.0@, e.1.has_fetch_handler, e.1.dispatch_id));
            }
            if e.1.has_fetch_handler && starts_with(url, e.0.as_str()) {
                let len = e.0.unicode_len();
                let better = match best {
                    Some(b) => len > self.entries[b].0.unicode_len(),
                    None => true,
                };
                if better {
                    best = Some(i);
                }
            }
            i = i + 1;
        }
        match best {
            Some(b) => {
                let s = self.entries[b].0.clone();
                proof {
                    assert(self@[b as int].0 == s@);
                }
                Some(s)
            },
            None => None,
        }
    }
}

} // verus!
