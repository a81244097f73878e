//! Event dispatch through the capturing, at-target and bubbling phases
//! (https://dom.spec.whatwg.org/#concept-event-dispatch).
//!
//! The decisions of a dispatch are made here; the embedding performs the
//! listener calls. A [`DispatchPlan`] hands out the (node, phase) visits in
//! order and ends the dispatch once propagation is stopped; at each visit a
//! [`super::event_target::ListenerRun`] or a [`CallQueue`] hands out the
//! listener calls.
use vstd::prelude::*;
use super::event::{EventData, EventPhase, EventView};
use super::event_target::{EventTargetData, fire_calls};

verus! {

/// One visit of the dispatch: the node whose listeners run, and the phase.
#[derive(Debug, Clone, Copy, PartialEq, Eq, Structural)]
pub struct Visit {
    pub node: u64,
    pub phase: EventPhase,
}

/// The visits of a full dispatch: the ancestors from the root down to the
/// target's parent in the capturing phase, the target, and, for a bubbling
/// event, the ancestors from the target's parent up to the root.
pub open spec fn schedule(path: Seq<u64>, target: u64, bubbles: bool) -> Seq<Visit> {
    let n = path.len() as int;
    let len = if bubbles {
        2 * n + 1
    } else {
        n + 1
    };
    Seq::new(
        len as nat,
        |k: int|
            if k < n {
                Visit { node: path[k], phase: EventPhase::CapturingPhase }
            } else if k == n {
                Visit { node: target, phase: EventPhase::AtTarget }
            } else {
                Visit { node: path[2 * n - k], phase: EventPhase::BubblingPhase }
            },
    )
}

/// Whether a step of a dispatch at visit `pos` of `len`, with the
/// stopPropagation flag `stopped`, hands out a visit: the dispatch is not over,
/// visits remain, and propagation is not stopped (an `EventTarget` dispatch
/// makes its first capturing visit before it looks at the flag).
pub open spec fn step_goes(len: nat, pos: nat, done: bool, stopped: bool, first_unchecked: bool, path_len: nat) -> bool {
    !done && pos < len && (!stopped || (first_unchecked && pos == 0 && path_len > 0))
}

/// The visits a dispatch hands out from visit `pos` on, when the flag seen at
/// each step is the next of `stops`: once a step hands out nothing, the
/// dispatch is over.
pub open spec fn run_visits(visits: Seq<Visit>, pos: nat, stops: Seq<bool>, first_unchecked: bool, path_len: nat) -> Seq<
    Visit,
>
    decreases stops.len(),
{
    if stops.len() > 0 && step_goes(visits.len(), pos, false, stops[0], first_unchecked, path_len) {
        seq![visits[pos as int]] + run_visits(visits, pos + 1, stops.drop_first(), first_unchecked, path_len)
    } else {
        Seq::empty()
    }
}

proof fn lemma_run_from(visits: Seq<Visit>, pos: nat, stops: Seq<bool>, first_unchecked: bool, path_len: nat)
    requires
        pos <= visits.len(),
    ensures
        pos + run_visits(visits, pos, stops, first_unchecked, path_len).len() <= visits.len(),
        run_visits(visits, pos, stops, first_unchecked, path_len) == visits.subrange(
            pos as int,
            (pos + run_visits(visits, pos, stops, first_unchecked, path_len).len()) as int,
        ),
        (forall|i: int| 0 <= i < stops.len() ==> !stops[i]) && pos + stops.len() >= visits.len() ==> run_visits(
            visits,
            pos,
            stops,
            first_unchecked,
            path_len,
        ) == visits.subrange(pos as int, visits.len() as int),
    decreases stops.len(),
{
    if stops.len() > 0 && step_goes(visits.len(), pos, false, stops[0], first_unchecked, path_len) {
        let rest = run_visits(visits, pos + 1, stops.drop_first(), first_unchecked, path_len);
        lemma_run_from(visits, pos + 1, stops.drop_first(), first_unchecked, path_len);
        assert(seq![visits[pos as int]] + rest =~= visits.subrange(pos as int, (pos + 1 + rest.len()) as int));
        if (forall|i: int| 0 <= i < stops.len() ==> !stops[i]) && pos + stops.len() >= visits.len() {
            assert forall|i: int| 0 <= i < stops.drop_first().len() implies !stops.drop_first()[i] by {
                assert(stops.drop_first()[i] == stops[i + 1]);
            }
            assert(seq![visits[pos as int]] + rest =~= visits.subrange(pos as int, visits.len() as int));
        }
    } else {
        assert(visits.subrange(pos as int, pos as int) =~= Seq::<Visit>::empty());
        if (forall|i: int| 0 <= i < stops.len() ==> !stops[i]) && pos + stops.len() >= visits.len() {
            if pos < visits.len() {
                assert(!stops[0]);
            }
            assert(visits.subrange(pos as int, visits.len() as int) =~= Seq::<Visit>::empty());
        }
    }
}

/// A whole dispatch: whatever flags the listeners leave, the visits handed out
/// are the schedule's first visits, in order; when propagation is never
/// stopped, they are the whole schedule (capturing from the root, the target,
/// then bubbling up for a bubbling event).
pub proof fn law_dispatch_runs_the_schedule(
    path: Seq<u64>,
    target: u64,
    bubbles: bool,
    stops: Seq<bool>,
    first_unchecked: bool,
)
    ensures
        ({
            let visits = schedule(path, target, bubbles);
            let run = run_visits(visits, 0, stops, first_unchecked, path.len());
            &&& run.len() <= visits.len()
            &&& run == visits.take(run.len() as int)
        }),
        (forall|i: int| 0 <= i < stops.len() ==> !stops[i]) && stops.len() >= schedule(path, target, bubbles).len()
            ==> run_visits(schedule(path, target, bubbles), 0, stops, first_unchecked, path.len()) == schedule(
            path,
            target,
            bubbles,
        ),
{
    let visits = schedule(path, target, bubbles);
    lemma_run_from(visits, 0, stops, first_unchecked, path.len());
    let run = run_visits(visits, 0, stops, first_unchecked, path.len());
    assert(visits.subrange(0, run.len() as int) =~= visits.take(run.len() as int));
    assert(visits.subrange(0, visits.len() as int) =~= visits);
}

/// The order in which a dispatch visits nodes.
#[derive(Debug)]
pub struct DispatchPlan {
    path: Vec<u64>,
    target: u64,
    bubbles: bool,
    pos: usize,
    done: bool,
    first_capture_unchecked: bool,
    prevented: bool,
}

impl DispatchPlan {
    /// Ancestors of the target, root first.
    pub closed spec fn path(&self) -> Seq<u64> {
        self.path@
    }

    pub closed spec fn target(&self) -> u64 {
        self.target
    }

    pub closed spec fn bubbles(&self) -> bool {
        self.bubbles
    }

    /// Number of visits handed out.
    pub closed spec fn pos(&self) -> nat {
        self.pos as nat
    }

    pub closed spec fn is_done(&self) -> bool {
        self.done
    }

    /// Whether the first capturing visit happens even when propagation was
    /// already stopped (the EventTarget dispatch checks after each node).
    pub closed spec fn first_capture_unchecked(&self) -> bool {
        self.first_capture_unchecked
    }

    /// Whether a listener call was seen to leave the default prevented.
    pub closed spec fn prevented(&self) -> bool {
        self.prevented
    }

    pub open spec fn visits(&self) -> Seq<Visit> {
        schedule(self.path(), self.target(), self.bubbles())
    }

    pub closed spec fn wf(&self) -> bool {
        &&& self.pos <= schedule(self.path@, self.target, self.bubbles).len()
        &&& self.path@.len() < usize::MAX / 4
    }

    fn from_ancestors(ancestors: Vec<u64>, target: u64, bubbles: bool, first_capture_unchecked: bool) -> (r: Self)
        requires
            ancestors@.len() < usize::MAX / 4,
        ensures
            r.wf(),
            r.path() == ancestors@.reverse(),
            r.target() == target,
            r.bubbles() == bubbles,
            r.pos() == 0,
            !r.is_done(),
            !r.prevented(),
            r.first_capture_unchecked() == first_capture_unchecked,
    {
        let mut path: Vec<u64> = Vec::new();
        let mut i: usize = ancestors.len();
        while i > 0
            invariant
                i <= ancestors@.len(),
                path@ == ancestors@.subrange(i as int, ancestors@.len() as int).reverse(),
            decreases i,
        {
            path.push(ancestors[i - 1]);
            i = i - 1;
            assert(path@ =~= ancestors@.subrange(i as int, ancestors@.len() as int).reverse());
        }
        assert(ancestors@.subrange(0, ancestors@.len() as int) =~= ancestors@);
        DispatchPlan { path, target, bubbles, pos: 0, done: false, first_capture_unchecked, prevented: false }
    }

    /// The plan of `EventTarget.dispatchEvent`: `ancestors` lists the target's
    /// ancestors from its parent up to the root; stopPropagation is looked at after
    /// each visited node.
    pub fn for_event_target(ancestors: Vec<u64>, target: u64, bubbles: bool) -> (r: Self)
        requires
            ancestors@.len() < usize::MAX / 4,
        ensures
            r.wf(),
            r.path() == ancestors@.reverse(),
            r.target() == target,
            r.bubbles() == bubbles,
            r.pos() == 0,
            !r.is_done(),
            !r.prevented(),
            r.first_capture_unchecked(),
    {
        Self::from_ancestors(ancestors, target, bubbles, true)
    }

    /// The plan of the propagation dispatch for DOM elements: stopPropagation is
    /// looked at before each node.
    pub fn for_propagation(ancestors: Vec<u64>, target: u64, bubbles: bool) -> (r: Self)
        requires
            ancestors@.len() < usize::MAX / 4,
        ensures
            r.wf(),
            r.path() == ancestors@.reverse(),
            r.target() == target,
            r.bubbles() == bubbles,
            r.pos() == 0,
            !r.is_done(),
            !r.prevented(),
            !r.first_capture_unchecked(),
    {
        Self::from_ancestors(ancestors, target, bubbles, false)
    }

    /// The next visit, or `None` when the dispatch is over. `stopped` is the
    /// event's stopPropagation flag as it stands now.
    pub fn step(&mut self, stopped: bool) -> (r: Option<Visit>)
        requires
            old(self).wf(),
        ensures
            final(self).wf(),
            final(self).path() == old(self).path(),
            final(self).target() == old(self).target(),
            final(self).bubbles() == old(self).bubbles(),
            final(self).first_capture_unchecked() == old(self).first_capture_unchecked(),
            final(self).prevented() == old(self).prevented(),
            ({
                let go = step_goes(
                    old(self).visits().len(),
                    old(self).pos(),
                    old(self).is_done(),
                    stopped,
                    old(self).first_capture_unchecked(),
                    old(self).path().len(),
                );
                &&& go ==> r == Some(old(self).visits()[old(self).pos() as int]) && final(self).pos()
                    == old(self).pos() + 1 && !final(self).is_done()
                &&& !go ==> r is None && final(self).pos() == old(self).pos() && final(self).is_done()
            }),
    {
        let n = self.path.len();
        let len = if self.bubbles {
            2 * n + 1
        } else {
            n + 1
        };
        let go = !self.done && self.pos < len && (!stopped || (self.first_capture_unchecked
            && self.pos == 0 && n > 0));
        if !go {
            self.done = true;
            return None;
        }
        let k = self.pos;
        let v = if k < n {
            Visit { node: self.path[k], phase: EventPhase::CapturingPhase }
        } else if k == n {
            Visit { node: self.target, phase: EventPhase::AtTarget }
        } else {
            Visit { node: self.path[2 * n - k], phase: EventPhase::BubblingPhase }
        };
        self.pos = k + 1;
        Some(v)
    }

    /// Record the event's defaultPrevented flag as it stands after a listener
    /// call.
    pub fn note_listener_result(&mut self, default_prevented: bool)
        ensures
            final(self).prevented() == (old(self).prevented() || default_prevented),
            final(self).path() == old(self).path(),
            final(self).target() == old(self).target(),
            final(self).bubbles() == old(self).bubbles(),
            final(self).pos() == old(self).pos(),
            final(self).is_done() == old(self).is_done(),
            final(self).first_capture_unchecked() == old(self).first_capture_unchecked(),
            old(self).wf() ==> final(self).wf(),
    {
        self.prevented = self.prevented || default_prevented;
    }

    /// Result of the propagation dispatch: true unless a listener call left the
    /// default prevented.
    pub fn propagation_result(&self) -> (b: bool)
        ensures
            b == !self.prevented(),
    {
        !self.prevented
    }
}

/// Start of `dispatchEvent`: an event with an empty type is not dispatched,
/// and `dispatchEvent` answers `true` at once with nothing changed (the
/// result is then `Some(true)`); otherwise its target is set and the
/// dispatch goes on (`None`).
pub fn begin_dispatch(event: &mut EventData, target: u64) -> (r: Option<bool>)
    ensures
        old(event)@.event_type.len() == 0 ==> r == Some(true) && final(event)@ == old(event)@,
        old(event)@.event_type.len() > 0 ==> r is None && final(event)@ == (EventView {
            target: Some(target),
            ..old(event)@
        }),
{
    if event.get_type().unicode_len() == 0 {
        return Some(true);
    }
    event.set_target(Some(target));
    None
}

/// Enter a visit: the event's phase and current target follow it.
pub fn enter_visit(event: &mut EventData, v: Visit)
    ensures
        final(event)@ == (EventView {
            phase: v.phase,
            current_target: Some(v.node),
            ..old(event)@
        }),
{
    event.set_phase(v.phase);
    event.set_current_target(Some(v.node));
}

/// End of `dispatchEvent`: the phase and current target are reset, and the
/// result is true exactly when the default was not prevented.
pub fn finish_dispatch(event: &mut EventData) -> (b: bool)
    ensures
        final(event)@ == (EventView {
            phase: EventPhase::NoPhase,
            current_target: None,
            ..old(event)@
        }),
        b == !old(event)@.default_prevented,
{
    event.set_phase(EventPhase::NoPhase);
    event.set_current_target(None);
    !event.get_default_prevented()
}

/// The listener calls of one visit in the propagation dispatch: before each call
/// the run ends if stopImmediatePropagation was called.
#[derive(Debug)]
pub struct CallQueue {
    calls: Vec<u64>,
    next: usize,
    done: bool,
}

impl CallQueue {
    pub closed spec fn calls(&self) -> Seq<u64> {
        self.calls@
    }

    pub closed spec fn next(&self) -> nat {
        self.next as nat
    }

    pub closed spec fn is_done(&self) -> bool {
        self.done
    }

    pub closed spec fn wf(&self) -> bool {
        self.next <= self.calls@.len()
    }

    pub fn new(calls: Vec<u64>) -> (q: Self)
        ensures
            q.wf(),
            q.calls() == calls@,
            q.next() == 0,
            !q.is_done(),
    {
        CallQueue { calls, next: 0, done: false }
    }

    /// The next callback to call, or `None` when the queue is over.
    pub fn step(&mut self, stop_immediate: bool) -> (r: Option<u64>)
        requires
            old(self).wf(),
        ensures
            final(self).wf(),
            final(self).calls() == old(self).calls(),
            ({
                let go = !old(self).is_done() && old(self).next() < old(self).calls().len()
                    && !stop_immediate;
                &&& go ==> r == Some(old(self).calls()[old(self).next() as int]) && final(self).next() == old(self).next() + 1 && !final(self).is_done()
                &&& !go ==> r is None && final(self).next() == old(self).next() && final(self).is_done()
            }),
    {
        if self.done || self.next >= self.calls.len() || stop_immediate {
            self.done = true;
            return None;
        }
        let c = self.calls[self.next];
        self.next = self.next + 1;
        Some(c)
    }
}

impl EventTargetData {
    /// Callbacks of the active listeners of `event_type` whose capture flag is
    /// `capture`, in registration order.
    pub fn listeners_for_phase(&self, event_type: &str, capture: bool) -> (r: Vec<u64>)
        requires
            self.wf(),
        ensures
            r@ == fire_calls(
                self.listeners_for(event_type@),
                if capture {
                    EventPhase::CapturingPhase
                } else {
                    EventPhase::BubblingPhase
                },
                self.listeners_for(event_type@).len() as int,
            ),
    {
        let list = self.listeners_snapshot(event_type);
        let ghost ph = if capture {
            EventPhase::CapturingPhase
        } else {
            EventPhase::BubblingPhase
        };
        let mut out: Vec<u64> = Vec::new();
        let mut i: usize = 0;
        while i < list.len()
            invariant
                i <= list@.len(),
                out@ == fire_calls(list@, ph, i as int),
                ph == (if capture {
                    EventPhase::CapturingPhase
                } else {
                    EventPhase::BubblingPhase
                }),
            decreases list@.len() - i,
        {
            let l = list[i];
            if !l.aborted && l.capture == capture {
                out.push(l.callback);
            }
            i = i + 1;
        }
        out
    }
}

/// The parent chain from `node` is finite: a node without parent is reached
/// within `fuel` steps.
pub open spec fn reaches_root(parents: Seq<Option<usize>>, node: int, fuel: nat) -> bool
    decreases fuel,
{
    0 <= node < parents.len() && match parents[node] {
        None => true,
        Some(p) => fuel > 0 && reaches_root(parents, p as int, (fuel - 1) as nat),
    }
}

/// The ancestors of `node`, from its parent up to the root.
pub open spec fn ancestors(parents: Seq<Option<usize>>, node: int, fuel: nat) -> Seq<usize>
    decreases fuel,
{
    if fuel == 0 || !(0 <= node < parents.len()) {
        Seq::empty()
    } else {
        match parents[node] {
            None => Seq::empty(),
            Some(p) => seq![p].add(ancestors(parents, p as int, (fuel - 1) as nat)),
        }
    }
}

/// Build the propagation path of `target` in the tree given by `parents`
/// (`parents[i]` is the parent of node `i`): its ancestors from its parent up to
/// the root.
pub fn build_propagation_path(parents: &Vec<Option<usize>>, target: usize) -> (r: Vec<usize>)
    requires
        reaches_root(parents@, target as int, parents@.len()),
    ensures
        r@ == ancestors(parents@, target as int, parents@.len()),
{
    let mut path: Vec<usize> = Vec::new();
    let mut current = target;
    let mut fuel = parents.len();
    loop
        invariant
            reaches_root(parents@, current as int, fuel as nat),
            path@ + ancestors(parents@, current as int, fuel as nat) == ancestors(
                parents@,
                target as int,
                parents@.len(),
            ),
        ensures
            path@ + ancestors(parents@, current as int, fuel as nat) == ancestors(
                parents@,
                target as int,
                parents@.len(),
            ),
            0 <= current < parents@.len(),
            parents@[current as int] is None,
        decreases fuel,
    {
        match parents[current] {
            None => {
                break;
            },
            Some(p) => {
                let ghost old_path = path@;
                path.push(p);
                assert(ancestors(parents@, current as int, fuel as nat) =~= seq![p].add(
                    ancestors(parents@, p as int, (fuel - 1) as nat),
                ));
                assert(path@ + ancestors(parents@, p as int, (fuel - 1) as nat) =~= old_path
                    + ancestors(parents@, current as int, fuel as nat));
                current = p;
                fuel = fuel - 1;
            },
        }
    }
    assert(ancestors(parents@, current as int, fuel as nat) =~= Seq::<usize>::empty());
    assert(path@ + Seq::<usize>::empty() =~= path@);
    path
}

/// The bubbling visits mirror the capturing ones: the `j`-th bubbling visit is at
/// the node of the `j`-th capturing visit counted from the target's parent.
pub proof fn law_bubbling_mirrors_capturing(path: Seq<u64>, target: u64, j: int)
    requires
        0 <= j < path.len(),
    ensures
        schedule(path, target, true).len() == 2 * path.len() + 1,
        schedule(path, target, true)[path.len() + 1 + j].node == schedule(path, target, true)[path.len() - 1 - j].node,
        schedule(path, target, true)[path.len() + 1 + j].phase == EventPhase::BubblingPhase,
        schedule(path, target, true)[path.len() - 1 - j].phase == EventPhase::CapturingPhase,
{
}

/// A non-bubbling event is visited once per ancestor while capturing and once at
/// the target, and never in the bubbling phase.
pub proof fn law_no_bubbling_without_bubbles(path: Seq<u64>, target: u64, k: int)
    requires
        0 <= k < schedule(path, target, false).len(),
    ensures
        schedule(path, target, false).len() == path.len() + 1,
        schedule(path, target, false)[k].phase != EventPhase::BubblingPhase,
        schedule(path, target, false)[path.len() as int] == (Visit {
            node: target,
            phase: EventPhase::AtTarget,
        }),
{
}

} // verus!
