//! The DOM `Event` object state (https://dom.spec.whatwg.org/#interface-event).
//!
//! Targets are identified by the integer ids that the embedding gives to its
//! JavaScript objects; the timestamp is kept in whole milliseconds since the
//! UNIX epoch.
use vstd::prelude::*;

verus! {

/// Event phases.
#[derive(Debug, Clone, Copy, PartialEq, Eq, Structural)]
pub enum EventPhase {
    NoPhase,
    CapturingPhase,
    AtTarget,
    BubblingPhase,
}

impl EventPhase {
    /// The numeric constant of the phase (`Event.NONE` .. `Event.BUBBLING_PHASE`).
    pub open spec fn spec_number(self) -> u32 {
        match self {
            EventPhase::NoPhase => 0,
            EventPhase::CapturingPhase => 1,
            EventPhase::AtTarget => 2,
            EventPhase::BubblingPhase => 3,
        }
    }

    /// Numeric value exposed as `event.eventPhase`.
    pub fn as_u32(&self) -> (n: u32)
        ensures
            n == self.spec_number(),
    {
        match self {
            EventPhase::NoPhase => 0,
            EventPhase::CapturingPhase => 1,
            EventPhase::AtTarget => 2,
            EventPhase::BubblingPhase => 3,
        }
    }
}

/// Mathematical view of an event's state.
pub struct EventView {
    pub event_type: Seq<char>,
    pub bubbles: bool,
    pub cancelable: bool,
    pub default_prevented: bool,
    pub phase: EventPhase,
    pub current_target: Option<u64>,
    pub target: Option<u64>,
    pub stop_propagation: bool,
    pub stop_immediate_propagation: bool,
    pub timestamp: u64,
    pub is_trusted: bool,
    pub composed: bool,
}

/// The `Event` object state.
#[derive(Debug, Clone)]
pub struct EventData {
    event_type: String,
    bubbles: bool,
    cancelable: bool,
    default_prevented: bool,
    phase: EventPhase,
    current_target: Option<u64>,
    target: Option<u64>,
    stop_propagation: bool,
    stop_immediate_propagation: bool,
    timestamp: u64,
    is_trusted: bool,
    composed: bool,
}

impl View for EventData {
    type V = EventView;

    closed spec fn view(&self) -> EventView {
        EventView {
            event_type: self.event_type@,
            bubbles: self.bubbles,
            cancelable: self.cancelable,
            default_prevented: self.default_prevented,
            phase: self.phase,
            current_target: self.current_target,
            target: self.target,
            stop_propagation: self.stop_propagation,
            stop_immediate_propagation: self.stop_immediate_propagation,
            timestamp: self.timestamp,
            is_trusted: self.is_trusted,
            composed: self.composed,
        }
    }
}

/// The state of a freshly constructed, untrusted event.
pub open spec fn initial_event(event_type: Seq<char>, bubbles: bool, cancelable: bool) -> EventView {
    EventView {
        event_type,
        bubbles,
        cancelable,
        default_prevented: false,
        phase: EventPhase::NoPhase,
        current_target: None,
        target: None,
        stop_propagation: false,
        stop_immediate_propagation: false,
        timestamp: 0,
        is_trusted: false,
        composed: false,
    }
}

/// Milliseconds since the UNIX epoch on the system clock.
///
/// Calls `std::time::SystemTime::now` and `duration_since(UNIX_EPOCH)`; nothing is
/// promised of the value, which depends on the clock (0 when the clock is before
/// the epoch).
#[verifier::external_body]
pub(crate) fn now_millis() -> u64 {
    std::time::SystemTime::now()
        .duration_since(std::time::UNIX_EPOCH)
        .map(|d| d.as_millis() as u64)
        .unwrap_or(0)
}

impl EventData {
    /// A new untrusted event with the given type and flags.
    pub fn new(event_type: String, bubbles: bool, cancelable: bool) -> (e: Self)
        ensures
            e@ == initial_event(event_type@, bubbles, cancelable),
    {
        EventData {
            event_type,
            bubbles,
            cancelable,
            default_prevented: false,
            phase: EventPhase::NoPhase,
            current_target: None,
            target: None,
            stop_propagation: false,
            stop_immediate_propagation: false,
            timestamp: 0,
            is_trusted: false,
            composed: false,
        }
    }

    /// A new trusted event (created by the user agent), stamped with the clock.
    pub fn new_trusted(event_type: String, bubbles: bool, cancelable: bool) -> (e: Self)
        ensures
            e@ == (EventView {
                is_trusted: true,
                timestamp: e@.timestamp,
                ..initial_event(event_type@, bubbles, cancelable)
            }),
    {
        let mut event = Self::new(event_type, bubbles, cancelable);
        event.is_trusted = true;
        event.timestamp = now_millis();
        event
    }

    /// `preventDefault()`: only has an effect on cancelable events.
    pub fn prevent_default(&mut self)
        ensures
            final(self)@ == (EventView {
                default_prevented: old(self)@.default_prevented || old(self)@.cancelable,
                ..old(self)@
            }),
    {
        if self.cancelable {
            self.default_prevented = true;
        }
    }

    /// `stopPropagation()`.
    pub fn stop_propagation(&mut self)
        ensures
            final(self)@ == (EventView { stop_propagation: true, ..old(self)@ }),
    {
        self.stop_propagation = true;
    }

    /// `stopImmediatePropagation()`: also stops propagation.
    pub fn stop_immediate_propagation(&mut self)
        ensures
            final(self)@ == (EventView {
                stop_propagation: true,
                stop_immediate_propagation: true,
                ..old(self)@
            }),
    {
        self.stop_immediate_propagation = true;
        self.stop_propagation = true;
    }

    /// Legacy `initEvent()`: ignored while the event is being dispatched.
    pub fn init_event(&mut self, event_type: String, bubbles: bool, cancelable: bool)
        ensures
            old(self)@.phase != EventPhase::NoPhase ==> final(self)@ == old(self)@,
            old(self)@.phase == EventPhase::NoPhase ==> final(self)@ == (EventView {
                event_type: event_type@,
                bubbles,
                cancelable,
                default_prevented: false,
                stop_propagation: false,
                stop_immediate_propagation: false,
                ..old(self)@
            }),
    {
        if self.phase != EventPhase::NoPhase {
            return;
        }
        self.event_type = event_type;
        self.bubbles = bubbles;
        self.cancelable = cancelable;
        self.default_prevented = false;
        self.stop_propagation = false;
        self.stop_immediate_propagation = false;
    }

    pub fn get_type(&self) -> (t: &str)
        ensures
            t@ == self@.event_type,
    {
        self.event_type.as_str()
    }

    pub fn get_bubbles(&self) -> (b: bool)
        ensures
            b == self@.bubbles,
    {
        self.bubbles
    }

    pub fn get_cancelable(&self) -> (b: bool)
        ensures
            b == self@.cancelable,
    {
        self.cancelable
    }

    pub fn get_default_prevented(&self) -> (b: bool)
        ensures
            b == self@.default_prevented,
    {
        self.default_prevented
    }

    pub fn get_phase(&self) -> (p: EventPhase)
        ensures
            p == self@.phase,
    {
        self.phase
    }

    pub fn get_current_target(&self) -> (t: Option<u64>)
        ensures
            t == self@.current_target,
    {
        self.current_target
    }

    pub fn get_target(&self) -> (t: Option<u64>)
        ensures
            t == self@.target,
    {
        self.target
    }

    pub fn get_timestamp(&self) -> (t: u64)
        ensures
            t == self@.timestamp,
    {
        self.timestamp
    }

    pub fn get_is_trusted(&self) -> (b: bool)
        ensures
            b == self@.is_trusted,
    {
        self.is_trusted
    }

    pub fn get_composed(&self) -> (b: bool)
        ensures
            b == self@.composed,
    {
        self.composed
    }

    pub fn set_phase(&mut self, phase: EventPhase)
        ensures
            final(self)@ == (EventView { phase, ..old(self)@ }),
    {
        self.phase = phase;
    }

    pub fn set_current_target(&mut self, target: Option<u64>)
        ensures
            final(self)@ == (EventView { current_target: target, ..old(self)@ }),
    {
        self.current_target = target;
    }

    pub fn set_target(&mut self, target: Option<u64>)
        ensures
            final(self)@ == (EventView { target, ..old(self)@ }),
    {
        self.target = target;
    }

    pub fn set_is_trusted(&mut self, trusted: bool)
        ensures
            final(self)@ == (EventView { is_trusted: trusted, ..old(self)@ }),
    {
        self.is_trusted = trusted;
    }

    pub fn set_bubbles(&mut self, bubbles: bool)
        ensures
            final(self)@ == (EventView { bubbles, ..old(self)@ }),
    {
        self.bubbles = bubbles;
    }

    pub fn set_cancelable(&mut self, cancelable: bool)
        ensures
            final(self)@ == (EventView { cancelable, ..old(self)@ }),
    {
        self.cancelable = cancelable;
    }

    pub fn set_composed(&mut self, composed: bool)
        ensures
            final(self)@ == (EventView { composed, ..old(self)@ }),
    {
        self.composed = composed;
    }

    pub fn should_stop_propagation(&self) -> (b: bool)
        ensures
            b == self@.stop_propagation,
    {
        self.stop_propagation
    }

    pub fn should_stop_immediate_propagation(&self) -> (b: bool)
        ensures
            b == self@.stop_immediate_propagation,
    {
        self.stop_immediate_propagation
    }
}

} // verus!
