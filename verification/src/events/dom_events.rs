//! The data of the DOM event subclasses: UI, keyboard, focus, input and
//! touch events with their modifier keys, close and progress events, abort
//! signals, and the service-worker `FetchEvent` with its one `respondWith`.
use vstd::prelude::*;

use super::event::{initial_event, EventData};
use crate::text::str_eq;

verus! {

/// The state of the four modifier keys.
#[derive(Debug, Clone, Copy, PartialEq, Eq, Structural)]
pub struct Modifiers {
    pub ctrl_key: bool,
    pub shift_key: bool,
    pub alt_key: bool,
    pub meta_key: bool,
}

/// `getModifierState(key)`: the state of `Control`, `Shift`, `Alt` or `Meta`;
/// any other key is reported as not pressed.
pub open spec fn modifier_state(m: Modifiers, key: Seq<char>) -> bool {
    if key == "Control"@ {
        m.ctrl_key
    } else if key == "Shift"@ {
        m.shift_key
    } else if key == "Alt"@ {
        m.alt_key
    } else if key == "Meta"@ {
        m.meta_key
    } else {
        false
    }
}

impl Modifiers {
    /// No modifier pressed.
    pub fn none() -> (m: Self)
        ensures
            !m.ctrl_key && !m.shift_key && !m.alt_key && !m.meta_key,
    {
        Modifiers { ctrl_key: false, shift_key: false, alt_key: false, meta_key: false }
    }

    /// `getModifierState(key)`.
    pub fn get_modifier_state(&self, key: &str) -> (r: bool)
        ensures
            r == modifier_state(*self, key@),
    {
        if str_eq(key, "Control") {
            self.ctrl_key
        } else if str_eq(key, "Shift") {
            self.shift_key
        } else if str_eq(key, "Alt") {
            self.alt_key
        } else if str_eq(key, "Meta") {
            self.meta_key
        } else {
            false
        }
    }
}

/// `KeyboardEvent` key locations.
pub const DOM_KEY_LOCATION_STANDARD: u32 = 0;
pub const DOM_KEY_LOCATION_LEFT: u32 = 1;
pub const DOM_KEY_LOCATION_RIGHT: u32 = 2;
pub const DOM_KEY_LOCATION_NUMPAD: u32 = 3;

/// The `UIEvent` data.
pub struct UIEventData {
    pub event: EventData,
    /// The view (window) where the event occurred.
    pub view: Option<u64>,
    /// Detail value (e.g., click count for mouse events).
    pub detail: i32,
}

impl UIEventData {
    pub fn new(event_type: String, bubbles: bool, cancelable: bool) -> (d: Self)
        ensures
            d.event@ == initial_event(event_type@, bubbles, cancelable),
            d.view is None,
            d.detail == 0,
    {
        UIEventData { event: EventData::new(event_type, bubbles, cancelable), view: None, detail: 0 }
    }
}

/// The `KeyboardEvent` data.
pub struct KeyboardEventData {
    pub ui_event: UIEventData,
    pub key: String,
    pub code: String,
    pub location: u32,
    pub modifiers: Modifiers,
    pub repeat: bool,
    pub is_composing: bool,
    pub key_code: u32,
    pub char_code: u32,
    pub which: u32,
}

impl KeyboardEventData {
    /// A keyboard event with no key, at the standard location, no modifier.
    pub fn new(event_type: String, bubbles: bool, cancelable: bool) -> (d: Self)
        ensures
            d.ui_event.event@ == initial_event(event_type@, bubbles, cancelable),
            d.key@ == Seq::<char>::empty(),
            d.code@ == Seq::<char>::empty(),
            d.location == DOM_KEY_LOCATION_STANDARD,
            d.modifiers == (Modifiers { ctrl_key: false, shift_key: false, alt_key: false, meta_key: false }),
            !d.repeat && !d.is_composing,
            d.key_code == 0 && d.char_code == 0 && d.which == 0,
    {
        KeyboardEventData {
            ui_event: UIEventData::new(event_type, bubbles, cancelable),
            key: String::new(),
            code: String::new(),
            location: DOM_KEY_LOCATION_STANDARD,
            modifiers: Modifiers::none(),
            repeat: false,
            is_composing: false,
            key_code: 0,
            char_code: 0,
            which: 0,
        }
    }

    /// `getModifierState(key)`.
    pub fn get_modifier_state(&self, key: &str) -> (r: bool)
        ensures
            r == modifier_state(self.modifiers, key@),
    {
        self.modifiers.get_modifier_state(key)
    }
}

/// The `FocusEvent` data.
pub struct FocusEventData {
    pub ui_event: UIEventData,
    pub related_target: Option<u64>,
}

impl FocusEventData {
    pub fn new(event_type: String, bubbles: bool, cancelable: bool) -> (d: Self)
        ensures
            d.ui_event.event@ == initial_event(event_type@, bubbles, cancelable),
            d.related_target is None,
    {
        FocusEventData { ui_event: UIEventData::new(event_type, bubbles, cancelable), related_target: None }
    }
}

/// The `InputEvent` data.
pub struct InputEventData {
    pub ui_event: UIEventData,
    pub data: Option<String>,
    pub input_type: String,
    pub is_composing: bool,
}

impl InputEventData {
    pub fn new(event_type: String, bubbles: bool, cancelable: bool) -> (d: Self)
        ensures
            d.ui_event.event@ == initial_event(event_type@, bubbles, cancelable),
            d.data is None,
            d.input_type@ == Seq::<char>::empty(),
            !d.is_composing,
    {
        InputEventData {
            ui_event: UIEventData::new(event_type, bubbles, cancelable),
            data: None,
            input_type: String::new(),
            is_composing: false,
        }
    }
}

/// The `CloseEvent` data.
pub struct CloseEventData {
    pub event_type: String,
    pub was_clean: bool,
    pub code: u16,
    pub reason: String,
}

impl CloseEventData {
    pub fn new(event_type: String, was_clean: bool, code: u16, reason: String) -> (d: Self)
        ensures
            d.event_type@ == event_type@,
            d.was_clean == was_clean,
            d.code == code,
            d.reason@ == reason@,
    {
        CloseEventData { event_type, was_clean, code, reason }
    }
}

/// The close code of a `CloseEvent` init: the 32-bit `code` taken modulo
/// 2^16, 0 when absent.
pub fn close_code(code: Option<u32>) -> (c: u16)
    ensures
        c == match code {
            Some(n) => (n % 65536) as u16,
            None => 0u16,
        },
{
    match code {
        Some(n) => {
            let c = (n % 65536) as u16;
            c
        },
        None => 0,
    }
}

/// The `ProgressEvent` data.
pub struct ProgressEventData {
    pub event_type: String,
    pub length_computable: bool,
    pub loaded: u64,
    pub total: u64,
}

impl ProgressEventData {
    pub fn new(event_type: String, length_computable: bool, loaded: u64, total: u64) -> (d: Self)
        ensures
            d.event_type@ == event_type@,
            d.length_computable == length_computable,
            d.loaded == loaded,
            d.total == total,
    {
        ProgressEventData { event_type, length_computable, loaded, total }
    }
}

/// The `AbortSignal` data: whether it was aborted, and why (a value id).
pub struct AbortSignalData {
    aborted: bool,
    reason: Option<u64>,
}

impl AbortSignalData {
    pub closed spec fn is_aborted_spec(&self) -> bool {
        self.aborted
    }

    pub closed spec fn reason_spec(&self) -> Option<u64> {
        self.reason
    }

    /// A signal that is not aborted (its reason is undefined).
    pub fn new() -> (s: Self)
        ensures
            !s.is_aborted_spec(),
            s.reason_spec() is None,
    {
        AbortSignalData { aborted: false, reason: None }
    }

    /// A signal aborted with `reason`.
    pub fn new_aborted(reason: Option<u64>) -> (s: Self)
        ensures
            s.is_aborted_spec(),
            s.reason_spec() == reason,
    {
        AbortSignalData { aborted: true, reason }
    }

    /// `aborted`.
    pub fn is_aborted(&self) -> (r: bool)
        ensures
            r == self.is_aborted_spec(),
    {
        self.aborted
    }

    /// `reason`.
    pub fn reason(&self) -> (r: Option<u64>)
        ensures
            r == self.reason_spec(),
    {
        self.reason
    }

    /// Abort with `reason`; a signal that is already aborted keeps its first
    /// reason.
    pub fn abort(&mut self, reason: Option<u64>)
        ensures
            (final(self).is_aborted_spec(), final(self).reason_spec()) == abort_spec(
                (old(self).is_aborted_spec(), old(self).reason_spec()),
                reason,
            ),
    {
        if !self.aborted {
            self.aborted = true;
            self.reason = reason;
        }
    }

    /// `AbortSignal.any(signals)`: aborted with the reason of the first
    /// aborted signal, or a fresh signal when none is aborted.
    pub fn any(signals: &Vec<AbortSignalData>) -> (r: Self)
        ensures
            match first_aborted(signals@) {
                Some(i) => r.is_aborted_spec() && r.reason_spec() == signals@[i].reason_spec(),
                None => !r.is_aborted_spec() && r.reason_spec() is None,
            },
    {
        let mut i: usize = 0;
        while i < signals.len()
            invariant
                0 <= i <= signals@.len(),
                forall|j: int| 0 <= j < i ==> !(#[trigger] signals@[j]).is_aborted_spec(),
            decreases signals@.len() - i,
        {
            if signals[i].aborted {
                proof {
                    lemma_first_aborted(signals@, i as int);
                }
                return AbortSignalData::new_aborted(signals[i].reason);
            }
            i = i + 1;
        }
        proof {
            lemma_first_aborted_none(signals@);
        }
        AbortSignalData::new()
    }
}

/// The position of the first aborted signal.
pub open spec fn first_aborted(s: Seq<AbortSignalData>) -> Option<int>
    decreases s.len(),
{
    if s.len() == 0 {
        None
    } else if s[0].is_aborted_spec() {
        Some(0)
    } else {
        match first_aborted(s.drop_first()) {
            Some(i) => Some(i + 1),
            None => None,
        }
    }
}

proof fn lemma_first_aborted(s: Seq<AbortSignalData>, i: int)
    requires
        0 <= i < s.len(),
        s[i].is_aborted_spec(),
        forall|j: int| 0 <= j < i ==> !(#[trigger] s[j]).is_aborted_spec(),
    ensures
        first_aborted(s) == Some(i),
    decreases i,
{
    if i > 0 {
        assert forall|j: int| 0 <= j < i - 1 implies !(#[trigger] s.drop_first()[j]).is_aborted_spec() by {
            assert(s.drop_first()[j] == s[j + 1]);
        }
        lemma_first_aborted(s.drop_first(), i - 1);
    }
}

proof fn lemma_first_aborted_none(s: Seq<AbortSignalData>)
    requires
        forall|j: int| 0 <= j < s.len() ==> !(#[trigger] s[j]).is_aborted_spec(),
    ensures
        first_aborted(s) is None,
    decreases s.len(),
{
    if s.len() > 0 {
        assert forall|j: int| 0 <= j < s.len() - 1 implies !(#[trigger] s.drop_first()[j]).is_aborted_spec() by {
            assert(s.drop_first()[j] == s[j + 1]);
        }
        lemma_first_aborted_none(s.drop_first());
    }
}

/// The aborted flag and reason after `abort(reason)`.
pub open spec fn abort_spec(v: (bool, Option<u64>), reason: Option<u64>) -> (bool, Option<u64>) {
    if v.0 {
        v
    } else {
        (true, reason)
    }
}

/// A signal keeps the reason of its first abort: aborting again changes
/// nothing.
pub proof fn law_first_abort_wins(v: (bool, Option<u64>), r1: Option<u64>, r2: Option<u64>)
    ensures
        abort_spec(abort_spec(v, r1), r2) == abort_spec(v, r1),
        !v.0 ==> abort_spec(v, r1) == (true, r1),
{
}

/// Why `respondWith` was refused.
#[derive(Debug, Clone, Copy, PartialEq, Eq, Structural)]
pub enum RespondWithError {
    /// `respondWith()` has already been called.
    AlreadyCalled,
}

/// The `FetchEvent` data.
pub struct FetchEventData {
    pub request_url: String,
    pub request_method: String,
    pub client_id: String,
    pub resulting_client_id: String,
    pub replaces_client_id: String,
    pub respond_with_called: bool,
    pub response: Option<u64>,
    pub wait_until_promises: Vec<u64>,
}

impl FetchEventData {
    pub open spec fn responded(&self) -> bool {
        self.respond_with_called
    }

    pub open spec fn response_spec(&self) -> Option<u64> {
        self.response
    }

    pub open spec fn waits(&self) -> Seq<u64> {
        self.wait_until_promises@
    }

    /// A fetch event for a request, not yet answered.
    pub fn new(
        request_url: String,
        request_method: String,
        client_id: String,
        resulting_client_id: String,
        replaces_client_id: String,
    ) -> (d: Self)
        ensures
            d.request_url@ == request_url@,
            d.request_method@ == request_method@,
            d.client_id@ == client_id@,
            d.resulting_client_id@ == resulting_client_id@,
            d.replaces_client_id@ == replaces_client_id@,
            !d.responded(),
            d.response_spec() is None,
            d.waits().len() == 0,
    {
        FetchEventData {
            request_url,
            request_method,
            client_id,
            resulting_client_id,
            replaces_client_id,
            respond_with_called: false,
            response: None,
            wait_until_promises: Vec::new(),
        }
    }

    /// `respondWith(response)`: the first call provides the response; any
    /// later call is refused.
    pub fn respond_with(&mut self, response: u64) -> (r: Result<(), RespondWithError>)
        ensures
            ((final(self).responded(), final(self).response_spec()), r) == respond_spec(
                (old(self).responded(), old(self).response_spec()),
                response,
            ),
            final(self).waits() == old(self).waits(),
    {
        if self.respond_with_called {
            return Err(RespondWithError::AlreadyCalled);
        }
        self.response = Some(response);
        self.respond_with_called = true;
        Ok(())
    }

    /// `waitUntil(promise)`: extend the event's lifetime.
    pub fn wait_until(&mut self, promise: u64)
        ensures
            final(self).waits() == old(self).waits().push(promise),
            final(self).responded() == old(self).responded(),
            final(self).response_spec() == old(self).response_spec(),
    {
        self.wait_until_promises.push(promise);
    }

    /// `handled`: whether `respondWith` was called.
    pub fn handled(&self) -> (r: bool)
        ensures
            r == self.responded(),
    {
        self.respond_with_called
    }

    /// The response given by `respondWith`, if it was called.
    pub fn get_fetch_event_response(&self) -> (r: Option<u64>)
        ensures
            r == (if self.responded() {
                self.response_spec()
            } else {
                None
            }),
    {
        if self.respond_with_called {
            self.response
        } else {
            None
        }
    }
}

/// The answered flag, the response and the outcome of `respondWith(r)`.
pub open spec fn respond_spec(v: (bool, Option<u64>), r: u64) -> ((bool, Option<u64>), Result<(), RespondWithError>) {
    if v.0 {
        (v, Err(RespondWithError::AlreadyCalled))
    } else {
        ((true, Some(r)), Ok(()))
    }
}

/// Only the first `respondWith` counts: a second call is refused and the
/// first response stays.
pub proof fn law_respond_with_once(v: (bool, Option<u64>), r1: u64, r2: u64)
    requires
        !v.0,
    ensures
        respond_spec(v, r1).1 is Ok,
        respond_spec(respond_spec(v, r1).0, r2) == (respond_spec(v, r1).0, Err::<(), RespondWithError>(
            RespondWithError::AlreadyCalled,
        )),
        respond_spec(v, r1).0.1 == Some(r1),
{
}

/// The `ErrorEvent` data (`error` is the id of the error value).
pub struct ErrorEventData {
    pub event_type: String,
    pub message: String,
    pub filename: String,
    pub lineno: u32,
    pub colno: u32,
    pub error: Option<u64>,
}

impl ErrorEventData {
    pub fn new(event_type: String, message: String, filename: String, lineno: u32, colno: u32, error: Option<u64>) -> (d: Self)
        ensures
            d.event_type@ == event_type@,
            d.message@ == message@,
            d.filename@ == filename@,
            d.lineno == lineno,
            d.colno == colno,
            d.error == error,
    {
        ErrorEventData { event_type, message, filename, lineno, colno, error }
    }
}

/// The `MessageEvent` data (`data`, `source` and `ports` are value ids).
pub struct MessageEventData {
    pub event: EventData,
    pub data: Option<u64>,
    pub origin: String,
    pub last_event_id: String,
    pub source: Option<u64>,
    pub ports: Option<u64>,
}

impl MessageEventData {
    pub fn new(
        event: EventData,
        data: Option<u64>,
        origin: String,
        last_event_id: String,
        source: Option<u64>,
        ports: Option<u64>,
    ) -> (d: Self)
        ensures
            d.event == event,
            d.data == data,
            d.origin@ == origin@,
            d.last_event_id@ == last_event_id@,
            d.source == source,
            d.ports == ports,
    {
        MessageEventData { event, data, origin, last_event_id, source, ports }
    }
}

/// The `HashChangeEvent` data.
pub struct HashChangeEventData {
    pub event: EventData,
    pub old_url: String,
    pub new_url: String,
}

impl HashChangeEventData {
    pub fn new(event: EventData, old_url: String, new_url: String) -> (d: Self)
        ensures
            d.event == event,
            d.old_url@ == old_url@,
            d.new_url@ == new_url@,
    {
        HashChangeEventData { event, old_url, new_url }
    }
}

/// The `PopStateEvent` data (`state` is a value id).
pub struct PopStateEventData {
    pub event_type: String,
    pub state: Option<u64>,
}

impl PopStateEventData {
    pub fn new(event_type: String, state: Option<u64>) -> (d: Self)
        ensures
            d.event_type@ == event_type@,
            d.state == state,
    {
        PopStateEventData { event_type, state }
    }
}

/// The `CustomEvent` data (`detail` is a value id).
pub struct CustomEventData {
    pub event: EventData,
    pub detail: Option<u64>,
}

impl CustomEventData {
    pub fn new(event: EventData, detail: Option<u64>) -> (d: Self)
        ensures
            d.event == event,
            d.detail == detail,
    {
        CustomEventData { event, detail }
    }
}

/// The activation of a `pageswap` event: the entry navigated to, the one
/// navigated from, and the navigation type.
pub struct NavigationActivationData {
    entry: u64,
    from: Option<u64>,
    navigation_type: String,
}

impl NavigationActivationData {
    pub closed spec fn entry_spec(&self) -> u64 {
        self.entry
    }

    pub closed spec fn from_spec(&self) -> Option<u64> {
        self.from
    }

    pub closed spec fn navigation_type_spec(&self) -> Seq<char> {
        self.navigation_type@
    }

    pub fn new(entry: u64, from: Option<u64>, navigation_type: String) -> (d: Self)
        ensures
            d.entry_spec() == entry,
            d.from_spec() == from,
            d.navigation_type_spec() == navigation_type@,
    {
        NavigationActivationData { entry, from, navigation_type }
    }

    pub fn get_entry(&self) -> (r: u64)
        ensures
            r == self.entry_spec(),
    {
        self.entry
    }

    pub fn get_from(&self) -> (r: Option<u64>)
        ensures
            r == self.from_spec(),
    {
        self.from
    }

    pub fn get_navigation_type(&self) -> (r: String)
        ensures
            r@ == self.navigation_type_spec(),
    {
        self.navigation_type.clone()
    }
}

/// The `PageSwapEvent` data (`activation` and `view_transition` are value
/// ids).
pub struct PageSwapEventData {
    pub event: EventData,
    pub activation: Option<u64>,
    pub view_transition: Option<u64>,
}

impl PageSwapEventData {
    pub open spec fn activation_spec(&self) -> Option<u64> {
        self.activation
    }

    pub open spec fn view_transition_spec(&self) -> Option<u64> {
        self.view_transition
    }

    pub fn new(event: EventData, activation: Option<u64>, view_transition: Option<u64>) -> (d: Self)
        ensures
            d.event == event,
            d.activation_spec() == activation,
            d.view_transition_spec() == view_transition,
    {
        PageSwapEventData { event, activation, view_transition }
    }

    pub fn get_activation(&self) -> (r: Option<u64>)
        ensures
            r == self.activation_spec(),
    {
        self.activation
    }

    pub fn get_view_transition(&self) -> (r: Option<u64>)
        ensures
            r == self.view_transition_spec(),
    {
        self.view_transition
    }

    pub fn set_activation(&mut self, activation: Option<u64>)
        ensures
            final(self).activation_spec() == activation,
            final(self).view_transition_spec() == old(self).view_transition_spec(),
            final(self).event == old(self).event,
    {
        self.activation = activation;
    }

    pub fn set_view_transition(&mut self, view_transition: Option<u64>)
        ensures
            final(self).view_transition_spec() == view_transition,
            final(self).activation_spec() == old(self).activation_spec(),
            final(self).event == old(self).event,
    {
        self.view_transition = view_transition;
    }
}


/// The members of a `TouchEventInit` dictionary, each as the constructor reads
/// it: touch lists by value id (`None` when absent), flags by truthiness (a
/// missing flag reads as `false`).
#[derive(Debug, Clone, Copy, PartialEq, Eq, Structural)]
pub struct TouchEventInit {
    pub touches: Option<u64>,
    pub target_touches: Option<u64>,
    pub changed_touches: Option<u64>,
    pub modifiers: Modifiers,
    pub bubbles: bool,
    pub cancelable: bool,
}

/// The `TouchEvent` data.
#[derive(Debug, Clone, PartialEq, Eq)]
pub struct TouchEventData {
    pub event_type: String,
    pub touches: Option<u64>,
    pub target_touches: Option<u64>,
    pub changed_touches: Option<u64>,
    pub modifiers: Modifiers,
    pub bubbles: bool,
    pub cancelable: bool,
    pub composed: bool,
}

impl TouchEventData {
    /// `new TouchEvent(type, init)`: without an init dictionary the event
    /// bubbles and is cancelable with no touches and no modifier; with one,
    /// every member comes from it. A touch event is always composed.
    pub fn construct(event_type: String, init: Option<TouchEventInit>) -> (d: Self)
        ensures
            d.event_type@ == event_type@,
            d.composed,
            match init {
                None => {
                    &&& d.touches is None && d.target_touches is None && d.changed_touches is None
                    &&& d.modifiers == (Modifiers { ctrl_key: false, shift_key: false, alt_key: false, meta_key: false })
                    &&& d.bubbles && d.cancelable
                },
                Some(i) => {
                    &&& d.touches == i.touches
                    &&& d.target_touches == i.target_touches
                    &&& d.changed_touches == i.changed_touches
                    &&& d.modifiers == i.modifiers
                    &&& d.bubbles == i.bubbles
                    &&& d.cancelable == i.cancelable
                },
            },
    {
        match init {
            None => TouchEventData {
                event_type,
                touches: None,
                target_touches: None,
                changed_touches: None,
                modifiers: Modifiers::none(),
                bubbles: true,
                cancelable: true,
                composed: true,
            },
            Some(i) => TouchEventData {
                event_type,
                touches: i.touches,
                target_touches: i.target_touches,
                changed_touches: i.changed_touches,
                modifiers: i.modifiers,
                bubbles: i.bubbles,
                cancelable: i.cancelable,
                composed: true,
            },
        }
    }
}

impl AbortSignalData {
    /// `throwIfAborted()`: the reason to throw when aborted.
    pub fn throw_if_aborted(&self) -> (r: Result<(), Option<u64>>)
        ensures
            r == (if self.is_aborted_spec() {
                Err(self.reason_spec())
            } else {
                Ok(())
            }),
    {
        if self.aborted {
            Err(self.reason)
        } else {
            Ok(())
        }
    }
}

} // verus!
