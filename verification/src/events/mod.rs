//! DOM events: the Event object, EventTarget listener lists and the
//! capture / target / bubble dispatch algorithm.
pub mod event;
pub mod dom_events;
pub mod event_target;
pub mod propagation;
