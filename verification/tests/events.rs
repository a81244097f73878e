use thalora_browser_apis::events::dom_events::{
    close_code, AbortSignalData, CloseEventData, CustomEventData, ErrorEventData, FetchEventData,
    HashChangeEventData, KeyboardEventData, Modifiers, PopStateEventData, ProgressEventData,
    RespondWithError, TouchEventData, TouchEventInit,
};
use thalora_browser_apis::events::event::{EventData, EventPhase};
use thalora_browser_apis::events::event_target::{
    EventTarget, EventTargetData, ListenerOptions, ListenerRun, RunStep,
};
use thalora_browser_apis::events::propagation::{begin_dispatch, build_propagation_path, DispatchPlan};

/// Fire the listeners of `event_type` at target phase, as dispatch does,
/// calling `on_call` for each, and drop the `once` listeners that fired.
fn fire(target: &mut EventTargetData, event_type: &str, mut on_call: impl FnMut(u64) -> bool) -> Vec<u64> {
    let mut run = ListenerRun::start(target, event_type, EventPhase::AtTarget);
    let mut called = Vec::new();
    let mut stop = false;
    loop {
        match run.step(stop) {
            RunStep::Call(cb) => {
                called.push(cb);
                stop = on_call(cb);
            }
            RunStep::Finished { .. } => break,
        }
    }
    let once = run.once_positions().clone();
    target.remove_fired_once(event_type, &once);
    called
}

#[test]
fn test_build_propagation_path() {
    // 0 is the root, 1 its child, 2 a child of 1, 3 a child of 0.
    let parents = vec![None, Some(0), Some(1), Some(0)];
    assert_eq!(build_propagation_path(&parents, 2), vec![1, 0]);
    assert_eq!(build_propagation_path(&parents, 3), vec![0]);
    assert_eq!(build_propagation_path(&parents, 0), Vec::<usize>::new());
}

#[test]
fn test_event_with_type_only() {
    let e = EventData::new("click".to_string(), false, false);
    assert_eq!(e.get_type(), "click");
}

#[test]
fn test_event_with_options() {
    let e = EventData::new("test".to_string(), true, true);
    assert!(e.get_bubbles() && e.get_cancelable());
}

#[test]
fn test_event_default_bubbles_false() {
    let e = EventData::new("test".to_string(), false, false);
    assert!(!e.get_bubbles());
}

#[test]
fn test_event_default_cancelable_false() {
    let e = EventData::new("test".to_string(), false, false);
    assert!(!e.get_cancelable());
}

#[test]
fn test_event_composed_option() {
    let mut e = EventData::new("test".to_string(), false, false);
    e.set_composed(true);
    assert!(e.get_composed());
}

#[test]
fn test_event_default_prevented_initial() {
    let e = EventData::new("test".to_string(), false, false);
    assert!(!e.get_default_prevented());
}

#[test]
fn test_event_phase_initial() {
    let e = EventData::new("test".to_string(), false, false);
    assert_eq!(e.get_phase().as_u32(), 0);
}

#[test]
fn test_event_target_initial_null() {
    let e = EventData::new("test".to_string(), false, false);
    assert_eq!(e.get_target(), None);
    assert_eq!(e.get_current_target(), None);
}

#[test]
fn test_event_is_trusted_false_for_script_created() {
    let e = EventData::new("test".to_string(), false, false);
    assert!(!e.get_is_trusted());
    let t = EventData::new_trusted("load".to_string(), false, false);
    assert!(t.get_is_trusted());
}

#[test]
fn test_event_prevent_default_sets_flag() {
    let mut e = EventData::new("test".to_string(), false, true);
    e.prevent_default();
    assert!(e.get_default_prevented());
}

#[test]
fn test_event_prevent_default_non_cancelable() {
    let mut e = EventData::new("test".to_string(), false, false);
    e.prevent_default();
    assert!(!e.get_default_prevented());
}

#[test]
fn test_event_multiple_prevent_default_calls() {
    let mut e = EventData::new("test".to_string(), false, true);
    e.prevent_default();
    e.prevent_default();
    assert!(e.get_default_prevented());
}

#[test]
fn test_event_init_event_changes_type() {
    let mut e = EventData::new("test".to_string(), false, false);
    e.init_event("newType".to_string(), true, true);
    assert_eq!(e.get_type(), "newType");
}

#[test]
fn test_event_init_event_changes_bubbles() {
    let mut e = EventData::new("test".to_string(), false, false);
    e.init_event("test".to_string(), true, false);
    assert!(e.get_bubbles());
}

#[test]
fn test_event_init_event_changes_cancelable() {
    let mut e = EventData::new("test".to_string(), false, false);
    e.init_event("test".to_string(), false, true);
    assert!(e.get_cancelable());
}

#[test]
fn test_event_phase_constants() {
    assert_eq!(EventPhase::NoPhase.as_u32(), 0);
    assert_eq!(EventPhase::CapturingPhase.as_u32(), 1);
    assert_eq!(EventPhase::AtTarget.as_u32(), 2);
    assert_eq!(EventPhase::BubblingPhase.as_u32(), 3);
}

#[test]
fn test_event_with_empty_type() {
    let e = EventData::new(String::new(), false, false);
    assert_eq!(e.get_type(), "");
}

#[test]
fn test_event_with_special_characters_type() {
    let e = EventData::new("test-event.custom:123".to_string(), false, false);
    assert_eq!(e.get_type(), "test-event.custom:123");
}

#[test]
fn test_event_stop_propagation_call() {
    let mut e = EventData::new("test".to_string(), false, false);
    e.stop_propagation();
    assert!(e.should_stop_propagation());
    assert!(!e.should_stop_immediate_propagation());
}

#[test]
fn test_event_stop_immediate_propagation_call() {
    let mut e = EventData::new("test".to_string(), false, false);
    e.stop_immediate_propagation();
    assert!(e.should_stop_propagation());
    assert!(e.should_stop_immediate_propagation());
}

#[test]
fn test_event_target_dispatch_calls_listener() {
    let mut t = EventTarget::create();
    t.add_event_listener("test".to_string(), Some(1), false, false, false);
    assert_eq!(fire(&mut t, "test", |_| false), vec![1]);
}

#[test]
fn test_event_target_remove_listener() {
    let mut t = EventTarget::create();
    t.add_event_listener("test".to_string(), Some(7), false, false, false);
    t.remove_event_listener("test", Some(7), false);
    assert!(fire(&mut t, "test", |_| false).is_empty());
}

#[test]
fn test_event_target_multiple_listeners() {
    let mut t = EventTarget::create();
    t.add_event_listener("test".to_string(), Some(1), false, false, false);
    t.add_event_listener("test".to_string(), Some(2), false, false, false);
    assert_eq!(fire(&mut t, "test", |_| false).len(), 2);
}

#[test]
fn test_event_target_once_option() {
    let mut t = EventTarget::create();
    let (capture, once, passive) =
        EventTarget::listener_flags(ListenerOptions::Dict { capture: false, once: true, passive: false });
    t.add_event_listener("test".to_string(), Some(1), capture, once, passive);
    let first = fire(&mut t, "test", |_| false);
    let second = fire(&mut t, "test", |_| false);
    assert_eq!(first.len() + second.len(), 1);
}

#[test]
fn test_event_target_different_event_types() {
    let mut t = EventTarget::create();
    t.add_event_listener("type1".to_string(), Some(1), false, false, false);
    t.add_event_listener("type2".to_string(), Some(2), false, false, false);
    assert_eq!(fire(&mut t, "type1", |_| false), vec![1]);
}

#[test]
fn test_event_target_remove_only_matching_listener() {
    let mut t = EventTarget::create();
    t.add_event_listener("test".to_string(), Some(1), false, false, false);
    t.add_event_listener("test".to_string(), Some(2), false, false, false);
    t.remove_event_listener("test", Some(1), false);
    assert_eq!(fire(&mut t, "test", |_| false), vec![2]);
}

#[test]
fn test_event_target_add_null_listener() {
    let mut t = EventTarget::create();
    t.add_event_listener("test".to_string(), None, false, false, false);
    assert!(fire(&mut t, "test", |_| false).is_empty());
}

#[test]
fn test_event_target_dispatch_returns_false_when_prevented() {
    let mut plan = DispatchPlan::for_event_target(vec![], 1, false);
    let mut e = EventData::new("test".to_string(), false, true);
    while let Some(_visit) = plan.step(e.should_stop_propagation()) {
        e.prevent_default();
        plan.note_listener_result(e.get_default_prevented());
    }
    assert!(!plan.propagation_result());
}

#[test]
fn test_event_target_dispatch_returns_true_when_not_prevented() {
    let mut plan = DispatchPlan::for_event_target(vec![], 1, false);
    while let Some(_visit) = plan.step(false) {
        plan.note_listener_result(false);
    }
    assert!(plan.propagation_result());
}

#[test]
fn stop_immediate_propagation_skips_later_listeners() {
    let mut t = EventTarget::create();
    t.add_event_listener("test".to_string(), Some(1), false, false, false);
    t.add_event_listener("test".to_string(), Some(2), false, false, false);
    assert_eq!(fire(&mut t, "test", |cb| cb == 1), vec![1]);
}

#[test]
fn listener_options_forms() {
    assert_eq!(EventTarget::listener_flags(ListenerOptions::Flag(true)), (true, false, false));
    assert_eq!(EventTarget::listener_flags(ListenerOptions::Other), (false, false, false));
    assert!(EventTarget::removal_capture(ListenerOptions::Dict { capture: true, once: true, passive: true }));
    assert!(!EventTarget::removal_capture(ListenerOptions::Other));
}

#[test]
fn modifier_state_of_keyboard_events() {
    let mut k = KeyboardEventData::new("keydown".to_string(), false, false);
    k.modifiers = Modifiers { ctrl_key: true, shift_key: false, alt_key: true, meta_key: false };
    assert!(k.get_modifier_state("Control"));
    assert!(!k.get_modifier_state("Shift"));
    assert!(k.get_modifier_state("Alt"));
    assert!(!k.get_modifier_state("Meta"));
    assert!(!k.get_modifier_state("CapsLock"));
    assert_eq!(k.location, 0);
}

#[test]
fn close_event_code_wraps_to_sixteen_bits() {
    assert_eq!(close_code(Some(1000)), 1000);
    assert_eq!(close_code(Some(65536 + 1001)), 1001);
    assert_eq!(close_code(None), 0);
    let c = CloseEventData::new("close".to_string(), true, 1000, "bye".to_string());
    assert!(c.was_clean && c.code == 1000 && c.reason == "bye");
}

#[test]
fn progress_event_keeps_its_counts() {
    let p = ProgressEventData::new("progress".to_string(), true, 5, 10);
    assert!(p.length_computable && p.loaded == 5 && p.total == 10);
}

#[test]
fn abort_signal_keeps_first_reason() {
    let mut s = AbortSignalData::new();
    assert!(!s.is_aborted());
    s.abort(Some(1));
    s.abort(Some(2));
    assert!(s.is_aborted());
    assert_eq!(s.reason(), Some(1));
    let any = AbortSignalData::any(&vec![AbortSignalData::new(), AbortSignalData::new_aborted(Some(9))]);
    assert!(any.is_aborted());
    assert_eq!(any.reason(), Some(9));
    assert!(!AbortSignalData::any(&vec![AbortSignalData::new()]).is_aborted());
}

#[test]
fn fetch_event_respond_with_only_once() {
    let mut f = FetchEventData::new(
        "https://a.example/".to_string(),
        "GET".to_string(),
        "c1".to_string(),
        String::new(),
        String::new(),
    );
    assert!(!f.handled());
    assert_eq!(f.get_fetch_event_response(), None);
    assert_eq!(f.respond_with(5), Ok(()));
    assert_eq!(f.respond_with(6), Err(RespondWithError::AlreadyCalled));
    assert_eq!(f.get_fetch_event_response(), Some(5));
    f.wait_until(3);
    assert!(f.handled());
}

#[test]
fn dispatch_visits_capture_target_bubble() {
    // Ancestors from the parent (2) up to the root (1).
    let mut plan = DispatchPlan::for_propagation(vec![2, 1], 3, true);
    let mut seen = Vec::new();
    while let Some(v) = plan.step(false) {
        seen.push((v.node, v.phase.as_u32()));
    }
    assert_eq!(seen, vec![(1, 1), (2, 1), (3, 2), (2, 3), (1, 3)]);
    let mut flat = DispatchPlan::for_propagation(vec![2, 1], 3, false);
    let mut seen = Vec::new();
    while let Some(v) = flat.step(false) {
        seen.push((v.node, v.phase.as_u32()));
    }
    assert_eq!(seen, vec![(1, 1), (2, 1), (3, 2)]);
}

#[test]
fn stopped_propagation_ends_the_dispatch() {
    let mut plan = DispatchPlan::for_propagation(vec![2, 1], 3, true);
    let first = plan.step(false);
    assert_eq!(first.map(|v| v.node), Some(1));
    assert!(plan.step(true).is_none());
}

#[test]
fn once_listener_removed_but_others_stay() {
    let mut t = EventTarget::create();
    t.add_event_listener("x".to_string(), Some(1), false, true, false);
    t.add_event_listener("x".to_string(), Some(2), false, false, false);
    t.add_event_listener("x".to_string(), Some(3), true, true, false);
    assert_eq!(fire(&mut t, "x", |_| false), vec![1, 2, 3]);
    assert_eq!(fire(&mut t, "x", |_| false), vec![2]);
}

#[test]
fn test_event_bubbles_option() {
    let e = EventData::new("test".to_string(), true, false);
    assert!(e.get_bubbles());
}

#[test]
fn test_event_cancelable_option() {
    let e = EventData::new("test".to_string(), false, true);
    assert!(e.get_cancelable());
}

#[test]
fn test_event_type_property() {
    let e = EventData::new("customEvent".to_string(), false, false);
    assert_eq!(e.get_type(), "customEvent");
}

#[test]
fn test_event_timestamp_exists() {
    let e = EventData::new("test".to_string(), false, false);
    let stamp: u64 = e.get_timestamp();
    assert!(stamp == e.get_timestamp());
}

#[test]
fn test_event_current_target_initial_null() {
    let e = EventData::new("test".to_string(), false, false);
    assert_eq!(e.get_current_target(), None);
}

#[test]
fn test_event_target_add_listener_basic() {
    let mut t = EventTarget::create();
    t.add_event_listener("test".to_string(), Some(1), false, false, false);
    assert_eq!(t.listeners_snapshot("test").len(), 1);
}

#[test]
fn test_event_target_listener_receives_event() {
    let mut t = EventTarget::create();
    t.add_event_listener("test".to_string(), Some(1), false, false, false);
    let e = EventData::new("test".to_string(), false, false);
    let called = fire(&mut t, e.get_type(), |_| false);
    assert_eq!(called, vec![1]);
}

#[test]
fn test_event_target_listener_receives_correct_type() {
    let mut t = EventTarget::create();
    t.add_event_listener("custom".to_string(), Some(1), false, false, false);
    let e = EventData::new("custom".to_string(), false, false);
    let mut seen_type = String::new();
    fire(&mut t, e.get_type(), |_| {
        seen_type = e.get_type().to_string();
        false
    });
    assert_eq!(seen_type, "custom");
}

#[test]
fn test_event_target_capture_option() {
    let mut t = EventTarget::create();
    let (capture, once, passive) =
        EventTarget::listener_flags(ListenerOptions::Dict { capture: true, once: false, passive: false });
    t.add_event_listener("test".to_string(), Some(1), capture, once, passive);
    let l = t.listeners_snapshot("test");
    assert_eq!(l.len(), 1);
    assert!(l[0].capture);
}

#[test]
fn test_event_target_passive_option() {
    let mut t = EventTarget::create();
    let (capture, once, passive) =
        EventTarget::listener_flags(ListenerOptions::Dict { capture: false, once: false, passive: true });
    t.add_event_listener("test".to_string(), Some(1), capture, once, passive);
    let l = t.listeners_snapshot("test");
    assert_eq!(l.len(), 1);
    assert!(l[0].passive);
}

#[test]
fn test_event_target_add_undefined_listener() {
    let mut t = EventTarget::create();
    t.add_event_listener("test".to_string(), None, false, false, false);
    assert!(t.listeners_snapshot("test").is_empty());
}

#[test]
fn test_event_target_dispatch_returns_boolean() {
    let mut plan = DispatchPlan::for_event_target(vec![], 1, false);
    while let Some(_visit) = plan.step(false) {
        plan.note_listener_result(false);
    }
    let returned: bool = plan.propagation_result();
    assert!(returned);
}

#[test]
fn test_event_prevent_default_in_listener() {
    let mut t = EventTarget::create();
    t.add_event_listener("test".to_string(), Some(1), false, false, false);
    let mut e = EventData::new("test".to_string(), false, true);
    let mut was_prevented = false;
    fire(&mut t, "test", |_| {
        e.prevent_default();
        was_prevented = e.get_default_prevented();
        false
    });
    assert!(was_prevented);
}

#[test]
fn test_event_listener_exception_doesnt_stop_others() {
    let mut t = EventTarget::create();
    t.add_event_listener("test".to_string(), Some(1), false, false, false);
    t.add_event_listener("test".to_string(), Some(2), false, false, false);
    // The first listener throws; a thrown error does not stop immediate propagation.
    let called = fire(&mut t, "test", |_| false);
    assert!(called.contains(&2));
}

#[test]
fn test_abort_signal_abort_static() {
    let s = AbortSignalData::new_aborted(None);
    assert!(s.is_aborted());
}

#[test]
fn test_close_event_constructor() {
    let c = CloseEventData::new("close".to_string(), true, close_code(Some(1000)), "Normal closure".to_string());
    assert!(c.event_type == "close" && c.was_clean && c.code == 1000 && c.reason == "Normal closure");
}

#[test]
fn test_custom_event_constructor() {
    let c = CustomEventData::new(EventData::new("myevent".to_string(), false, false), Some(1));
    assert_eq!(c.event.get_type(), "myevent");
}

#[test]
fn test_custom_event_detail() {
    let c = CustomEventData::new(EventData::new("myevent".to_string(), false, false), Some(42));
    assert_eq!(c.detail, Some(42));
}

#[test]
fn test_error_event_constructor() {
    let e = ErrorEventData::new("error".to_string(), "Test error".to_string(), String::new(), 10, 0, None);
    assert!(e.event_type == "error" && e.message == "Test error" && e.lineno == 10);
}

#[test]
fn test_hash_change_event_constructor() {
    let h = HashChangeEventData::new(
        EventData::new("hashchange".to_string(), false, false),
        "http://example.com#old".to_string(),
        "http://example.com#new".to_string(),
    );
    assert_eq!(h.event.get_type(), "hashchange");
    assert_eq!(h.old_url, "http://example.com#old");
    assert_eq!(h.new_url, "http://example.com#new");
}

#[test]
fn test_pop_state_event_constructor() {
    // The state object is held by its value id.
    let p = PopStateEventData::new("popstate".to_string(), Some(1));
    assert!(p.event_type == "popstate" && p.state == Some(1));
}

#[test]
fn test_progress_event_constructor() {
    let p = ProgressEventData::new("progress".to_string(), true, 50, 100);
    assert!(p.event_type == "progress" && p.length_computable && p.loaded == 50 && p.total == 100);
}

#[test]
fn touch_event_defaults_and_init() {
    let plain = TouchEventData::construct("touchstart".to_string(), None);
    assert!(plain.bubbles && plain.cancelable && plain.composed);
    assert_eq!(plain.touches, None);
    assert_eq!(plain.modifiers, Modifiers::none());
    let init = TouchEventInit {
        touches: Some(4),
        target_touches: None,
        changed_touches: Some(5),
        modifiers: Modifiers { ctrl_key: false, shift_key: true, alt_key: false, meta_key: false },
        bubbles: false,
        cancelable: true,
    };
    let t = TouchEventData::construct("touchmove".to_string(), Some(init));
    assert_eq!(t.event_type, "touchmove");
    assert!(!t.bubbles && t.cancelable && t.composed);
    assert_eq!(t.touches, Some(4));
    assert_eq!(t.changed_touches, Some(5));
    assert!(t.modifiers.get_modifier_state("Shift"));
}

#[test]
fn dispatch_of_untyped_event_answers_true() {
    let mut e = EventData::new(String::new(), true, true);
    assert_eq!(begin_dispatch(&mut e, 7), Some(true));
    assert_eq!(e.get_target(), None);
    let mut e = EventData::new("click".to_string(), true, true);
    assert_eq!(begin_dispatch(&mut e, 7), None);
    assert_eq!(e.get_target(), Some(7));
}
