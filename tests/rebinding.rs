use rest_app::{
    on_key_event, parse_shortcut, plan_rebind, Bindings, FacilityCall, KeyBinding, KeyState,
    Letter, Modifiers, Notification, Registry, Slot, RebindRequest,
};

/// A stand-in for the operating system's shortcut facility: the registered
/// bindings with the slot whose handler each runs.
struct Facility {
    held: Vec<(KeyBinding, Slot)>,
}

impl Facility {
    fn new() -> Facility {
        Facility { held: Vec::new() }
    }

    fn run(&mut self, calls: &[FacilityCall]) {
        for call in calls {
            match *call {
                FacilityCall::Unregister(b) => self.held.retain(|(k, _)| *k != b),
                FacilityCall::Register(slot, b) => {
                    if !self.held.iter().any(|(k, _)| *k == b) {
                        self.held.push((b, slot));
                    }
                }
            }
        }
    }

    fn press(&self, b: KeyBinding) -> Option<Notification> {
        let slot = self.held.iter().find(|(k, _)| *k == b).map(|(_, s)| *s)?;
        on_key_event(slot, KeyState::Pressed)
    }

    fn for_slot(&self, slot: Slot) -> Vec<KeyBinding> {
        self.held.iter().filter(|(_, s)| *s == slot).map(|(k, _)| *k).collect()
    }
}

fn request(skip: &str, pause: &str) -> RebindRequest {
    RebindRequest { skip: skip.to_string(), pause: pause.to_string() }
}

fn rebind(registry: &mut Registry, facility: &mut Facility, skip: &str, pause: &str) {
    let snapshot = registry.current();
    let plan = plan_rebind(&snapshot, &request(skip, pause));
    facility.run(&plan.calls);
    registry.replace(plan.bindings.skip, plan.bindings.pause);
}

fn ctrl(key: Letter) -> KeyBinding {
    KeyBinding { modifiers: Modifiers { control: true, shift: false, alt: false, super_key: false }, key }
}

fn alt(key: Letter) -> KeyBinding {
    KeyBinding { modifiers: Modifiers { control: false, shift: false, alt: true, super_key: false }, key }
}

#[test]
fn registry_starts_unbound() {
    let r = Registry::new();
    assert_eq!(r.current(), Bindings { skip: None, pause: None });
}

#[test]
fn registry_replaces_both_slots() {
    let mut r = Registry::new();
    r.replace(Some(ctrl(Letter::K)), None);
    assert_eq!(r.current(), Bindings { skip: Some(ctrl(Letter::K)), pause: None });
    assert_eq!(r.current().get(Slot::Skip), Some(ctrl(Letter::K)));
    assert_eq!(r.current().get(Slot::Pause), None);
    r.replace(None, Some(alt(Letter::P)));
    assert_eq!(r.current(), Bindings { skip: None, pause: Some(alt(Letter::P)) });
}

#[test]
fn plan_unregisters_old_before_registering_new() {
    let current = Bindings { skip: Some(ctrl(Letter::A)), pause: Some(alt(Letter::B)) };
    let plan = plan_rebind(&current, &request("ctrl+c", "alt+d"));
    assert_eq!(
        plan.calls,
        vec![
            FacilityCall::Unregister(ctrl(Letter::A)),
            FacilityCall::Unregister(alt(Letter::B)),
            FacilityCall::Register(Slot::Skip, ctrl(Letter::C)),
            FacilityCall::Register(Slot::Pause, alt(Letter::D)),
        ]
    );
    assert_eq!(plan.bindings, Bindings { skip: Some(ctrl(Letter::C)), pause: Some(alt(Letter::D)) });
}

#[test]
fn plan_records_parse_results_whatever_the_prior_state() {
    let priors = [
        Bindings { skip: None, pause: None },
        Bindings { skip: Some(ctrl(Letter::A)), pause: None },
        Bindings { skip: Some(ctrl(Letter::A)), pause: Some(ctrl(Letter::A)) },
    ];
    for prior in priors.iter() {
        let plan = plan_rebind(prior, &request("shift+q", "CTRL+SHIFT"));
        assert_eq!(plan.bindings.skip, parse_shortcut("shift+q"));
        assert_eq!(plan.bindings.pause, parse_shortcut("CTRL+SHIFT"));
        assert_eq!(plan.bindings.pause, None);
    }
}

#[test]
fn registry_holds_parse_results_even_if_registration_fails() {
    let mut registry = Registry::new();
    let plan = plan_rebind(&registry.current(), &request("CTRL+K", "ALT+P"));
    // The facility refuses every call: nothing is run.
    registry.replace(plan.bindings.skip, plan.bindings.pause);
    assert_eq!(registry.current(), Bindings { skip: parse_shortcut("CTRL+K"), pause: parse_shortcut("ALT+P") });
}

#[test]
fn second_rebind_leaves_one_binding_per_slot() {
    let mut registry = Registry::new();
    let mut facility = Facility::new();
    rebind(&mut registry, &mut facility, "CTRL+A", "ALT+P");
    rebind(&mut registry, &mut facility, "CTRL+B", "ALT+P");
    assert_eq!(facility.for_slot(Slot::Skip), vec![ctrl(Letter::B)]);
    assert_eq!(facility.for_slot(Slot::Pause), vec![alt(Letter::P)]);
    assert_eq!(facility.press(ctrl(Letter::A)), None);
}

#[test]
fn same_binding_for_both_slots_goes_to_skip() {
    let mut registry = Registry::new();
    let mut facility = Facility::new();
    rebind(&mut registry, &mut facility, "CTRL+A", "ctrl+a");
    assert_eq!(facility.for_slot(Slot::Skip), vec![ctrl(Letter::A)]);
    assert_eq!(facility.for_slot(Slot::Pause), vec![]);
    assert_eq!(registry.current(), Bindings { skip: Some(ctrl(Letter::A)), pause: Some(ctrl(Letter::A)) });
}

#[test]
fn end_to_end_bind_and_press() {
    let mut registry = Registry::new();
    let mut facility = Facility::new();
    assert_eq!(registry.current(), Bindings { skip: None, pause: None });
    rebind(&mut registry, &mut facility, "CTRL+K", "ALT+P");
    assert_eq!(registry.current(), Bindings { skip: Some(ctrl(Letter::K)), pause: Some(alt(Letter::P)) });
    let sent = facility.press(ctrl(Letter::K));
    assert_eq!(sent, Some(Notification::ForceSkip));
    assert_eq!(sent.unwrap().event_name(), "force-skip");
    assert_eq!(facility.press(alt(Letter::P)).unwrap().event_name(), "toggle-pause");
}

#[test]
fn end_to_end_unbind_both() {
    let mut registry = Registry::new();
    let mut facility = Facility::new();
    rebind(&mut registry, &mut facility, "CTRL+K", "ALT+P");
    rebind(&mut registry, &mut facility, "", "CTRL+SHIFT");
    assert_eq!(registry.current(), Bindings { skip: None, pause: None });
    assert!(facility.held.is_empty());
    assert_eq!(facility.press(ctrl(Letter::K)), None);
    assert_eq!(facility.press(alt(Letter::P)), None);
}

#[test]
fn key_events_and_notifications() {
    assert_eq!(on_key_event(Slot::Skip, KeyState::Pressed), Some(Notification::ForceSkip));
    assert_eq!(on_key_event(Slot::Pause, KeyState::Pressed), Some(Notification::TogglePause));
    assert_eq!(on_key_event(Slot::Skip, KeyState::Released), None);
    assert_eq!(on_key_event(Slot::Pause, KeyState::Released), None);
    assert_eq!(Notification::for_slot(Slot::Pause), Notification::TogglePause);
    assert_eq!(Notification::ForceSkip.event_name(), "force-skip");
    assert_eq!(Notification::TogglePause.event_name(), "toggle-pause");
}
