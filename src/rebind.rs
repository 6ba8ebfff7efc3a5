use vstd::prelude::*;

use crate::binding::KeyBinding;
use crate::parse::{parse_binding, parse_shortcut};
use crate::registry::{Bindings, Slot};

verus! {

/// The texts a user submitted for the two slots.
pub struct RebindRequest {
    pub skip: String,
    pub pause: String,
}

/// One call into the operating system's global shortcut facility.
#[derive(Clone, Copy, Debug, PartialEq, Eq, Structural)]
pub enum FacilityCall {
    /// Drop the registration of a binding.
    Unregister(KeyBinding),
    /// Register a binding with a handler that notifies for the slot.
    Register(Slot, KeyBinding),
}

/// What a rebind does: the facility calls to make, in order, and the
/// bindings to record once they are made.
pub struct RebindPlan {
    pub calls: Vec<FacilityCall>,
    pub bindings: Bindings,
}

/// The bindings that the two texts describe.
pub open spec fn parsed_bindings(skip: Seq<char>, pause: Seq<char>) -> Bindings {
    Bindings { skip: parse_binding(skip), pause: parse_binding(pause) }
}

/// Unregistering the bindings in force: the skip slot's, then the pause slot's.
pub open spec fn unregister_calls(old: Bindings) -> Seq<FacilityCall> {
    let first = match old.skip {
        Some(b) => seq![FacilityCall::Unregister(b)],
        None => Seq::empty(),
    };
    let second = match old.pause {
        Some(b) => seq![FacilityCall::Unregister(b)],
        None => Seq::empty(),
    };
    first + second
}

/// Registering the new bindings: the skip slot's, then the pause slot's.
pub open spec fn register_calls(new: Bindings) -> Seq<FacilityCall> {
    let first = match new.skip {
        Some(b) => seq![FacilityCall::Register(Slot::Skip, b)],
        None => Seq::empty(),
    };
    let second = match new.pause {
        Some(b) => seq![FacilityCall::Register(Slot::Pause, b)],
        None => Seq::empty(),
    };
    first + second
}

/// Every old binding is unregistered before any new one is registered.
pub open spec fn rebind_calls(old: Bindings, new: Bindings) -> Seq<FacilityCall> {
    unregister_calls(old) + register_calls(new)
}

/// Plans the replacement of the bindings in force (`current`) by those that
/// the request's texts describe. A text that describes no binding leaves its
/// slot unbound. The recorded bindings are the parsed ones whatever the
/// facility later answers to the calls.
pub fn plan_rebind(current: &Bindings, request: &RebindRequest) -> (r: RebindPlan)
    ensures
        r.bindings == parsed_bindings(request.skip@, request.pause@),
        r.calls@ == rebind_calls(*current, r.bindings),
{
    let mut calls: Vec<FacilityCall> = Vec::new();
    if let Some(b) = current.skip {
        calls.push(FacilityCall::Unregister(b));
    }
    if let Some(b) = current.pause {
        calls.push(FacilityCall::Unregister(b));
    }
    let skip = parse_shortcut(request.skip.as_str());
    let pause = parse_shortcut(request.pause.as_str());
    if let Some(b) = skip {
        calls.push(FacilityCall::Register(Slot::Skip, b));
    }
    if let Some(b) = pause {
        calls.push(FacilityCall::Register(Slot::Pause, b));
    }
    let bindings = Bindings { skip, pause };
    assert(calls@ =~= rebind_calls(*current, bindings));
    RebindPlan { calls, bindings }
}

/// The event sent to the main window.
#[derive(Clone, Copy, Debug, PartialEq, Eq, Structural)]
pub enum Notification {
    ForceSkip,
    TogglePause,
}

/// The notification that a slot's shortcut sends.
pub open spec fn notification_for(slot: Slot) -> Notification {
    match slot {
        Slot::Skip => Notification::ForceSkip,
        Slot::Pause => Notification::TogglePause,
    }
}

impl Notification {
    /// The notification that a slot's shortcut sends.
    pub fn for_slot(slot: Slot) -> (r: Notification)
        ensures
            r == notification_for(slot),
    {
        match slot {
            Slot::Skip => Notification::ForceSkip,
            Slot::Pause => Notification::TogglePause,
        }
    }

    /// The name under which the event is emitted.
    pub fn event_name(&self) -> (r: &'static str)
        ensures
            r@ == (match *self {
                Notification::ForceSkip => "force-skip"@,
                Notification::TogglePause => "toggle-pause"@,
            }),
    {
        match self {
            Notification::ForceSkip => "force-skip",
            Notification::TogglePause => "toggle-pause",
        }
    }
}

/// Whether a shortcut's key went down or came up.
#[derive(Clone, Copy, Debug, PartialEq, Eq, Structural)]
pub enum KeyState {
    Pressed,
    Released,
}

/// What the handler of a slot's shortcut sends for a key event: the slot's
/// notification when the key is pressed, nothing when it is released.
pub fn on_key_event(slot: Slot, state: KeyState) -> (r: Option<Notification>)
    ensures
        r == (match state {
            KeyState::Pressed => Some(notification_for(slot)),
            KeyState::Released => None,
        }),
{
    match state {
        KeyState::Pressed => Some(Notification::for_slot(slot)),
        KeyState::Released => None,
    }
}

/// The facility's registrations, as a map from binding to the slot whose
/// handler it runs, after one call. A binding that is already registered
/// cannot be registered again; unregistering one that is not registered
/// changes nothing.
pub open spec fn apply_call(held: Map<KeyBinding, Slot>, call: FacilityCall) -> Map<
    KeyBinding,
    Slot,
> {
    match call {
        FacilityCall::Unregister(b) => held.remove(b),
        FacilityCall::Register(slot, b) => if held.contains_key(b) {
            held
        } else {
            held.insert(b, slot)
        },
    }
}

/// The facility's registrations after a sequence of calls, each of which succeeds.
pub open spec fn apply_calls(held: Map<KeyBinding, Slot>, calls: Seq<FacilityCall>) -> Map<
    KeyBinding,
    Slot,
>
    decreases calls.len(),
{
    if calls.len() == 0 {
        held
    } else {
        apply_call(apply_calls(held, calls.drop_last()), calls.last())
    }
}

/// What the facility holds when it is in step with the recorded bindings:
/// the skip binding for the skip slot, and the pause binding for the pause
/// slot unless the skip slot already took it.
pub open spec fn held_for(b: Bindings) -> Map<KeyBinding, Slot> {
    apply_calls(Map::empty(), register_calls(b))
}

proof fn lemma_apply_calls_concat(
    held: Map<KeyBinding, Slot>,
    a: Seq<FacilityCall>,
    b: Seq<FacilityCall>,
)
    ensures
        apply_calls(held, a + b) == apply_calls(apply_calls(held, a), b),
    decreases b.len(),
{
    if b.len() == 0 {
        assert(a + b =~= a);
    } else {
        assert((a + b).drop_last() =~= a + b.drop_last());
        assert((a + b).last() == b.last());
        lemma_apply_calls_concat(held, a, b.drop_last());
    }
}

proof fn lemma_apply_one(held: Map<KeyBinding, Slot>, c: FacilityCall)
    ensures
        apply_calls(held, seq![c]) == apply_call(held, c),
{
    assert(seq![c].drop_last() =~= Seq::<FacilityCall>::empty());
    assert(apply_calls(held, Seq::<FacilityCall>::empty()) == held);
    assert(seq![c].last() == c);
}

proof fn lemma_unregister_all(old: Bindings)
    ensures
        apply_calls(held_for(old), unregister_calls(old)) == Map::<KeyBinding, Slot>::empty(),
{
    let e = Map::<KeyBinding, Slot>::empty();
    let first = match old.skip {
        Some(b) => seq![FacilityCall::Register(Slot::Skip, b)],
        None => Seq::<FacilityCall>::empty(),
    };
    let second = match old.pause {
        Some(b) => seq![FacilityCall::Register(Slot::Pause, b)],
        None => Seq::<FacilityCall>::empty(),
    };
    lemma_apply_calls_concat(e, first, second);
    let ufirst = match old.skip {
        Some(b) => seq![FacilityCall::Unregister(b)],
        None => Seq::<FacilityCall>::empty(),
    };
    let usecond = match old.pause {
        Some(b) => seq![FacilityCall::Unregister(b)],
        None => Seq::<FacilityCall>::empty(),
    };
    lemma_apply_calls_concat(held_for(old), ufirst, usecond);
    if let Some(b) = old.skip {
        lemma_apply_one(e, FacilityCall::Register(Slot::Skip, b));
        lemma_apply_one(held_for(old), FacilityCall::Unregister(b));
    }
    let h1 = apply_calls(e, first);
    if let Some(b) = old.pause {
        lemma_apply_one(h1, FacilityCall::Register(Slot::Pause, b));
        lemma_apply_one(apply_calls(held_for(old), ufirst), FacilityCall::Unregister(b));
    }
    assert(apply_calls(held_for(old), unregister_calls(old)) =~= e);
}

/// A rebind keeps the facility in step with the registry: if, before it, the
/// facility holds what the old bindings call for, then once its calls are
/// made it holds exactly what the new bindings call for, and no old
/// registration is left behind.
pub proof fn lemma_rebind_keeps_facility_in_step(old: Bindings, new: Bindings)
    ensures
        apply_calls(held_for(old), rebind_calls(old, new)) == held_for(new),
{
    lemma_apply_calls_concat(held_for(old), unregister_calls(old), register_calls(new));
    lemma_unregister_all(old);
}

/// Two rebinds in a row, starting from a facility in step with the registry,
/// leave each slot with exactly the binding that the second request gives it
/// (the skip slot taking precedence when both texts describe the same
/// binding): the binding of the first request is no longer registered for it.
pub proof fn lemma_second_rebind_replaces_first(
    prior: Bindings,
    skip1: Seq<char>,
    pause1: Seq<char>,
    skip2: Seq<char>,
    pause2: Seq<char>,
)
    ensures
        ({
            let mid = parsed_bindings(skip1, pause1);
            let last = parsed_bindings(skip2, pause2);
            let held = apply_calls(
                apply_calls(held_for(prior), rebind_calls(prior, mid)),
                rebind_calls(mid, last),
            );
            &&& forall|b: KeyBinding|
                (held.contains_key(b) && held[b] == Slot::Skip) <==> last.skip == Some(b)
            &&& forall|b: KeyBinding|
                (held.contains_key(b) && held[b] == Slot::Pause) <==> (last.pause == Some(b)
                    && last.skip != Some(b))
        }),
{
    let mid = parsed_bindings(skip1, pause1);
    let last = parsed_bindings(skip2, pause2);
    lemma_rebind_keeps_facility_in_step(prior, mid);
    lemma_rebind_keeps_facility_in_step(mid, last);
    let e = Map::<KeyBinding, Slot>::empty();
    let first = match last.skip {
        Some(b) => seq![FacilityCall::Register(Slot::Skip, b)],
        None => Seq::<FacilityCall>::empty(),
    };
    let second = match last.pause {
        Some(b) => seq![FacilityCall::Register(Slot::Pause, b)],
        None => Seq::<FacilityCall>::empty(),
    };
    lemma_apply_calls_concat(e, first, second);
    if let Some(b) = last.skip {
        lemma_apply_one(e, FacilityCall::Register(Slot::Skip, b));
    }
    let h1 = apply_calls(e, first);
    if let Some(b) = last.pause {
        lemma_apply_one(h1, FacilityCall::Register(Slot::Pause, b));
    }
}

} // verus!
