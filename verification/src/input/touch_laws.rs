//! What the system sees of the fingers: the events of the touch device, taken
//! one after the other, show it the touches that the tablet knows of.

use vstd::prelude::*;

use crate::input::events::TouchSlot;
use crate::input::single::normalized;
use crate::input::tablet_model::{
    active_count, active_in, any_change, initial, is_first_free, is_first_of, pen_event,
    processed, release_all, release_slot, release_slots, select, slot_change, still, sync_slot,
    sync_slots, sync_touches, tracking_id, with_slot, Device, DeviceEvent, SlotChange, Step,
    TabletError, TabletModel, Trace, ABS_MT_POSITION_X, ABS_MT_POSITION_Y, ABS_MT_SLOT, ABS_MT_TRACKING_ID,
    EV_ABS, EV_SYN,
};
use crate::protocol::packets::{InputEvent, Single};
use crate::text::decimal;

verus! {

/// A touch as the system sees it.
pub struct Touch {
    pub id: i32,
    pub x: i32,
    pub y: i32,
}

/// What the system knows of the touch device: the slot that events refer to,
/// and the touch in each slot.
pub struct Screen {
    pub slot: int,
    pub touches: Seq<Option<Touch>>,
}

/// The screen after an event of the touch device: an event chooses a slot,
/// starts or ends the touch in the chosen slot, or moves it.
pub open spec fn with_event(screen: Screen, event: DeviceEvent) -> Screen {
    let touch = screen.touches[screen.slot];
    if event.kind != EV_ABS {
        screen
    } else if event.code == ABS_MT_SLOT {
        Screen { slot: event.value as int, ..screen }
    } else if event.code == ABS_MT_TRACKING_ID {
        Screen {
            touches: screen.touches.update(
                screen.slot,
                if event.value == -1 {
                    None
                } else {
                    Some(Touch { id: event.value, x: 0, y: 0 })
                },
            ),
            ..screen
        }
    } else if event.code == ABS_MT_POSITION_X && touch is Some {
        Screen {
            touches: screen.touches.update(
                screen.slot,
                Some(Touch { x: event.value, ..touch->Some_0 }),
            ),
            ..screen
        }
    } else if event.code == ABS_MT_POSITION_Y && touch is Some {
        Screen {
            touches: screen.touches.update(
                screen.slot,
                Some(Touch { y: event.value, ..touch->Some_0 }),
            ),
            ..screen
        }
    } else {
        screen
    }
}

/// The screen after events of the touch device.
pub open spec fn with_events(screen: Screen, events: Seq<DeviceEvent>) -> Screen
    decreases events.len(),
{
    if events.len() == 0 {
        screen
    } else {
        with_event(with_events(screen, events.drop_last()), events.last())
    }
}

/// The screen after emissions; those of the pen do not concern it.
pub open spec fn with_steps(screen: Screen, steps: Seq<Step>) -> Screen
    decreases steps.len(),
{
    if steps.len() == 0 {
        screen
    } else {
        let before = with_steps(screen, steps.drop_last());
        if steps.last().device == Device::Touch {
            with_events(before, steps.last().events)
        } else {
            before
        }
    }
}

/// What the system sees of a slot: the touch in it, if that is active and the
/// system was told of it. A touch whose ID is the one that ends touches is not
/// seen.
pub open spec fn visible(slot: TouchSlot) -> Option<Touch> {
    if slot.active && slot.reported_to_os && slot.tracking_id != -1 {
        Some(Touch { id: slot.tracking_id, x: slot.x, y: slot.y })
    } else {
        None
    }
}

/// Whether the system sees what the tablet takes it to see.
pub open spec fn agrees(screen: Screen, state: TabletModel) -> bool {
    &&& screen.slot == state.current_slot
    &&& screen.touches.len() == 10
    &&& forall|i: int| 0 <= i < 10 ==> #[trigger] screen.touches[i] == visible(state.slots[i])
}

/// The screen before any touch.
pub open spec fn empty_screen() -> Screen {
    Screen { slot: 0, touches: Seq::new(10, |i: int| None::<Touch>) }
}

// ---------------------------------------------------------------------------
// Single emissions
// ---------------------------------------------------------------------------

proof fn lemma_emit(screen: Screen, t: Trace, device: Device, events: Seq<DeviceEvent>)
    ensures
        with_steps(screen, t.emit(device, events).steps) == if device == Device::Touch {
            with_events(with_steps(screen, t.steps), events)
        } else {
            with_steps(screen, t.steps)
        },
{
    assert(t.emit(device, events).steps.drop_last() =~= t.steps);
}

proof fn lemma_one(screen: Screen, a: DeviceEvent)
    ensures
        with_events(screen, seq![a]) == with_event(screen, a),
{
    assert(seq![a].drop_last() =~= Seq::<DeviceEvent>::empty());
    reveal_with_fuel(with_events, 2);
}

proof fn lemma_two(screen: Screen, a: DeviceEvent, b: DeviceEvent)
    ensures
        with_events(screen, seq![a, b]) == with_event(with_event(screen, a), b),
{
    assert(seq![a, b].drop_last() =~= seq![a]);
    lemma_one(screen, a);
}

proof fn lemma_three(screen: Screen, a: DeviceEvent, b: DeviceEvent, c: DeviceEvent)
    ensures
        with_events(screen, seq![a, b, c]) == with_event(
            with_event(with_event(screen, a), b),
            c,
        ),
{
    assert(seq![a, b, c].drop_last() =~= seq![a, b]);
    lemma_two(screen, a, b);
}

/// Events without a position on any axis change nothing.
proof fn lemma_no_axes(screen: Screen, events: Seq<DeviceEvent>)
    requires
        forall|i: int| 0 <= i < events.len() ==> (#[trigger] events[i]).kind != EV_ABS,
    ensures
        with_events(screen, events) == screen,
    decreases events.len(),
{
    if events.len() > 0 {
        assert forall|i: int| 0 <= i < events.drop_last().len() implies (
        #[trigger] events.drop_last()[i]).kind != EV_ABS by {
            assert(events[i].kind != EV_ABS);
        }
        lemma_no_axes(screen, events.drop_last());
        assert(events[events.len() - 1].kind != EV_ABS);
    }
}

proof fn lemma_select(screen: Screen, t: Trace, i: int)
    requires
        0 <= i < 10,
        with_steps(screen, t.steps).slot == t.end.current_slot,
    ensures
        select(t, i).end.slots == t.end.slots,
        select(t, i).end.current_slot == i,
        with_steps(screen, select(t, i).steps) == (Screen {
            slot: i,
            ..with_steps(screen, t.steps)
        }),
{
    if t.end.current_slot != i {
        let chosen = t.then_state(TabletModel { current_slot: i as u8, ..t.end });
        let event = DeviceEvent { kind: EV_ABS, code: ABS_MT_SLOT, value: i as i32 };
        lemma_emit(screen, chosen, Device::Touch, seq![event]);
        lemma_one(with_steps(screen, t.steps), event);
    }
}

// ---------------------------------------------------------------------------
// Telling of the slots
// ---------------------------------------------------------------------------

/// What the system saw of a slot before it is told of it: a touch that it was
/// not told of is not there, and one that it was told of is, at some place.
spec fn was_shown(seen: Option<Touch>, slot: TouchSlot) -> bool {
    if slot.reported_to_os && slot.active && slot.tracking_id != -1 {
        seen is Some && seen->Some_0.id == slot.tracking_id
    } else {
        slot.reported_to_os && !slot.active || seen is None
    }
}

/// The screen while the first `n` slots have been told.
spec fn told_to(screen: Screen, t: Trace, state: TabletModel, n: int) -> bool {
    let shown = with_steps(screen, t.steps);
    &&& shown.slot == t.end.current_slot
    &&& shown.touches.len() == 10
    &&& t.end.slots.len() == 10
    &&& forall|i: int| 0 <= i < n ==> #[trigger] shown.touches[i] == visible(t.end.slots[i])
    &&& forall|i: int| n <= i < 10 ==> was_shown(#[trigger] shown.touches[i], state.slots[i])
    &&& forall|i: int| n <= i < 10 ==> #[trigger] t.end.slots[i] == state.slots[i]
}

proof fn lemma_sync_slots(screen: Screen, state: TabletModel, n: nat, count: nat)
    requires
        n <= 10,
        told_to(screen, still(state), state, 0),
    ensures
        told_to(screen, sync_slots(still(state), n, count), state, n as int),
    decreases n,
{
    if n > 0 {
        let i = n - 1;
        lemma_sync_slots(screen, state, i as nat, count);
        let before = sync_slots(still(state), i as nat, count);
        let after = sync_slots(still(state), n, count);
        let slot = state.slots[i];
        assert(before.end.slots[i] == slot);
        assert(after == sync_slot(before, i, count));
        let shown = with_steps(screen, before.steps);
        assert(was_shown(shown.touches[i], slot));
        lemma_select(screen, before, i);
        let selected = select(before, i);
        let ready = with_steps(screen, selected.steps);
        let id = DeviceEvent { kind: EV_ABS, code: ABS_MT_TRACKING_ID, value: slot.tracking_id };
        let x = DeviceEvent { kind: EV_ABS, code: ABS_MT_POSITION_X, value: slot.x };
        let y = DeviceEvent { kind: EV_ABS, code: ABS_MT_POSITION_Y, value: slot.y };
        match slot_change(slot, count) {
            SlotChange::Nothing => {
                assert(with_steps(screen, after.steps).touches[i] == visible(after.end.slots[i]));
            },
            SlotChange::Show => {
                lemma_emit(screen, selected, Device::Touch, seq![id, x, y]);
                lemma_three(ready, id, x, y);
                assert(with_steps(screen, after.steps).touches[i] == visible(after.end.slots[i]));
            },
            SlotChange::Hide => {
                let gone = DeviceEvent { kind: EV_ABS, code: ABS_MT_TRACKING_ID, value: -1i32 };
                lemma_emit(screen, selected, Device::Touch, seq![gone]);
                lemma_one(ready, gone);
                assert(with_steps(screen, after.steps).touches[i] == visible(after.end.slots[i]));
            },
            SlotChange::Update => {
                lemma_emit(screen, selected, Device::Touch, seq![x, y]);
                lemma_two(ready, x, y);
                assert(with_steps(screen, after.steps).touches[i] == visible(after.end.slots[i]));
            },
        }
        let now = with_steps(screen, after.steps);
        assert forall|j: int| 0 <= j < 10 && j != i implies #[trigger] now.touches[j]
            == shown.touches[j] && after.end.slots[j] == before.end.slots[j] by {}
        assert forall|j: int| 0 <= j < n implies #[trigger] now.touches[j] == visible(
            after.end.slots[j],
        ) by {
            if j < i {
                assert(shown.touches[j] == visible(before.end.slots[j]));
            }
        }
        assert forall|j: int| n <= j < 10 implies was_shown(
            #[trigger] now.touches[j],
            state.slots[j],
        ) by {
            assert(was_shown(shown.touches[j], state.slots[j]));
        }
        assert forall|j: int| n <= j < 10 implies #[trigger] after.end.slots[j]
            == state.slots[j] by {
            assert(before.end.slots[j] == state.slots[j]);
        }
    }
}

proof fn lemma_sync(screen: Screen, state: TabletModel)
    requires
        told_to(screen, still(state), state, 0),
    ensures
        ({
            let t = sync_touches(still(state));
            agrees(with_steps(screen, t.steps), t.end)
        }),
{
    let count = active_count(state.slots);
    lemma_sync_slots(screen, state, 10, count);
    let told = sync_slots(still(state), 10, count);
    if any_change(state.slots, 10, count) {
        let report = DeviceEvent { kind: EV_SYN, code: 0, value: 0 };
        lemma_emit(screen, told, Device::Touch, seq![report]);
        lemma_one(with_steps(screen, told.steps), report);
    }
}

// ---------------------------------------------------------------------------
// Lifting touches for the pen
// ---------------------------------------------------------------------------

proof fn lemma_release_slots(screen: Screen, t: Trace, n: nat)
    requires
        n <= 10,
        t.end.slots.len() == 10,
        agrees(with_steps(screen, t.steps), t.end),
    ensures
        release_slots(t, n).end.slots.len() == 10,
        agrees(with_steps(screen, release_slots(t, n).steps), release_slots(t, n).end),
    decreases n,
{
    if n > 0 {
        let i = n - 1;
        lemma_release_slots(screen, t, i as nat);
        let before = release_slots(t, i as nat);
        let after = release_slots(t, n);
        assert(after == release_slot(before, i));
        if before.end.slots[i].active {
            lemma_select(screen, before, i);
            let selected = select(before, i);
            let lifted = selected.then_state(
                with_slot(selected.end, i, TouchSlot { active: false, ..before.end.slots[i] }),
            );
            let gone = DeviceEvent { kind: EV_ABS, code: ABS_MT_TRACKING_ID, value: -1i32 };
            lemma_emit(screen, lifted, Device::Touch, seq![gone]);
            lemma_one(with_steps(screen, selected.steps), gone);
            let shown = with_steps(screen, before.steps);
            let now = with_steps(screen, after.steps);
            assert forall|j: int| 0 <= j < 10 implies #[trigger] now.touches[j] == visible(
                after.end.slots[j],
            ) by {
                assert(shown.touches[j] == visible(before.end.slots[j]));
            }
        }
    }
}

proof fn lemma_release_all(screen: Screen, t: Trace)
    requires
        t.end.slots.len() == 10,
        agrees(with_steps(screen, t.steps), t.end),
    ensures
        agrees(with_steps(screen, release_all(t).steps), release_all(t).end),
{
    if active_count(t.end.slots) != 0 {
        lemma_release_slots(screen, t, 10);
        let released = release_slots(t, 10);
        let off = crate::input::tablet_model::tools_off();
        let report = DeviceEvent { kind: EV_SYN, code: 0, value: 0 };
        lemma_emit(screen, released, Device::Touch, off);
        lemma_no_axes(with_steps(screen, released.steps), off);
        lemma_emit(screen, released.emit(Device::Touch, off), Device::Touch, seq![report]);
        lemma_one(with_steps(screen, released.steps), report);
    }
}

/// Emissions of the pen leave the screen as it is.
proof fn lemma_pen_steps(screen: Screen, steps: Seq<Step>, from: int)
    requires
        0 <= from <= steps.len(),
        forall|i: int|
            from <= i < steps.len() ==> (#[trigger] steps[i]).device == Device::Pen,
    ensures
        with_steps(screen, steps) == with_steps(screen, steps.take(from)),
    decreases steps.len(),
{
    if from < steps.len() {
        assert(steps[steps.len() - 1].device == Device::Pen);
        assert forall|i: int| from <= i < steps.drop_last().len() implies (
        #[trigger] steps.drop_last()[i]).device == Device::Pen by {
            assert(steps[i].device == Device::Pen);
        }
        lemma_pen_steps(screen, steps.drop_last(), from);
        assert(steps.drop_last().take(from) =~= steps.take(from));
    } else {
        assert(steps.take(from) =~= steps);
    }
}

proof fn lemma_pen_event(screen: Screen, t: Trace, event: InputEvent)
    ensures
        with_steps(screen, pen_event(t, event).steps) == with_steps(screen, t.steps),
        pen_event(t, event).end.slots == t.end.slots,
        pen_event(t, event).end.current_slot == t.end.current_slot,
{
    let after = pen_event(t, event);
    assert(after.steps.len() >= t.steps.len());
    lemma_pen_steps(screen, after.steps, t.steps.len() as int);
    assert(after.steps.take(t.steps.len() as int) =~= t.steps);
}

// ---------------------------------------------------------------------------
// The fingers that the tablet knows of
// ---------------------------------------------------------------------------

proof fn lemma_first_free(slots: Seq<TouchSlot>, i: int)
    requires
        is_first_free(slots, i),
    ensures
        (choose|j: int| is_first_free(slots, j)) == i,
{
    let j = choose|j: int| is_first_free(slots, j);
    assert(is_first_free(slots, j));
    if j < i {
        assert(slots[j].active);
    }
    if i < j {
        assert(slots[i].active);
    }
}

proof fn lemma_first_of(slots: Seq<TouchSlot>, id: i32, i: int)
    requires
        is_first_of(slots, id, i),
    ensures
        (choose|j: int| is_first_of(slots, id, j)) == i,
{
    let j = choose|j: int| is_first_of(slots, id, j);
    assert(is_first_of(slots, id, j));
    if j < i {
        assert(!(slots[j].active && slots[j].tracking_id == id));
    }
    if i < j {
        assert(!(slots[i].active && slots[i].tracking_id == id));
    }
}

proof fn lemma_two_active(slots: Seq<TouchSlot>, n: nat)
    ensures
        active_in(slots, n) >= 1 <==> exists|i: int| 0 <= i < n && (#[trigger] slots[i]).active,
        active_in(slots, n) >= 2 <==> exists|i: int, j: int|
            0 <= i < j < n && (#[trigger] slots[i]).active && (#[trigger] slots[j]).active,
    decreases n,
{
    if n > 0 {
        let m = (n - 1) as nat;
        lemma_two_active(slots, m);
        if active_in(slots, n) >= 1 {
            if slots[n - 1].active {
                assert(0 <= n - 1 < n && slots[n - 1].active);
            } else {
                let i = choose|i: int| 0 <= i < m && (#[trigger] slots[i]).active;
                assert(0 <= i < n && slots[i].active);
            }
        }
        if active_in(slots, n) >= 2 {
            if slots[n - 1].active {
                let i = choose|i: int| 0 <= i < m && (#[trigger] slots[i]).active;
                assert(0 <= i < n - 1 < n && slots[i].active && slots[n - 1].active);
            } else {
                let (i, j) = choose|i: int, j: int|
                    0 <= i < j < m && (#[trigger] slots[i]).active && (#[trigger] slots[j]).active;
                assert(0 <= i < j < n && slots[i].active && slots[j].active);
            }
        }
        if exists|i: int, j: int|
            0 <= i < j < n && (#[trigger] slots[i]).active && (#[trigger] slots[j]).active {
            let (i, j) = choose|i: int, j: int|
                0 <= i < j < n && (#[trigger] slots[i]).active && (#[trigger] slots[j]).active;
            if j < m {
                assert(0 <= i < j < m && slots[i].active && slots[j].active);
            } else {
                assert(0 <= i < m && slots[i].active);
            }
        }
    }
}

/// Whether at least two touches are active.
pub open spec fn two_active(slots: Seq<TouchSlot>) -> bool {
    exists|i: int, j: int|
        0 <= i < j < slots.len() && (#[trigger] slots[i]).active && (#[trigger] slots[j]).active
}

/// The 32 bits of a touch ID, signed.
pub open spec fn is_id(tracking: i32, id: u32) -> bool {
    tracking == id || tracking == id - 0x1_0000_0000
}

/// Whether the pen was active less than a second before `seen`, so that fingers
/// going down or moving are taken for a palm.
pub open spec fn pen_in_use(state: TabletModel, seen: u128) -> bool {
    state.last_pen_activity is Some && seen - state.last_pen_activity->Some_0 < 1_000_000_000
}

/// A finger that goes down takes the first slot without an active touch, with
/// its ID and the place that the client has sent; all other slots keep their
/// touches. The system is told of the active touches, if there are two or more.
/// Without a free slot, or while the pen is in use, nothing happens.
pub proof fn finger_takes_free_slot(
    state: TabletModel,
    id: u32,
    x: Single,
    y: Single,
    seen: u128,
    now: u128,
    i: int,
)
    requires
        state.slots.len() == 10,
    ensures
        ({
            let t = processed(state, InputEvent::TouchDown { id, x, y }, seen, now);
            let free = 0 <= i < 10 && !state.slots[i].active && forall|j: int|
                0 <= j < i ==> (#[trigger] state.slots[j]).active;
            &&& pen_in_use(state, seen) ==> t == still(state)
            &&& (forall|j: int| 0 <= j < 10 ==> (#[trigger] state.slots[j]).active) ==> t == still(
                state,
            )
            &&& free && !pen_in_use(state, seen) ==> {
                &&& t.end.slots.len() == 10
                &&& t.end.slots[i].active && is_id(t.end.slots[i].tracking_id, id)
                &&& t.end.slots[i].x == normalized(x, 65535)
                &&& t.end.slots[i].y == normalized(y, 65535)
                &&& forall|j: int|
                    #![trigger t.end.slots[j]]
                    0 <= j < 10 ==> t.end.slots[j].reported_to_os == (t.end.slots[j].active
                        && two_active(t.end.slots))
                &&& forall|j: int|
                    0 <= j < 10 && j != i ==> #[trigger] t.end.slots[j] == (TouchSlot {
                        reported_to_os: t.end.slots[j].reported_to_os,
                        ..state.slots[j]
                    })
            }
        }),
{
    let free = 0 <= i < 10 && !state.slots[i].active && forall|j: int|
        0 <= j < i ==> (#[trigger] state.slots[j]).active;
    if forall|j: int| 0 <= j < 10 ==> (#[trigger] state.slots[j]).active {
        assert forall|j: int| !is_first_free(state.slots, j) by {
            if 0 <= j < 10 {
                assert(state.slots[j].active);
            }
        }
    }
    if free && !pen_in_use(state, seen) {
        assert(is_first_free(state.slots, i));
        lemma_first_free(state.slots, i);
        let placed = with_slot(
            state,
            i,
            TouchSlot {
                tracking_id: tracking_id(id),
                x: normalized(x, 65535),
                y: normalized(y, 65535),
                active: true,
                reported_to_os: false,
            },
        );
        lemma_synced(placed);
    }
}

/// What telling of the slots leaves of them.
proof fn lemma_synced(state: TabletModel)
    requires
        state.slots.len() == 10,
    ensures
        ({
            let t = sync_touches(still(state));
            &&& t.end.slots.len() == 10
            &&& two_active(t.end.slots) == two_active(state.slots)
            &&& forall|j: int|
                0 <= j < 10 ==> #[trigger] t.end.slots[j] == (TouchSlot {
                    reported_to_os: state.slots[j].active && two_active(state.slots),
                    ..state.slots[j]
                })
        }),
{
    let t = sync_touches(still(state));
    crate::input::tablet_laws::sync_lifts_what_it_hides(state);
    lemma_two_active(state.slots, 10);
    assert forall|j: int| 0 <= j < 10 implies #[trigger] t.end.slots[j] == (TouchSlot {
        reported_to_os: state.slots[j].active && two_active(state.slots),
        ..state.slots[j]
    }) by {}
    if two_active(state.slots) {
        let (a, b) = choose|a: int, b: int|
            0 <= a < b < state.slots.len() && (#[trigger] state.slots[a]).active && (
            #[trigger] state.slots[b]).active;
        assert(t.end.slots[a].active && t.end.slots[b].active);
    }
    if two_active(t.end.slots) {
        let (a, b) = choose|a: int, b: int|
            0 <= a < b < t.end.slots.len() && (#[trigger] t.end.slots[a]).active && (
            #[trigger] t.end.slots[b]).active;
        assert(state.slots[a].active && state.slots[b].active);
    }
}

/// A finger that moves keeps its slot, which takes the place that the client has
/// sent; all other slots keep their touches. A finger that is in no slot does
/// nothing, and neither does any while the pen is in use.
pub proof fn finger_moves_in_its_slot(
    state: TabletModel,
    id: u32,
    x: Single,
    y: Single,
    seen: u128,
    now: u128,
    i: int,
)
    requires
        state.slots.len() == 10,
    ensures
        ({
            let t = processed(state, InputEvent::TouchMove { id, x, y }, seen, now);
            let held = 0 <= i < 10 && state.slots[i].active && is_id(state.slots[i].tracking_id, id)
                && forall|j: int|
                0 <= j < i ==> !((#[trigger] state.slots[j]).active && is_id(
                    state.slots[j].tracking_id,
                    id,
                ));
            &&& pen_in_use(state, seen) ==> t == still(state)
            &&& (forall|j: int|
                0 <= j < 10 ==> !((#[trigger] state.slots[j]).active && is_id(
                    state.slots[j].tracking_id,
                    id,
                ))) ==> t == still(state)
            &&& held && !pen_in_use(state, seen) ==> {
                &&& t.end.slots.len() == 10
                &&& t.end.slots[i].active
                &&& t.end.slots[i].tracking_id == state.slots[i].tracking_id
                &&& t.end.slots[i].x == normalized(x, 65535)
                &&& t.end.slots[i].y == normalized(y, 65535)
                &&& forall|j: int|
                    #![trigger t.end.slots[j]]
                    0 <= j < 10 ==> t.end.slots[j].reported_to_os == (t.end.slots[j].active
                        && two_active(t.end.slots))
                &&& forall|j: int|
                    0 <= j < 10 && j != i ==> #[trigger] t.end.slots[j] == (TouchSlot {
                        reported_to_os: t.end.slots[j].reported_to_os,
                        ..state.slots[j]
                    })
            }
        }),
{
    let held = 0 <= i < 10 && state.slots[i].active && is_id(state.slots[i].tracking_id, id)
        && forall|j: int|
        0 <= j < i ==> !((#[trigger] state.slots[j]).active && is_id(
            state.slots[j].tracking_id,
            id,
        ));
    lemma_holds(state, id);
    if held && !pen_in_use(state, seen) {
        assert(is_first_of(state.slots, tracking_id(id), i));
        lemma_first_of(state.slots, tracking_id(id), i);
        let moved = with_slot(
            state,
            i,
            TouchSlot {
                x: normalized(x, 65535),
                y: normalized(y, 65535),
                ..state.slots[i]
            },
        );
        lemma_synced(moved);
    }
}

/// Which slots hold a finger.
proof fn lemma_holds(state: TabletModel, id: u32)
    requires
        state.slots.len() == 10,
    ensures
        forall|tracking: i32| is_id(tracking, id) <==> tracking == tracking_id(id),
        (forall|j: int|
            0 <= j < 10 ==> !((#[trigger] state.slots[j]).active && is_id(
                state.slots[j].tracking_id,
                id,
            ))) ==> !exists|j: int| is_first_of(state.slots, tracking_id(id), j),
{
    if forall|j: int|
        0 <= j < 10 ==> !((#[trigger] state.slots[j]).active && is_id(
            state.slots[j].tracking_id,
            id,
        )) {
        assert forall|j: int| !is_first_of(state.slots, tracking_id(id), j) by {
            if 0 <= j < 10 {
                assert(!(state.slots[j].active && is_id(state.slots[j].tracking_id, id)));
            }
        }
    }
}

/// A finger that goes up leaves its slot without an active touch, also while the
/// pen is in use; all other slots keep their touches. A finger that is in no slot
/// does nothing.
pub proof fn finger_leaves_its_slot(
    state: TabletModel,
    id: u32,
    seen: u128,
    now: u128,
    i: int,
)
    requires
        state.slots.len() == 10,
    ensures
        ({
            let t = processed(state, InputEvent::TouchUp { id }, seen, now);
            let held = 0 <= i < 10 && state.slots[i].active && is_id(state.slots[i].tracking_id, id)
                && forall|j: int|
                0 <= j < i ==> !((#[trigger] state.slots[j]).active && is_id(
                    state.slots[j].tracking_id,
                    id,
                ));
            &&& (forall|j: int|
                0 <= j < 10 ==> !((#[trigger] state.slots[j]).active && is_id(
                    state.slots[j].tracking_id,
                    id,
                ))) ==> t == still(state)
            &&& held ==> {
                &&& t.end.slots.len() == 10
                &&& !t.end.slots[i].active
                &&& forall|j: int|
                    #![trigger t.end.slots[j]]
                    0 <= j < 10 ==> t.end.slots[j].reported_to_os == (t.end.slots[j].active
                        && two_active(t.end.slots))
                &&& forall|j: int|
                    0 <= j < 10 && j != i ==> #[trigger] t.end.slots[j] == (TouchSlot {
                        reported_to_os: t.end.slots[j].reported_to_os,
                        ..state.slots[j]
                    })
            }
        }),
{
    let held = 0 <= i < 10 && state.slots[i].active && is_id(state.slots[i].tracking_id, id)
        && forall|j: int|
        0 <= j < i ==> !((#[trigger] state.slots[j]).active && is_id(
            state.slots[j].tracking_id,
            id,
        ));
    lemma_holds(state, id);
    if held {
        assert(is_first_of(state.slots, tracking_id(id), i));
        lemma_first_of(state.slots, tracking_id(id), i);
        lemma_synced(with_slot(state, i, TouchSlot { active: false, ..state.slots[i] }));
    }
}

// ---------------------------------------------------------------------------
// What the system sees
// ---------------------------------------------------------------------------

/// Whatever the client sends, the system sees what the tablet takes it to see,
/// if it did before: the touches of the slots that are active and that it was
/// told of, with their IDs and where they are now. At first it sees none.
pub proof fn system_sees_touches(
    screen: Screen,
    state: TabletModel,
    event: InputEvent,
    seen: u128,
    now: u128,
)
    requires
        state.slots.len() == 10,
        agrees(screen, state),
    ensures
        ({
            let t = processed(state, event, seen, now);
            agrees(with_steps(screen, t.steps), t.end)
        }),
        agrees(empty_screen(), initial()),
{
    let t = processed(state, event, seen, now);
    assert(with_steps(screen, Seq::<Step>::empty()) == screen);
    if t != still(state) {
        match event {
            InputEvent::TouchDown { id, x, y } => {
                let i = choose|i: int| is_first_free(state.slots, i);
                assert(is_first_free(state.slots, i));
                lemma_sync(
                    screen,
                    with_slot(
                        state,
                        i,
                        TouchSlot {
                            tracking_id: tracking_id(id),
                            x: normalized(x, 65535),
                            y: normalized(y, 65535),
                            active: true,
                            reported_to_os: false,
                        },
                    ),
                );
            },
            InputEvent::TouchMove { id, x, y } => {
                let i = choose|i: int| is_first_of(state.slots, tracking_id(id), i);
                assert(is_first_of(state.slots, tracking_id(id), i));
                lemma_sync(
                    screen,
                    with_slot(
                        state,
                        i,
                        TouchSlot {
                            x: normalized(x, 65535),
                            y: normalized(y, 65535),
                            ..state.slots[i]
                        },
                    ),
                );
            },
            InputEvent::TouchUp { id } => {
                let i = choose|i: int| is_first_of(state.slots, tracking_id(id), i);
                assert(is_first_of(state.slots, tracking_id(id), i));
                lemma_sync(
                    screen,
                    with_slot(state, i, TouchSlot { active: false, ..state.slots[i] }),
                );
            },
            _ => {
                let noted = still(TabletModel { last_pen_activity: Some(now), ..state });
                lemma_release_all(screen, noted);
                let start = if pen_in_use(state, seen) {
                    noted
                } else {
                    release_all(noted)
                };
                lemma_pen_event(screen, start, event);
            },
        }
    }
}

/// A finger that moves while another one is down is seen where the client has
/// moved it to, with its ID, and the other ones are seen where they were.
pub proof fn moved_finger_is_seen(
    screen: Screen,
    state: TabletModel,
    id: u32,
    x: Single,
    y: Single,
    seen: u128,
    now: u128,
    i: int,
    other: int,
)
    requires
        state.slots.len() == 10,
        agrees(screen, state),
        !pen_in_use(state, seen),
        id != u32::MAX,
        0 <= i < 10,
        0 <= other < 10,
        other != i,
        state.slots[i].active && is_id(state.slots[i].tracking_id, id),
        forall|j: int|
            0 <= j < i ==> !((#[trigger] state.slots[j]).active && is_id(
                state.slots[j].tracking_id,
                id,
            )),
        state.slots[other].active && state.slots[other].tracking_id != -1,
    ensures
        ({
            let t = processed(state, InputEvent::TouchMove { id, x, y }, seen, now);
            let shown = with_steps(screen, t.steps);
            &&& shown.touches[i] == Some(
                Touch {
                    id: state.slots[i].tracking_id,
                    x: normalized(x, 65535),
                    y: normalized(y, 65535),
                },
            )
            &&& shown.touches[other] == Some(
                Touch {
                    id: state.slots[other].tracking_id,
                    x: state.slots[other].x,
                    y: state.slots[other].y,
                },
            )
        }),
{
    let t = processed(state, InputEvent::TouchMove { id, x, y }, seen, now);
    system_sees_touches(screen, state, InputEvent::TouchMove { id, x, y }, seen, now);
    finger_moves_in_its_slot(state, id, x, y, seen, now, i);
    let slots = t.end.slots;
    assert(slots[i].active && slots[other].active);
    if i < other {
        assert(two_active(slots));
    } else {
        assert(slots[other].active && slots[i].active);
        assert(two_active(slots));
    }
}

/// Fewer than two fingers are never seen, and of two or more all are: after a
/// finger event that is not ignored, the system sees a touch in a slot exactly if
/// that holds an active one, not with the ID that ends touches, and another slot
/// holds an active one too.
pub proof fn fingers_are_seen_together(
    screen: Screen,
    state: TabletModel,
    event: InputEvent,
    seen: u128,
    now: u128,
)
    requires
        state.slots.len() == 10,
        agrees(screen, state),
        event is TouchDown || event is TouchMove || event is TouchUp,
        processed(state, event, seen, now) != still(state),
    ensures
        ({
            let t = processed(state, event, seen, now);
            let shown = with_steps(screen, t.steps);
            forall|i: int|
                0 <= i < 10 ==> ((#[trigger] shown.touches[i]) is Some <==> t.end.slots[i].active
                    && t.end.slots[i].tracking_id != -1 && two_active(t.end.slots))
        }),
{
    system_sees_touches(screen, state, event, seen, now);
    match event {
        InputEvent::TouchDown { id, x, y } => {
            let i = choose|i: int| is_first_free(state.slots, i);
            assert(is_first_free(state.slots, i));
            finger_takes_free_slot(state, id, x, y, seen, now, i);
        },
        InputEvent::TouchMove { id, x, y } => {
            lemma_holds(state, id);
            let i = choose|i: int| is_first_of(state.slots, tracking_id(id), i);
            assert(is_first_of(state.slots, tracking_id(id), i));
            finger_moves_in_its_slot(state, id, x, y, seen, now, i);
        },
        InputEvent::TouchUp { id } => {
            lemma_holds(state, id);
            let i = choose|i: int| is_first_of(state.slots, tracking_id(id), i);
            assert(is_first_of(state.slots, tracking_id(id), i));
            finger_leaves_its_slot(state, id, seen, now, i);
        },
        _ => {},
    }
}

// ---------------------------------------------------------------------------
// What stays if an emission fails
// ---------------------------------------------------------------------------

/// Whether slots hold the same touches, whatever the system was told of them.
pub open spec fn same_touches(a: Seq<TouchSlot>, b: Seq<TouchSlot>) -> bool {
    &&& a.len() == b.len()
    &&& forall|i: int|
        #![trigger a[i]]
        #![trigger b[i]]
        0 <= i < a.len() ==> a[i].active == b[i].active && a[i].tracking_id == b[i].tracking_id
            && a[i].x == b[i].x && a[i].y == b[i].y
}

proof fn lemma_sync_states(state: TabletModel, n: nat, count: nat)
    requires
        state.slots.len() == 10,
        n <= 10,
    ensures
        ({
            let t = sync_slots(still(state), n, count);
            &&& same_touches(t.end.slots, state.slots)
            &&& forall|k: int|
                0 <= k < t.steps.len() ==> same_touches(
                    (#[trigger] t.steps[k]).state.slots,
                    state.slots,
                ) && t.steps[k].state.stylus == state.stylus && t.steps[k].state.in_proximity
                    == state.in_proximity && t.steps[k].state.tool_announced
                    == state.tool_announced && t.steps[k].state.last_pen_activity
                    == state.last_pen_activity
            &&& t.end.stylus == state.stylus && t.end.in_proximity == state.in_proximity
            &&& t.end.tool_announced == state.tool_announced
            &&& t.end.last_pen_activity == state.last_pen_activity
        }),
    decreases n,
{
    if n > 0 {
        let i = n - 1;
        lemma_sync_states(state, i as nat, count);
        let before = sync_slots(still(state), i as nat, count);
        let after = sync_slots(still(state), n, count);
        assert(after == sync_slot(before, i, count));
        assert(select(before, i).end.slots == before.end.slots);
    }
}

/// A finger event that is cut short by an emission that fails has still happened:
/// at every emission the slots already hold the touches that they hold in the end,
/// and the pen is as it was. Only what the system was told of them may differ.
pub proof fn fingers_count_before_they_are_told(
    state: TabletModel,
    event: InputEvent,
    seen: u128,
    now: u128,
)
    requires
        state.slots.len() == 10,
        event is TouchDown || event is TouchMove || event is TouchUp,
    ensures
        ({
            let t = processed(state, event, seen, now);
            forall|k: int|
                0 <= k < t.steps.len() ==> same_touches(
                    (#[trigger] t.steps[k]).state.slots,
                    t.end.slots,
                ) && t.steps[k].state.stylus == state.stylus && t.steps[k].state.in_proximity
                    == state.in_proximity && t.steps[k].state.tool_announced
                    == state.tool_announced && t.steps[k].state.last_pen_activity
                    == state.last_pen_activity
        }),
{
    let t = processed(state, event, seen, now);
    if t != still(state) {
        let changed = match event {
            InputEvent::TouchDown { id, x, y } => {
                let i = choose|i: int| is_first_free(state.slots, i);
                with_slot(
                    state,
                    i,
                    TouchSlot {
                        tracking_id: tracking_id(id),
                        x: normalized(x, 65535),
                        y: normalized(y, 65535),
                        active: true,
                        reported_to_os: false,
                    },
                )
            },
            InputEvent::TouchMove { id, x, y } => {
                let i = choose|i: int| is_first_of(state.slots, tracking_id(id), i);
                with_slot(
                    state,
                    i,
                    TouchSlot {
                        x: normalized(x, 65535),
                        y: normalized(y, 65535),
                        ..state.slots[i]
                    },
                )
            },
            InputEvent::TouchUp { id } => {
                let i = choose|i: int| is_first_of(state.slots, tracking_id(id), i);
                with_slot(state, i, TouchSlot { active: false, ..state.slots[i] })
            },
            _ => state,
        };
        assert(t == sync_touches(still(changed)));
        lemma_sync_states(changed, 10, active_count(changed.slots));
    }
}

/// A new tablet has its pen up, away and unannounced, and no touch in any slot.
pub proof fn tablets_start_untouched(i: int)
    ensures
        ({
            let state = initial();
            &&& !state.in_proximity && !state.tool_announced && !state.stylus.is_down
            &&& state.stylus.x == 0 && state.stylus.y == 0 && state.stylus.pressure == 0
            &&& state.stylus.tilt_x == 0 && state.stylus.tilt_y == 0
            &&& state.last_pen_activity is None
            &&& state.current_slot == 0 && state.slots.len() == 10
            &&& 0 <= i < 10 ==> !state.slots[i].active && !state.slots[i].reported_to_os
        }),
{
}

// ---------------------------------------------------------------------------
// Nothing is told that need not be
// ---------------------------------------------------------------------------

/// An emission that chooses the slot that events refer to from then on.
pub open spec fn chooses_slot(step: Step) -> bool {
    step.events == seq![
        DeviceEvent {
            kind: EV_ABS,
            code: ABS_MT_SLOT,
            value: step.state.current_slot as i32,
        },
    ]
}

/// An emission that ends the touch in the chosen slot.
pub open spec fn ends_touch(step: Step) -> bool {
    step.events == seq![DeviceEvent { kind: EV_ABS, code: ABS_MT_TRACKING_ID, value: -1i32 }]
}

/// An emission that starts a touch in the chosen slot, at its place.
pub open spec fn starts_touch(step: Step, touch: TouchSlot) -> bool {
    step.events == seq![
        DeviceEvent { kind: EV_ABS, code: ABS_MT_TRACKING_ID, value: touch.tracking_id },
        DeviceEvent { kind: EV_ABS, code: ABS_MT_POSITION_X, value: touch.x },
        DeviceEvent { kind: EV_ABS, code: ABS_MT_POSITION_Y, value: touch.y },
    ]
}

/// An emission that moves the touch in the chosen slot to its place.
pub open spec fn moves_touch(step: Step, touch: TouchSlot) -> bool {
    step.events == seq![
        DeviceEvent { kind: EV_ABS, code: ABS_MT_POSITION_X, value: touch.x },
        DeviceEvent { kind: EV_ABS, code: ABS_MT_POSITION_Y, value: touch.y },
    ]
}

/// Whether an emission tells what has become of the chosen slot: that its touch
/// has ended, if the system was told of it and is not any more; that it has
/// started, if it is told of it now and was not; and where it is, if it was and
/// still is.
pub open spec fn tells_slot(step: Step, before: TouchSlot, after: TouchSlot) -> bool {
    if before.reported_to_os && !after.reported_to_os {
        ends_touch(step)
    } else if !before.reported_to_os && after.reported_to_os {
        starts_touch(step, after)
    } else {
        before.reported_to_os && after.reported_to_os && moves_touch(step, after)
    }
}

/// Whether an emission is about a touch, and not about which slot it is in.
pub open spec fn about_touch(step: Step) -> bool {
    step.events[0].code != ABS_MT_SLOT
}

spec fn told_sparingly(t: Trace, state: TabletModel, n: int) -> bool {
    &&& forall|k: int|
        #![trigger t.steps[k]]
        0 <= k < t.steps.len() ==> {
            let i = t.steps[k].state.current_slot as int;
            &&& t.steps[k].device == Device::Touch
            &&& 0 <= i < n
            &&& !about_touch(t.steps[k]) ==> chooses_slot(t.steps[k]) && (
            state.slots[i].reported_to_os || t.end.slots[i].reported_to_os)
            &&& about_touch(t.steps[k]) ==> tells_slot(
                t.steps[k],
                state.slots[i],
                t.end.slots[i],
            )
        }
    &&& forall|k: int, l: int|
        #![trigger t.steps[k], t.steps[l]]
        0 <= k < l < t.steps.len() && about_touch(t.steps[k]) == about_touch(t.steps[l])
            ==> t.steps[k].state.current_slot < t.steps[l].state.current_slot
}

proof fn lemma_sync_sparing(state: TabletModel, n: nat, count: nat)
    requires
        state.slots.len() == 10,
        n <= 10,
    ensures
        told_sparingly(sync_slots(still(state), n, count), state, n as int),
        sync_slots(still(state), n, count).end.slots.len() == 10,
        forall|j: int|
            n <= j < 10 ==> #[trigger] sync_slots(still(state), n, count).end.slots[j]
                == state.slots[j],
    decreases n,
{
    if n > 0 {
        let i = n - 1;
        lemma_sync_sparing(state, i as nat, count);
        let before = sync_slots(still(state), i as nat, count);
        let after = sync_slots(still(state), n, count);
        let slot = state.slots[i];
        assert(before.end.slots[i] == slot);
        assert(after == sync_slot(before, i, count));
        let selected = select(before, i);
        assert(selected.end.slots == before.end.slots);
        if slot_change(slot, count) != SlotChange::Nothing {
            assert(selected.end.current_slot == i);
            let last = after.steps.len() - 1;
            assert(selected.steps.len() == last);
            assert(about_touch(after.steps[last]));
            assert(tells_slot(after.steps[last], slot, after.end.slots[i]));
            assert forall|k: int| 0 <= k < before.steps.len() implies #[trigger] after.steps[k]
                == before.steps[k] by {}
            if before.end.current_slot != i {
                let chosen = last - 1;
                assert(chosen == before.steps.len());
                assert(chooses_slot(after.steps[chosen]));
                assert(after.steps[chosen].state.current_slot == i);
            }
            assert forall|k: int|
                #![trigger after.steps[k]]
                0 <= k < after.steps.len() implies {
                let i = after.steps[k].state.current_slot as int;
                &&& after.steps[k].device == Device::Touch
                &&& 0 <= i < n
                &&& !about_touch(after.steps[k]) ==> chooses_slot(after.steps[k]) && (
                state.slots[i].reported_to_os || after.end.slots[i].reported_to_os)
                &&& about_touch(after.steps[k]) ==> tells_slot(
                    after.steps[k],
                    state.slots[i],
                    after.end.slots[i],
                )
            } by {
                if k < before.steps.len() {
                    assert(after.steps[k] == before.steps[k]);
                }
            }
            assert forall|k: int, l: int|
                #![trigger after.steps[k], after.steps[l]]
                0 <= k < l < after.steps.len() && about_touch(after.steps[k]) == about_touch(
                    after.steps[l],
                ) implies after.steps[k].state.current_slot < after.steps[l].state.current_slot by {
                if k < before.steps.len() {
                    assert(after.steps[k] == before.steps[k]);
                }
                if l < before.steps.len() {
                    assert(after.steps[l] == before.steps[l]);
                }
            }
        }
    }
}

/// The system is told of the fingers in as little as it takes: of every slot that
/// it knew or is to know once, in the order of the slots, of which each is chosen
/// at most once, and with a report at the end. A touch that it knows is not
/// announced again, and one that it does not know is not lifted.
pub proof fn fingers_are_told_sparingly(state: TabletModel)
    requires
        state.slots.len() == 10,
    ensures
        ({
            let t = sync_touches(still(state));
            let n = t.steps.len() - 1;
            &&& t.steps.len() > 0 ==> t.steps.last().events == seq![
                DeviceEvent { kind: EV_SYN, code: 0, value: 0 },
            ]
            &&& forall|k: int|
                #![trigger t.steps[k]]
                0 <= k < n ==> {
                    let i = t.steps[k].state.current_slot as int;
                    &&& t.steps[k].device == Device::Touch
                    &&& 0 <= i < 10
                    &&& !about_touch(t.steps[k]) ==> chooses_slot(t.steps[k]) && (
                    state.slots[i].reported_to_os || t.end.slots[i].reported_to_os)
                    &&& about_touch(t.steps[k]) ==> tells_slot(
                        t.steps[k],
                        state.slots[i],
                        t.end.slots[i],
                    )
                }
            &&& forall|k: int, l: int|
                #![trigger t.steps[k], t.steps[l]]
                0 <= k < l < n && about_touch(t.steps[k]) == about_touch(t.steps[l])
                    ==> t.steps[k].state.current_slot < t.steps[l].state.current_slot
        }),
{
    let count = active_count(state.slots);
    let told = sync_slots(still(state), 10, count);
    let t = sync_touches(still(state));
    lemma_sync_sparing(state, 10, count);
    if any_change(state.slots, 10, count) {
        assert forall|k: int| 0 <= k < told.steps.len() implies #[trigger] t.steps[k]
            == told.steps[k] by {}
        assert(t.steps.len() == told.steps.len() + 1);
    } else {
        lemma_nothing_told(still(state), 10, count);
    }
}

proof fn lemma_nothing_told(t: Trace, n: nat, count: nat)
    requires
        !any_change(t.end.slots, n, count),
    ensures
        sync_slots(t, n, count) == t,
    decreases n,
{
    if n > 0 {
        assert(!any_change(t.end.slots, (n - 1) as nat, count));
        lemma_nothing_told(t, (n - 1) as nat, count);
        assert(slot_change(t.end.slots[n - 1], count) == SlotChange::Nothing);
    }
}

/// What an event tells of the fingers is what telling of the slots tells, once the
/// finger of the event has taken, moved in or left its slot.
pub proof fn finger_events_tell_of_slots(
    state: TabletModel,
    event: InputEvent,
    seen: u128,
    now: u128,
) -> (changed: TabletModel)
    requires
        state.slots.len() == 10,
        event is TouchDown || event is TouchMove || event is TouchUp,
        processed(state, event, seen, now) != still(state),
    ensures
        processed(state, event, seen, now) == sync_touches(still(changed)),
        changed.slots.len() == 10,
        same_touches(changed.slots, processed(state, event, seen, now).end.slots),
        changed == (TabletModel { slots: changed.slots, ..state }),
        forall|i: int|
            0 <= i < 10 ==> (#[trigger] changed.slots[i]).reported_to_os
                == state.slots[i].reported_to_os || (event is TouchDown && !state.slots[i].active
                && changed.slots[i].active && !changed.slots[i].reported_to_os),
{
    let t = processed(state, event, seen, now);
    let changed = match event {
        InputEvent::TouchDown { id, x, y } => {
            let i = choose|i: int| is_first_free(state.slots, i);
            assert(is_first_free(state.slots, i));
            with_slot(
                state,
                i,
                TouchSlot {
                    tracking_id: tracking_id(id),
                    x: normalized(x, 65535),
                    y: normalized(y, 65535),
                    active: true,
                    reported_to_os: false,
                },
            )
        },
        InputEvent::TouchMove { id, x, y } => {
            let i = choose|i: int| is_first_of(state.slots, tracking_id(id), i);
            assert(is_first_of(state.slots, tracking_id(id), i));
            with_slot(
                state,
                i,
                TouchSlot { x: normalized(x, 65535), y: normalized(y, 65535), ..state.slots[i] },
            )
        },
        InputEvent::TouchUp { id } => {
            let i = choose|i: int| is_first_of(state.slots, tracking_id(id), i);
            assert(is_first_of(state.slots, tracking_id(id), i));
            with_slot(state, i, TouchSlot { active: false, ..state.slots[i] })
        },
        _ => state,
    };
    lemma_sync_states(changed, 10, active_count(changed.slots));
    changed
}

spec fn lifted_sparingly(t: Trace, state: TabletModel, n: int) -> bool {
    &&& forall|k: int|
        #![trigger t.steps[k]]
        0 <= k < t.steps.len() ==> {
            let i = t.steps[k].state.current_slot as int;
            &&& t.steps[k].device == Device::Touch
            &&& 0 <= i < n
            &&& state.slots[i].active
            &&& !about_touch(t.steps[k]) ==> chooses_slot(t.steps[k])
            &&& about_touch(t.steps[k]) ==> ends_touch(t.steps[k])
        }
    &&& forall|k: int, l: int|
        #![trigger t.steps[k], t.steps[l]]
        0 <= k < l < t.steps.len() && about_touch(t.steps[k]) == about_touch(t.steps[l])
            ==> t.steps[k].state.current_slot < t.steps[l].state.current_slot
}

proof fn lemma_release_sparing(state: TabletModel, n: nat)
    requires
        state.slots.len() == 10,
        n <= 10,
    ensures
        lifted_sparingly(release_slots(still(state), n), state, n as int),
        release_slots(still(state), n).end.slots.len() == 10,
        forall|j: int|
            n <= j < 10 ==> #[trigger] release_slots(still(state), n).end.slots[j]
                == state.slots[j],
    decreases n,
{
    if n > 0 {
        let i = n - 1;
        lemma_release_sparing(state, i as nat);
        let before = release_slots(still(state), i as nat);
        let after = release_slots(still(state), n);
        assert(before.end.slots[i] == state.slots[i]);
        assert(after == release_slot(before, i));
        if state.slots[i].active {
            let last = after.steps.len() - 1;
            assert(ends_touch(after.steps[last]) && about_touch(after.steps[last]));
            assert forall|k: int| 0 <= k < before.steps.len() implies #[trigger] after.steps[k]
                == before.steps[k] by {}
            assert forall|k: int|
                #![trigger after.steps[k]]
                0 <= k < after.steps.len() implies {
                let i = after.steps[k].state.current_slot as int;
                &&& after.steps[k].device == Device::Touch
                &&& 0 <= i < n
                &&& state.slots[i].active
                &&& !about_touch(after.steps[k]) ==> chooses_slot(after.steps[k])
                &&& about_touch(after.steps[k]) ==> ends_touch(after.steps[k])
            } by {
                if k < before.steps.len() {
                    assert(after.steps[k] == before.steps[k]);
                }
            }
            assert forall|k: int, l: int|
                #![trigger after.steps[k], after.steps[l]]
                0 <= k < l < after.steps.len() && about_touch(after.steps[k]) == about_touch(
                    after.steps[l],
                ) implies after.steps[k].state.current_slot < after.steps[l].state.current_slot by {
                if k < before.steps.len() {
                    assert(after.steps[k] == before.steps[k]);
                }
                if l < before.steps.len() {
                    assert(after.steps[l] == before.steps[l]);
                }
            }
        }
    }
}

/// For the pen, every active touch is lifted once, and nothing else is told but
/// the slots that they are in, that no tool is left, and a report.
pub proof fn touches_are_lifted_sparingly(state: TabletModel)
    requires
        state.slots.len() == 10,
    ensures
        ({
            let t = release_all(still(state));
            let n = t.steps.len() - 2;
            &&& forall|k: int|
                #![trigger t.steps[k]]
                0 <= k < n ==> {
                    let i = t.steps[k].state.current_slot as int;
                    &&& t.steps[k].device == Device::Touch
                    &&& 0 <= i < 10
                    &&& state.slots[i].active
                    &&& !about_touch(t.steps[k]) ==> chooses_slot(t.steps[k])
                    &&& about_touch(t.steps[k]) ==> ends_touch(t.steps[k])
                }
            &&& forall|k: int, l: int|
                #![trigger t.steps[k], t.steps[l]]
                0 <= k < l < n && about_touch(t.steps[k]) == about_touch(t.steps[l])
                    ==> t.steps[k].state.current_slot < t.steps[l].state.current_slot
            &&& forall|i: int|
                #![trigger t.end.slots[i]]
                0 <= i < 10 ==> t.end.slots[i] == (TouchSlot { active: false, ..state.slots[i] })
        }),
{
    let t = release_all(still(state));
    lemma_release_sparing(state, 10);
    lemma_two_active(state.slots, 10);
    if active_count(state.slots) != 0 {
        let released = release_slots(still(state), 10);
        assert forall|k: int| 0 <= k < released.steps.len() implies #[trigger] t.steps[k]
            == released.steps[k] by {}
        lemma_all_lifted(still(state), 10);
    }
}

proof fn lemma_all_lifted(t: Trace, n: nat)
    requires
        t.end.slots.len() == 10,
        n <= 10,
    ensures
        release_slots(t, n).end.slots.len() == 10,
        forall|i: int|
            0 <= i < n ==> #[trigger] release_slots(t, n).end.slots[i] == (TouchSlot {
                active: false,
                ..t.end.slots[i]
            }),
        forall|i: int|
            n <= i < 10 ==> #[trigger] release_slots(t, n).end.slots[i] == t.end.slots[i],
    decreases n,
{
    if n > 0 {
        lemma_all_lifted(t, (n - 1) as nat);
        let before = release_slots(t, (n - 1) as nat);
        let after = release_slots(t, n);
        assert(after == release_slot(before, n - 1));
        assert(before.end.slots[n - 1] == t.end.slots[n - 1]);
        assert(select(before, n - 1).end.slots == before.end.slots);
        assert forall|i: int| 0 <= i < n implies #[trigger] after.end.slots[i] == (TouchSlot {
            active: false,
            ..t.end.slots[i]
        }) by {
            if i < n - 1 {
                assert(before.end.slots[i] == (TouchSlot { active: false, ..t.end.slots[i] }));
            }
        }
    }
}

/// An error of the tablet says its cause, and a slot that there is not its number
/// and the largest one.
pub proof fn tablet_errors_say_why(cause: String, slot: u8, max: u8)
    ensures
        TabletError::DeviceCreation(cause).text() == "failed to create virtual device: "@ + cause@,
        TabletError::EventEmit(cause).text() == "failed to emit event: "@ + cause@,
        (TabletError::InvalidSlot { slot, max }).text() == "invalid touch slot: "@ + decimal(
            slot as nat,
        ) + " (max "@ + decimal(max as nat) + ")"@,
{
}

} // verus!
