//! What holds of the virtual tablet whatever the client sends.

use vstd::prelude::*;

use crate::input::descriptor::{pen_axes, pen_keys, Axis};
use crate::input::events::{updated_in_range, StylusState, TouchSlot, ABS_MAX, MT_SLOTS};
use crate::input::single::normalized_in_range;
use crate::input::tablet_model::{
    abs_event, active_count, active_in, any_change, contact_events, ensure_proximity, enter_proximity,
    initial,
    is_first_free, is_first_of, key_event, pen_event, pen_recent, position_events, processed,
    proximity_events, release_all, release_slot, release_slots, report_event, select, serial_event,
    slot_change, still, stylus_updated, sync_slot, sync_slots, sync_touches, tools_off, tracking_id,
    well_formed, with_slot, Device, DeviceEvent, SlotChange, Step, TabletModel, Trace, ABS_DISTANCE,
    ABS_MT_POSITION_X, ABS_MT_POSITION_Y, ABS_MT_SLOT, ABS_MT_TRACKING_ID, ABS_PRESSURE, ABS_TILT_X,
    ABS_TILT_Y, ABS_X, ABS_Y, BTN_STYLUS, BTN_STYLUS2, BTN_TOOL_DOUBLETAP, BTN_TOOL_FINGER,
    BTN_TOOL_PEN, BTN_TOOL_QUADTAP, BTN_TOOL_TRIPLETAP, BTN_TOUCH, EV_ABS, EV_KEY, HOVER_DISTANCE,
    TOUCH_LIFTED,
};
use crate::protocol::packets::InputEvent;

verus! {

// ---------------------------------------------------------------------------
// Every emission is one that its device can make
// ---------------------------------------------------------------------------

/// Whether an axis allows a value.
pub open spec fn allows(axis: Axis, event: DeviceEvent) -> bool {
    axis.code == event.code && axis.minimum <= event.value <= axis.maximum
}

/// Whether the pen has announced that it can emit the event: a report, its
/// serial, one of its buttons, or one of its axes within its range.
pub open spec fn pen_can_emit(event: DeviceEvent) -> bool {
    ||| event == report_event()
    ||| event == serial_event()
    ||| (event.kind == EV_KEY && pen_keys().contains(event.code) && 0 <= event.value <= 1)
    ||| (event.kind == EV_ABS && exists|i: int|
        0 <= i < pen_axes().len() && allows(#[trigger] pen_axes()[i], event))
}

/// Whether the touch device emits such events: a report, a finger tool that
/// is put away, one of the ten slots, a tracking ID, or a position in range.
pub open spec fn touch_can_emit(event: DeviceEvent) -> bool {
    ||| event == report_event()
    ||| (event.kind == EV_KEY && event.value == 0 && (event.code == BTN_TOOL_FINGER || event.code
        == BTN_TOOL_DOUBLETAP || event.code == BTN_TOOL_TRIPLETAP || event.code
        == BTN_TOOL_QUADTAP))
    ||| (event.kind == EV_ABS && event.code == ABS_MT_SLOT && 0 <= event.value < MT_SLOTS)
    ||| (event.kind == EV_ABS && event.code == ABS_MT_TRACKING_ID)
    ||| (event.kind == EV_ABS && (event.code == ABS_MT_POSITION_X || event.code
        == ABS_MT_POSITION_Y) && 0 <= event.value <= ABS_MAX)
}

/// Whether a device can emit the event.
pub open spec fn can_emit(device: Device, event: DeviceEvent) -> bool {
    match device {
        Device::Pen => pen_can_emit(event),
        Device::Touch => touch_can_emit(event),
    }
}

/// Whether a device can emit all of the events.
pub open spec fn can_emit_all(device: Device, events: Seq<DeviceEvent>) -> bool {
    forall|i: int| 0 <= i < events.len() ==> can_emit(device, #[trigger] events[i])
}

/// Whether every state on the way is well formed and every emission is one
/// that its device can make.
pub open spec fn sound(t: Trace) -> bool {
    &&& well_formed(t.end)
    &&& forall|i: int|
        0 <= i < t.steps.len() ==> well_formed((#[trigger] t.steps[i]).state) && can_emit_all(
            t.steps[i].device,
            t.steps[i].events,
        )
}

proof fn lemma_emit_sound(t: Trace, device: Device, events: Seq<DeviceEvent>)
    requires
        sound(t),
        can_emit_all(device, events),
    ensures
        sound(t.emit(device, events)),
{
}

proof fn lemma_report_sound(t: Trace, device: Device)
    requires
        sound(t),
    ensures
        sound(t.emit(device, seq![report_event()])),
{
    lemma_emit_sound(t, device, seq![report_event()]);
}

proof fn lemma_pen_frame_sound(t: Trace, events: Seq<DeviceEvent>)
    requires
        sound(t),
        can_emit_all(Device::Pen, events),
    ensures
        sound(t.pen_frame(events)),
{
    lemma_emit_sound(t, Device::Pen, events);
    lemma_report_sound(t.emit(Device::Pen, events), Device::Pen);
}

proof fn lemma_select_sound(t: Trace, slot: int)
    requires
        sound(t),
        0 <= slot < MT_SLOTS,
    ensures
        sound(select(t, slot)),
        select(t, slot).end == (TabletModel { current_slot: slot as u8, ..t.end }),
{
    if t.end.current_slot != slot {
        let chosen = t.then_state(TabletModel { current_slot: slot as u8, ..t.end });
        assert(sound(chosen));
        lemma_emit_sound(chosen, Device::Touch, seq![abs_event(ABS_MT_SLOT, slot as i32)]);
    }
}

proof fn lemma_release_slots_sound(t: Trace, n: nat)
    requires
        sound(t),
        n <= 10,
    ensures
        sound(release_slots(t, n)),
    decreases n,
{
    if n > 0 {
        lemma_release_slots_sound(t, (n - 1) as nat);
        let before = release_slots(t, (n - 1) as nat);
        let i = n - 1;
        if before.end.slots[i].active {
            lemma_select_sound(before, i);
            let selected = select(before, i);
            let lifted = selected.then_state(
                with_slot(
                    selected.end,
                    i,
                    TouchSlot { active: false, ..before.end.slots[i] },
                ),
            );
            assert(sound(lifted));
            lemma_emit_sound(
                lifted,
                Device::Touch,
                seq![abs_event(ABS_MT_TRACKING_ID, TOUCH_LIFTED)],
            );
        }
    }
}

proof fn lemma_release_all_sound(t: Trace)
    requires
        sound(t),
    ensures
        sound(release_all(t)),
{
    if active_count(t.end.slots) != 0 {
        lemma_release_slots_sound(t, 10);
        let released = release_slots(t, 10);
        lemma_emit_sound(released, Device::Touch, tools_off());
        lemma_report_sound(released.emit(Device::Touch, tools_off()), Device::Touch);
    }
}

proof fn lemma_sync_slots_sound(t: Trace, n: nat, count: nat)
    requires
        sound(t),
        n <= 10,
    ensures
        sound(sync_slots(t, n, count)),
    decreases n,
{
    if n > 0 {
        lemma_sync_slots_sound(t, (n - 1) as nat, count);
        let before = sync_slots(t, (n - 1) as nat, count);
        let i = n - 1;
        let slot = before.end.slots[i];
        lemma_select_sound(before, i);
        let selected = select(before, i);
        match slot_change(slot, count) {
            SlotChange::Nothing => {},
            SlotChange::Show => {
                let events = seq![
                    abs_event(ABS_MT_TRACKING_ID, slot.tracking_id),
                    abs_event(ABS_MT_POSITION_X, slot.x),
                    abs_event(ABS_MT_POSITION_Y, slot.y),
                ];
                lemma_emit_sound(selected, Device::Touch, events);
                let told = selected.emit(Device::Touch, events);
                assert(sound(
                    told.then_state(
                        with_slot(told.end, i, TouchSlot { reported_to_os: true, ..slot }),
                    ),
                ));
            },
            SlotChange::Hide => {
                let events = seq![abs_event(ABS_MT_TRACKING_ID, TOUCH_LIFTED)];
                lemma_emit_sound(selected, Device::Touch, events);
                let told = selected.emit(Device::Touch, events);
                assert(sound(
                    told.then_state(
                        with_slot(told.end, i, TouchSlot { reported_to_os: false, ..slot }),
                    ),
                ));
            },
            SlotChange::Update => {
                lemma_emit_sound(
                    selected,
                    Device::Touch,
                    seq![
                        abs_event(ABS_MT_POSITION_X, slot.x),
                        abs_event(ABS_MT_POSITION_Y, slot.y),
                    ],
                );
            },
        }
    }
}

proof fn lemma_sync_touches_sound(t: Trace)
    requires
        sound(t),
    ensures
        sound(sync_touches(t)),
{
    let count = active_count(t.end.slots);
    lemma_sync_slots_sound(t, 10, count);
    lemma_report_sound(sync_slots(t, 10, count), Device::Touch);
}

proof fn lemma_pen_axes(stylus: StylusState)
    requires
        stylus.in_range(),
    ensures
        pen_can_emit(abs_event(ABS_X, stylus.x)),
        pen_can_emit(abs_event(ABS_Y, stylus.y)),
        pen_can_emit(abs_event(ABS_PRESSURE, stylus.pressure)),
        pen_can_emit(abs_event(ABS_PRESSURE, 0)),
        pen_can_emit(abs_event(ABS_PRESSURE, 1)),
        pen_can_emit(abs_event(ABS_DISTANCE, 0)),
        pen_can_emit(abs_event(ABS_DISTANCE, HOVER_DISTANCE)),
        pen_can_emit(abs_event(ABS_TILT_X, stylus.tilt_x)),
        pen_can_emit(abs_event(ABS_TILT_Y, stylus.tilt_y)),
{
    assert(allows(pen_axes()[0], abs_event(ABS_X, stylus.x)));
    assert(allows(pen_axes()[1], abs_event(ABS_Y, stylus.y)));
    assert(allows(pen_axes()[2], abs_event(ABS_PRESSURE, stylus.pressure)));
    assert(allows(pen_axes()[2], abs_event(ABS_PRESSURE, 0)));
    assert(allows(pen_axes()[2], abs_event(ABS_PRESSURE, 1)));
    assert(allows(pen_axes()[3], abs_event(ABS_TILT_X, stylus.tilt_x)));
    assert(allows(pen_axes()[4], abs_event(ABS_TILT_Y, stylus.tilt_y)));
    assert(allows(pen_axes()[5], abs_event(ABS_DISTANCE, 0)));
    assert(allows(pen_axes()[5], abs_event(ABS_DISTANCE, HOVER_DISTANCE)));
}

proof fn lemma_pen_keys(value: i32)
    requires
        0 <= value <= 1,
    ensures
        pen_can_emit(key_event(BTN_TOOL_PEN, value)),
        pen_can_emit(key_event(BTN_TOUCH, value)),
        pen_can_emit(key_event(BTN_STYLUS, value)),
        pen_can_emit(key_event(BTN_STYLUS2, value)),
{
    assert(pen_keys()[0] == BTN_TOOL_PEN);
    assert(pen_keys()[2] == BTN_TOUCH);
    assert(pen_keys()[3] == BTN_STYLUS);
    assert(pen_keys()[4] == BTN_STYLUS2);
}

/// A pen that enters proximity leaves the tablet well formed, also when an
/// emission fails, and emits only what it can.
pub proof fn entered_sound(t: Trace)
    requires
        sound(t),
    ensures
        sound(enter_proximity(t)),
        enter_proximity(t).end.stylus == t.end.stylus,
{
    let announced = TabletModel { tool_announced: true, ..t.end };
    lemma_pen_axes(t.end.stylus);
    lemma_pen_keys(1);
    let events = proximity_events(t.end);
    assert forall|i: int| 0 <= i < events.len() implies can_emit(
        Device::Pen,
        #[trigger] events[i],
    ) by {
        if t.end.tool_announced {
            assert(events =~= seq![
                key_event(BTN_TOOL_PEN, 1),
                abs_event(ABS_X, t.end.stylus.x),
                abs_event(ABS_Y, t.end.stylus.y),
                abs_event(ABS_DISTANCE, HOVER_DISTANCE),
            ]);
        } else {
            assert(events =~= seq![
                key_event(BTN_TOOL_PEN, 1),
                serial_event(),
                abs_event(ABS_X, t.end.stylus.x),
                abs_event(ABS_Y, t.end.stylus.y),
                abs_event(ABS_DISTANCE, HOVER_DISTANCE),
            ]);
        }
    }
    assert(sound(t.then_state(announced)));
    lemma_pen_frame_sound(t.then_state(announced), events);
}

proof fn lemma_ensure_proximity_sound(t: Trace)
    requires
        sound(t),
    ensures
        sound(ensure_proximity(t)),
        ensure_proximity(t).end.stylus == t.end.stylus,
{
    if !t.end.in_proximity {
        entered_sound(t);
    }
}

#[verifier::spinoff_prover]
#[verifier::rlimit(40)]
proof fn lemma_pen_event_sound(t: Trace, event: InputEvent)
    requires
        sound(t),
    ensures
        sound(pen_event(t, event)),
{
    updated_in_range(t.end.stylus, event);
    let updated = stylus_updated(t, event);
    assert(sound(updated));
    lemma_pen_keys(0);
    lemma_pen_keys(1);
    lemma_pen_axes(updated.end.stylus);
    match event {
        InputEvent::StylusMove { .. } => {
            lemma_ensure_proximity_sound(updated);
            lemma_pen_frame_sound(ensure_proximity(updated), position_events(updated.end.stylus));
        },
        InputEvent::StylusDown { .. } => {
            lemma_ensure_proximity_sound(updated);
            lemma_pen_frame_sound(ensure_proximity(updated), contact_events(updated.end.stylus));
        },
        InputEvent::StylusUp => {
            lemma_pen_frame_sound(
                updated,
                seq![key_event(BTN_TOUCH, 0), abs_event(ABS_PRESSURE, 0)],
            );
        },
        InputEvent::StylusButton { button, pressed } => {
            if button <= 1 {
                lemma_ensure_proximity_sound(t);
                lemma_pen_frame_sound(
                    ensure_proximity(t),
                    seq![
                        key_event(
                            if button == 0 {
                                BTN_STYLUS
                            } else {
                                BTN_STYLUS2
                            },
                            if pressed {
                                1
                            } else {
                                0
                            },
                        ),
                    ],
                );
            }
        },
        _ => {},
    }
}

/// Whatever the client sends, the tablet stays well formed, also when an
/// emission fails, and its devices emit only what they can: the pen only what
/// it has announced, within the ranges of its axes.
pub proof fn processed_sound(state: TabletModel, event: InputEvent, seen: u128, now: u128)
    requires
        well_formed(state),
    ensures
        sound(processed(state, event, seen, now)),
{
    let recent = pen_recent(state.last_pen_activity, seen);
    match event {
        InputEvent::TouchDown { id, x, y } => {
            normalized_in_range(x, ABS_MAX);
            normalized_in_range(y, ABS_MAX);
            if exists|i: int| is_first_free(state.slots, i) {
                let i = choose|i: int| is_first_free(state.slots, i);
                let placed = still(
                    with_slot(
                        state,
                        i,
                        TouchSlot {
                            tracking_id: tracking_id(id),
                            x: crate::input::single::normalized(x, ABS_MAX),
                            y: crate::input::single::normalized(y, ABS_MAX),
                            active: true,
                            reported_to_os: false,
                        },
                    ),
                );
                assert(sound(placed));
                lemma_sync_touches_sound(placed);
            }
        },
        InputEvent::TouchMove { id, x, y } => {
            normalized_in_range(x, ABS_MAX);
            normalized_in_range(y, ABS_MAX);
            if exists|i: int| is_first_of(state.slots, tracking_id(id), i) {
                let i = choose|i: int| is_first_of(state.slots, tracking_id(id), i);
                let moved = still(
                    with_slot(
                        state,
                        i,
                        TouchSlot {
                            x: crate::input::single::normalized(x, ABS_MAX),
                            y: crate::input::single::normalized(y, ABS_MAX),
                            ..state.slots[i]
                        },
                    ),
                );
                assert(sound(moved));
                lemma_sync_touches_sound(moved);
            }
        },
        InputEvent::TouchUp { id } => {
            if exists|i: int| is_first_of(state.slots, tracking_id(id), i) {
                let i = choose|i: int| is_first_of(state.slots, tracking_id(id), i);
                let lifted = still(
                    with_slot(state, i, TouchSlot { active: false, ..state.slots[i] }),
                );
                assert(sound(lifted));
                lemma_sync_touches_sound(lifted);
            }
        },
        _ => {
            let noted = still(TabletModel { last_pen_activity: Some(now), ..state });
            assert(sound(noted));
            lemma_release_all_sound(noted);
            lemma_pen_event_sound(
                if recent {
                    noted
                } else {
                    release_all(noted)
                },
                event,
            );
        },
    }
}

// ---------------------------------------------------------------------------
// The serial of the pen is sent once
// ---------------------------------------------------------------------------

/// Whether the events contain no serial.
pub open spec fn without_serial(events: Seq<DeviceEvent>) -> bool {
    !events.contains(serial_event())
}

/// Whether no emission from the `from`th on contains a serial.
spec fn silent_from(t: Trace, from: int) -> bool {
    forall|i: int| from <= i < t.steps.len() ==> without_serial((#[trigger] t.steps[i]).events)
}

proof fn lemma_touch_silent(t: Trace)
    requires
        sound(t),
        forall|i: int| 0 <= i < t.steps.len() ==> (#[trigger] t.steps[i]).device == Device::Touch,
    ensures
        silent_from(t, 0),
{
    assert forall|i: int| 0 <= i < t.steps.len() implies without_serial(
        (#[trigger] t.steps[i]).events,
    ) by {
        let events = t.steps[i].events;
        assert(can_emit_all(t.steps[i].device, events));
        if events.contains(serial_event()) {
            let j = choose|j: int| 0 <= j < events.len() && events[j] == serial_event();
            assert(can_emit(Device::Touch, events[j]));
        }
    }
}

proof fn lemma_release_slots_touch(t: Trace, n: nat)
    requires
        forall|i: int| 0 <= i < t.steps.len() ==> (#[trigger] t.steps[i]).device == Device::Touch,
    ensures
        forall|i: int|
            0 <= i < release_slots(t, n).steps.len() ==> (#[trigger] release_slots(
                t,
                n,
            ).steps[i]).device == Device::Touch,
        release_slots(t, n).end.tool_announced == t.end.tool_announced,
        release_slots(t, n).end.stylus == t.end.stylus,
        release_slots(t, n).end.last_pen_activity == t.end.last_pen_activity,
    decreases n,
{
    if n > 0 {
        lemma_release_slots_touch(t, (n - 1) as nat);
    }
}

proof fn lemma_sync_slots_touch(t: Trace, n: nat, count: nat)
    requires
        forall|i: int| 0 <= i < t.steps.len() ==> (#[trigger] t.steps[i]).device == Device::Touch,
    ensures
        forall|i: int|
            0 <= i < sync_slots(t, n, count).steps.len() ==> (#[trigger] sync_slots(
                t,
                n,
                count,
            ).steps[i]).device == Device::Touch,
        sync_slots(t, n, count).end.tool_announced == t.end.tool_announced,
        sync_slots(t, n, count).end.stylus == t.end.stylus,
        sync_slots(t, n, count).end.last_pen_activity == t.end.last_pen_activity,
    decreases n,
{
    if n > 0 {
        lemma_sync_slots_touch(t, (n - 1) as nat, count);
    }
}

/// A touch event makes the touch device emit and no other; it leaves the pen
/// as it is.
pub proof fn touch_leaves_pen(state: TabletModel, event: InputEvent, seen: u128, now: u128)
    requires
        event is TouchDown || event is TouchMove || event is TouchUp,
    ensures
        ({
            let t = processed(state, event, seen, now);
            &&& forall|i: int|
                0 <= i < t.steps.len() ==> (#[trigger] t.steps[i]).device == Device::Touch
            &&& t.end.stylus == state.stylus
            &&& t.end.in_proximity == state.in_proximity
            &&& t.end.tool_announced == state.tool_announced
            &&& t.end.last_pen_activity == state.last_pen_activity
        }),
{
    let t = processed(state, event, seen, now);
    if t != still(state) {
        match event {
            InputEvent::TouchDown { id, x, y } => {
                let i = choose|i: int| is_first_free(state.slots, i);
                let placed = with_slot(
                    state,
                    i,
                    TouchSlot {
                        tracking_id: tracking_id(id),
                        x: crate::input::single::normalized(x, ABS_MAX),
                        y: crate::input::single::normalized(y, ABS_MAX),
                        active: true,
                        reported_to_os: false,
                    },
                );
                lemma_sync_slots_touch(still(placed), 10, active_count(placed.slots));
                lemma_sync_slots_pen(still(placed), 10, active_count(placed.slots));
            },
            InputEvent::TouchMove { id, x, y } => {
                let i = choose|i: int| is_first_of(state.slots, tracking_id(id), i);
                let moved = with_slot(
                    state,
                    i,
                    TouchSlot {
                        x: crate::input::single::normalized(x, ABS_MAX),
                        y: crate::input::single::normalized(y, ABS_MAX),
                        ..state.slots[i]
                    },
                );
                lemma_sync_slots_touch(still(moved), 10, active_count(moved.slots));
                lemma_sync_slots_pen(still(moved), 10, active_count(moved.slots));
            },
            InputEvent::TouchUp { id } => {
                let i = choose|i: int| is_first_of(state.slots, tracking_id(id), i);
                let lifted = with_slot(state, i, TouchSlot { active: false, ..state.slots[i] });
                lemma_sync_slots_touch(still(lifted), 10, active_count(lifted.slots));
                lemma_sync_slots_pen(still(lifted), 10, active_count(lifted.slots));
            },
            _ => {},
        }
    }
}

proof fn lemma_sync_slots_pen(t: Trace, n: nat, count: nat)
    ensures
        sync_slots(t, n, count).end.in_proximity == t.end.in_proximity,
    decreases n,
{
    if n > 0 {
        lemma_sync_slots_pen(t, (n - 1) as nat, count);
    }
}

proof fn lemma_pen_frame_silent(t: Trace, events: Seq<DeviceEvent>, from: int)
    requires
        0 <= from,
        silent_from(t, from),
        forall|i: int| 0 <= i < events.len() ==> (#[trigger] events[i]) != serial_event(),
    ensures
        silent_from(t.pen_frame(events), from),
{
    assert(without_serial(events));
    assert(without_serial(seq![report_event()]));
}

/// The serial of the pen is sent at most once, and only while it has not been
/// sent: the emission that carries it, even if it fails, leaves the tool
/// announced, and an announced tool is never announced again.
pub proof fn serial_sent_once(state: TabletModel, event: InputEvent, seen: u128, now: u128)
    requires
        well_formed(state),
    ensures
        ({
            let t = processed(state, event, seen, now);
            &&& state.tool_announced ==> t.end.tool_announced
            &&& forall|i: int|
                #![trigger t.steps[i]]
                0 <= i < t.steps.len() && !without_serial(t.steps[i].events)
                    ==> !state.tool_announced && t.steps[i].state.tool_announced
                    && t.end.tool_announced
            &&& forall|i: int, j: int|
                #![trigger t.steps[i], t.steps[j]]
                0 <= i < t.steps.len() && 0 <= j < t.steps.len() && !without_serial(
                    t.steps[i].events,
                ) && !without_serial(t.steps[j].events) ==> i == j
        }),
{
    let t = processed(state, event, seen, now);
    processed_sound(state, event, seen, now);
    if event is TouchDown || event is TouchMove || event is TouchUp {
        touch_leaves_pen(state, event, seen, now);
        lemma_touch_silent(t);
    } else {
        let recent = pen_recent(state.last_pen_activity, seen);
        let noted = still(TabletModel { last_pen_activity: Some(now), ..state });
        let start = if recent {
            noted
        } else {
            release_all(noted)
        };
        assert(sound(noted));
        lemma_release_all_sound(noted);
        lemma_release_slots_touch(noted, 10);
        lemma_touch_silent(start);
        lemma_pen_event_serial(start, event);
    }
}

proof fn lemma_enter_proximity_serial(t: Trace)
    requires
        silent_from(t, 0),
    ensures
        ({
            let near = enter_proximity(t);
            &&& t.end.tool_announced ==> silent_from(near, 0)
            &&& silent_from(near, t.steps.len() as int + 1)
            &&& near.steps.len() == t.steps.len() + 2
            &&& forall|i: int| 0 <= i < t.steps.len() ==> #[trigger] near.steps[i] == t.steps[i]
            &&& near.end.tool_announced && near.steps[t.steps.len() as int].state.tool_announced
        }),
{
    let announced = t.then_state(TabletModel { tool_announced: true, ..t.end });
    let events = proximity_events(t.end);
    if t.end.tool_announced {
        assert(events =~= seq![
            key_event(BTN_TOOL_PEN, 1),
            abs_event(ABS_X, t.end.stylus.x),
            abs_event(ABS_Y, t.end.stylus.y),
            abs_event(ABS_DISTANCE, HOVER_DISTANCE),
        ]);
        lemma_pen_frame_silent(announced, events, 0);
    }
    assert(without_serial(seq![report_event()]));
}

/// A pen that enters proximity sends its serial exactly if that was never sent,
/// in the first of its emissions, and leaves the tool announced from then on.
pub proof fn serial_sent_on_entering(state: TabletModel)
    ensures
        ({
            let t = enter_proximity(still(state));
            &&& t.steps.len() == 2
            &&& without_serial(t.steps[0].events) <==> state.tool_announced
            &&& without_serial(t.steps[1].events)
            &&& t.steps[0].state.tool_announced && t.steps[1].state.tool_announced
            &&& t.end.tool_announced
        }),
{
    let t = enter_proximity(still(state));
    lemma_enter_proximity_serial(still(state));
    if !state.tool_announced {
        assert(t.steps[0].events[1] == serial_event());
    }
}

proof fn lemma_ensure_proximity_serial(t: Trace)
    requires
        silent_from(t, 0),
    ensures
        ({
            let near = ensure_proximity(t);
            &&& t.end.tool_announced ==> silent_from(near, 0) && near.end.tool_announced
            &&& silent_from(near, t.steps.len() as int + 1)
            &&& near.steps.len() >= t.steps.len()
            &&& forall|i: int| 0 <= i < t.steps.len() ==> #[trigger] near.steps[i] == t.steps[i]
            &&& near.steps.len() > t.steps.len() ==> near.end.tool_announced
                && near.steps[t.steps.len() as int].state.tool_announced
        }),
{
    if !t.end.in_proximity {
        lemma_enter_proximity_serial(t);
    }
}

proof fn lemma_pen_event_serial(t: Trace, event: InputEvent)
    requires
        silent_from(t, 0),
    ensures
        ({
            let after = pen_event(t, event);
            let at = t.steps.len() as int;
            &&& t.end.tool_announced ==> silent_from(after, 0) && after.end.tool_announced
            &&& silent_from(after, at + 1)
            &&& after.steps.len() >= at
            &&& forall|i: int| 0 <= i < at ==> #[trigger] after.steps[i] == t.steps[i]
            &&& after.steps.len() > at && !without_serial(after.steps[at].events)
                ==> after.end.tool_announced && after.steps[at].state.tool_announced
        }),
{
    let updated = stylus_updated(t, event);
    assert(silent_from(updated, 0));
    let at = t.steps.len() as int;
    match event {
        InputEvent::StylusMove { .. } => {
            lemma_ensure_proximity_serial(updated);
            let near = ensure_proximity(updated);
            let events = position_events(near.end.stylus);
            lemma_pen_frame_silent(near, events, at + 1);
            if t.end.tool_announced {
                lemma_pen_frame_silent(near, events, 0);
            }
            if near.steps.len() == at {
                lemma_pen_frame_silent(near, events, 0);
            }
        },
        InputEvent::StylusDown { .. } => {
            lemma_ensure_proximity_serial(updated);
            let near = ensure_proximity(updated);
            let events = contact_events(near.end.stylus);
            lemma_pen_frame_silent(near, events, at + 1);
            if t.end.tool_announced {
                lemma_pen_frame_silent(near, events, 0);
            }
            if near.steps.len() == at {
                lemma_pen_frame_silent(near, events, 0);
            }
        },
        InputEvent::StylusUp => {
            lemma_pen_frame_silent(
                updated,
                seq![key_event(BTN_TOUCH, 0), abs_event(ABS_PRESSURE, 0)],
                0,
            );
        },
        InputEvent::StylusButton { button, pressed } => {
            if button <= 1 {
                lemma_ensure_proximity_serial(t);
                let near = ensure_proximity(t);
                let events = seq![
                    key_event(
                        if button == 0 {
                            BTN_STYLUS
                        } else {
                            BTN_STYLUS2
                        },
                        if pressed {
                            1
                        } else {
                            0
                        },
                    ),
                ];
                lemma_pen_frame_silent(near, events, at + 1);
                if t.end.tool_announced {
                    lemma_pen_frame_silent(near, events, 0);
                }
                if near.steps.len() == at {
                    lemma_pen_frame_silent(near, events, 0);
                }
            }
        },
        _ => {},
    }
}

// ---------------------------------------------------------------------------
// Fewer than two fingers stay hidden
// ---------------------------------------------------------------------------

proof fn lemma_same_active(a: Seq<TouchSlot>, b: Seq<TouchSlot>, n: nat)
    requires
        forall|i: int| 0 <= i < n ==> (#[trigger] a[i]).active == b[i].active,
    ensures
        active_in(a, n) == active_in(b, n),
    decreases n,
{
    if n > 0 {
        lemma_same_active(a, b, (n - 1) as nat);
        assert(a[n - 1].active == b[n - 1].active);
    }
}

proof fn lemma_none_active(slots: Seq<TouchSlot>, n: nat)
    ensures
        active_in(slots, n) == 0 <==> forall|i: int| 0 <= i < n ==> !(#[trigger] slots[i]).active,
    decreases n,
{
    if n > 0 {
        lemma_none_active(slots, (n - 1) as nat);
        if active_in(slots, n) == 0 {
            assert forall|i: int| 0 <= i < n implies !(#[trigger] slots[i]).active by {
                if i == n - 1 {
                    assert(!slots[n - 1].active);
                }
            }
        }
        if forall|i: int| 0 <= i < n ==> !(#[trigger] slots[i]).active {
            assert(!slots[n - 1].active);
        }
    }
}

/// Whether the touch device knows of exactly the active touches, if there are
/// at least two, and of none otherwise.
pub open spec fn in_sync(slots: Seq<TouchSlot>) -> bool {
    forall|i: int|
        0 <= i < slots.len() ==> (#[trigger] slots[i]).reported_to_os == (slots[i].active
            && active_count(slots) >= 2)
}

/// Whether the events tell of no finger: slots, lifted touches and reports.
pub open spec fn tells_no_finger(events: Seq<DeviceEvent>) -> bool {
    forall|i: int|
        #![trigger events[i]]
        0 <= i < events.len() ==> events[i] == report_event() || events[i] == abs_event(
            ABS_MT_TRACKING_ID,
            TOUCH_LIFTED,
        ) || (events[i].kind == EV_ABS && events[i].code == ABS_MT_SLOT)
}

proof fn lemma_sync_slots_slots(t: Trace, n: nat, count: nat)
    requires
        t.end.slots.len() == 10,
        n <= 10,
        forall|i: int| 0 <= i < t.steps.len() ==> tells_no_finger((#[trigger] t.steps[i]).events),
    ensures
        sync_slots(t, n, count).end.slots.len() == 10,
        forall|i: int|
            0 <= i < n ==> #[trigger] sync_slots(t, n, count).end.slots[i] == (TouchSlot {
                reported_to_os: t.end.slots[i].active && count >= 2,
                ..t.end.slots[i]
            }),
        forall|i: int|
            n <= i < 10 ==> #[trigger] sync_slots(t, n, count).end.slots[i] == t.end.slots[i],
        count < 2 ==> forall|i: int|
            0 <= i < sync_slots(t, n, count).steps.len() ==> tells_no_finger(
                (#[trigger] sync_slots(t, n, count).steps[i]).events,
            ),
    decreases n,
{
    if n > 0 {
        lemma_sync_slots_slots(t, (n - 1) as nat, count);
        let before = sync_slots(t, (n - 1) as nat, count);
        let after = sync_slots(t, n, count);
        let i = n - 1;
        let slot = before.end.slots[i];
        assert(slot == t.end.slots[i]);
        assert(after == sync_slot(before, i, count));
        assert(select(before, i).end.slots == before.end.slots);
        assert forall|j: int| 0 <= j < n implies #[trigger] after.end.slots[j] == (TouchSlot {
            reported_to_os: t.end.slots[j].active && count >= 2,
            ..t.end.slots[j]
        }) by {
            if j < i {
                assert(before.end.slots[j] == (TouchSlot {
                    reported_to_os: t.end.slots[j].active && count >= 2,
                    ..t.end.slots[j]
                }));
            }
        }
        if count < 2 {
            assert(tells_no_finger(seq![abs_event(ABS_MT_TRACKING_ID, TOUCH_LIFTED)]));
            assert(tells_no_finger(seq![abs_event(ABS_MT_SLOT, i as i32)]));
        }
    }
}

proof fn lemma_sync_touches_slots(state: TabletModel)
    requires
        state.slots.len() == 10,
    ensures
        ({
            let t = sync_touches(still(state));
            &&& in_sync(t.end.slots)
            &&& t.end.slots.len() == 10
            &&& forall|i: int|
                0 <= i < 10 ==> (#[trigger] t.end.slots[i]).active == state.slots[i].active
            &&& active_count(t.end.slots) == active_count(state.slots)
            &&& active_count(state.slots) < 2 ==> forall|i: int|
                0 <= i < t.steps.len() ==> tells_no_finger((#[trigger] t.steps[i]).events)
        }),
{
    let count = active_count(state.slots);
    let t = sync_touches(still(state));
    lemma_sync_slots_slots(still(state), 10, count);
    let told = sync_slots(still(state), 10, count);
    assert(t.end == told.end);
    assert forall|i: int| 0 <= i < 10 implies (#[trigger] t.end.slots[i]).active
        == state.slots[i].active && t.end.slots[i].reported_to_os == (state.slots[i].active && count
        >= 2) by {
        assert(told.end.slots[i] == (TouchSlot {
            reported_to_os: state.slots[i].active && count >= 2,
            ..state.slots[i]
        }));
    }
    lemma_same_active(t.end.slots, state.slots, 10);
    assert(tells_no_finger(seq![report_event()]));
}

/// A single finger never reaches the system: after a touch event that is not
/// ignored, the touch device knows of exactly the active touches if there are
/// two or more, and of none otherwise; and with fewer than two, nothing that
/// it emits tells of a finger.
pub proof fn single_finger_hidden(state: TabletModel, event: InputEvent, seen: u128, now: u128)
    requires
        well_formed(state),
        event is TouchDown || event is TouchMove || event is TouchUp,
    ensures
        ({
            let t = processed(state, event, seen, now);
            &&& t == still(state) || in_sync(t.end.slots)
            &&& active_count(t.end.slots) < 2 ==> forall|i: int|
                0 <= i < t.steps.len() ==> tells_no_finger((#[trigger] t.steps[i]).events)
        }),
{
    let t = processed(state, event, seen, now);
    if t != still(state) {
        match event {
            InputEvent::TouchDown { id, x, y } => {
                let i = choose|i: int| is_first_free(state.slots, i);
                lemma_sync_touches_slots(
                    with_slot(
                        state,
                        i,
                        TouchSlot {
                            tracking_id: tracking_id(id),
                            x: crate::input::single::normalized(x, ABS_MAX),
                            y: crate::input::single::normalized(y, ABS_MAX),
                            active: true,
                            reported_to_os: false,
                        },
                    ),
                );
            },
            InputEvent::TouchMove { id, x, y } => {
                let i = choose|i: int| is_first_of(state.slots, tracking_id(id), i);
                lemma_sync_touches_slots(
                    with_slot(
                        state,
                        i,
                        TouchSlot {
                            x: crate::input::single::normalized(x, ABS_MAX),
                            y: crate::input::single::normalized(y, ABS_MAX),
                            ..state.slots[i]
                        },
                    ),
                );
            },
            InputEvent::TouchUp { id } => {
                let i = choose|i: int| is_first_of(state.slots, tracking_id(id), i);
                lemma_sync_touches_slots(
                    with_slot(state, i, TouchSlot { active: false, ..state.slots[i] }),
                );
            },
            _ => {},
        }
    }
}

// ---------------------------------------------------------------------------
// Palm rejection
// ---------------------------------------------------------------------------

/// Less than a second after the pen was active, fingers that go down or move
/// are ignored: nothing is emitted and nothing changes.
pub proof fn palm_rejected(state: TabletModel, event: InputEvent, seen: u128, now: u128)
    requires
        pen_recent(state.last_pen_activity, seen),
        event is TouchDown || event is TouchMove,
    ensures
        processed(state, event, seen, now) == still(state),
{
}

/// Whether no touch is active if the pen was active less than a second before
/// `at`.
pub open spec fn pen_alone(state: TabletModel, at: u128) -> bool {
    pen_recent(state.last_pen_activity, at) ==> active_count(state.slots) == 0
}

proof fn lemma_release_slots_slots(t: Trace, n: nat)
    requires
        t.end.slots.len() == 10,
        n <= 10,
    ensures
        release_slots(t, n).end.slots.len() == 10,
        forall|i: int| 0 <= i < n ==> !(#[trigger] release_slots(t, n).end.slots[i]).active,
    decreases n,
{
    if n > 0 {
        lemma_release_slots_slots(t, (n - 1) as nat);
        let before = release_slots(t, (n - 1) as nat);
        let after = release_slots(t, n);
        assert(after == release_slot(before, n - 1));
        assert(select(before, n - 1).end.slots == before.end.slots);
        assert forall|i: int| 0 <= i < n implies !(#[trigger] after.end.slots[i]).active by {
            if i < n - 1 {
                assert(!before.end.slots[i].active);
            }
        }
    }
}

proof fn lemma_pen_event_slots(t: Trace, event: InputEvent)
    ensures
        pen_event(t, event).end.slots == t.end.slots,
        pen_event(t, event).end.last_pen_activity == t.end.last_pen_activity,
{
}

/// The pen and the fingers exclude each other: with a clock that does not run
/// backwards, there is never an active touch less than a second after the pen
/// was active.
pub proof fn pen_excludes_touch(
    state: TabletModel,
    event: InputEvent,
    seen: u128,
    now: u128,
    later: u128,
)
    requires
        well_formed(state),
        pen_alone(state, seen),
        seen <= now <= later,
    ensures
        pen_alone(processed(state, event, seen, now).end, later),
        pen_alone(initial(), later),
{
    let t = processed(state, event, seen, now);
    let recent = pen_recent(state.last_pen_activity, seen);
    match event {
        InputEvent::TouchDown { .. } => {
            touch_leaves_pen(state, event, seen, now);
        },
        InputEvent::TouchMove { .. } => {
            touch_leaves_pen(state, event, seen, now);
        },
        InputEvent::TouchUp { id } => {
            touch_leaves_pen(state, event, seen, now);
            if recent && t != still(state) {
                lemma_none_active(state.slots, 10);
                let i = choose|i: int| is_first_of(state.slots, tracking_id(id), i);
                assert(state.slots[i].active);
                assert(false);
            }
        },
        _ => {
            let noted = still(TabletModel { last_pen_activity: Some(now), ..state });
            let start = if recent {
                noted
            } else {
                release_all(noted)
            };
            lemma_pen_event_slots(start, event);
            if !recent {
                lemma_release_slots_slots(noted, 10);
                lemma_none_active(release_slots(noted, 10).end.slots, 10);
            }
        },
    }
}

// ---------------------------------------------------------------------------
// Pressure, and complete frames
// ---------------------------------------------------------------------------

/// Whether the pressure that an emission of the pen tells fits the stylus: a
/// hovering pen has none, and a stroke starts with some, with the pen down.
pub open spec fn pressure_fits(step: Step) -> bool {
    step.device == Device::Pen ==> {
        &&& !step.state.stylus.is_down ==> forall|i: int|
            #![trigger step.events[i]]
            0 <= i < step.events.len() && step.events[i].kind == EV_ABS && step.events[i].code
                == ABS_PRESSURE ==> step.events[i].value == 0
        &&& step.events.contains(key_event(BTN_TOUCH, 1)) ==> step.state.stylus.is_down && forall|
            i: int,
        |
            #![trigger step.events[i]]
            0 <= i < step.events.len() && step.events[i].kind == EV_ABS && step.events[i].code
                == ABS_PRESSURE ==> step.events[i].value >= 1
    }
}

spec fn pressures_fit(t: Trace) -> bool {
    forall|i: int| 0 <= i < t.steps.len() ==> pressure_fits(#[trigger] t.steps[i])
}

proof fn lemma_pen_frame_fits(t: Trace, events: Seq<DeviceEvent>)
    requires
        pressures_fit(t),
        pressure_fits(Step { device: Device::Pen, events, state: t.end }),
    ensures
        pressures_fit(t.pen_frame(events)),
{
    let last = Step { device: Device::Pen, events: seq![report_event()], state: t.end };
    assert(pressure_fits(last)) by {
        assert(!last.events.contains(key_event(BTN_TOUCH, 1)));
    }
}

proof fn lemma_ensure_proximity_fits(t: Trace)
    requires
        pressures_fit(t),
    ensures
        pressures_fit(ensure_proximity(t)),
        ensure_proximity(t).end.stylus == t.end.stylus,
{
    if !t.end.in_proximity {
        let announced = t.then_state(TabletModel { tool_announced: true, ..t.end });
        let events = proximity_events(t.end);
        assert(forall|i: int|
            0 <= i < events.len() ==> (#[trigger] events[i]).code != ABS_PRESSURE && events[i]
                != key_event(BTN_TOUCH, 1));
        lemma_pen_frame_fits(announced, events);
    }
}

#[verifier::spinoff_prover]
#[verifier::rlimit(40)]
proof fn lemma_pen_event_fits(t: Trace, event: InputEvent)
    requires
        pressures_fit(t),
    ensures
        pressures_fit(pen_event(t, event)),
{
    let updated = stylus_updated(t, event);
    assert(pressures_fit(updated));
    match event {
        InputEvent::StylusMove { .. } => {
            lemma_ensure_proximity_fits(updated);
            let events = position_events(updated.end.stylus);
            assert(!events.contains(key_event(BTN_TOUCH, 1)));
            lemma_pen_frame_fits(ensure_proximity(updated), events);
        },
        InputEvent::StylusDown { .. } => {
            lemma_ensure_proximity_fits(updated);
            lemma_pen_frame_fits(ensure_proximity(updated), contact_events(updated.end.stylus));
        },
        InputEvent::StylusUp => {
            let events = seq![key_event(BTN_TOUCH, 0), abs_event(ABS_PRESSURE, 0)];
            assert(!events.contains(key_event(BTN_TOUCH, 1)));
            lemma_pen_frame_fits(updated, events);
        },
        InputEvent::StylusButton { button, pressed } => {
            if button <= 1 {
                lemma_ensure_proximity_fits(t);
                let events = seq![
                    key_event(
                        if button == 0 {
                            BTN_STYLUS
                        } else {
                            BTN_STYLUS2
                        },
                        if pressed {
                            1
                        } else {
                            0
                        },
                    ),
                ];
                assert(!events.contains(key_event(BTN_TOUCH, 1)));
                lemma_pen_frame_fits(ensure_proximity(t), events);
            }
        },
        _ => {},
    }
}

/// Applications take any pressure for drawing, and none for hovering. So no
/// pressure is emitted while the pen is up, and what puts the pen down has a
/// pressure of at least one.
pub proof fn pressure_only_when_down(state: TabletModel, event: InputEvent, seen: u128, now: u128)
    ensures
        forall|i: int|
            0 <= i < processed(state, event, seen, now).steps.len() ==> pressure_fits(
                #[trigger] processed(state, event, seen, now).steps[i],
            ),
{
    if event is TouchDown || event is TouchMove || event is TouchUp {
        touch_leaves_pen(state, event, seen, now);
    } else {
        let noted = still(TabletModel { last_pen_activity: Some(now), ..state });
        let start = if pen_recent(state.last_pen_activity, seen) {
            noted
        } else {
            release_all(noted)
        };
        lemma_release_slots_touch(noted, 10);
        assert(pressures_fit(start));
        lemma_pen_event_fits(start, event);
        assert(processed(state, event, seen, now) == pen_event(start, event));
    }
}

proof fn lemma_sync_slots_nothing(t: Trace, n: nat, count: nat)
    requires
        !any_change(t.end.slots, n, count),
    ensures
        sync_slots(t, n, count) == t,
    decreases n,
{
    if n > 0 {
        assert(!any_change(t.end.slots, (n - 1) as nat, count));
        lemma_sync_slots_nothing(t, (n - 1) as nat, count);
        assert(slot_change(t.end.slots[n - 1], count) == SlotChange::Nothing);
    }
}

/// What an event makes the devices emit is complete: if they emit anything,
/// the last emission is a report.
pub proof fn emissions_are_reported(state: TabletModel, event: InputEvent, seen: u128, now: u128)
    ensures
        ({
            let t = processed(state, event, seen, now);
            t.steps.len() > 0 ==> t.steps.last().events == seq![report_event()]
        }),
{
    let t = processed(state, event, seen, now);
    if t != still(state) {
        match event {
            InputEvent::TouchDown { id, x, y } => {
                let i = choose|i: int| is_first_free(state.slots, i);
                let placed = with_slot(
                    state,
                    i,
                    TouchSlot {
                        tracking_id: tracking_id(id),
                        x: crate::input::single::normalized(x, ABS_MAX),
                        y: crate::input::single::normalized(y, ABS_MAX),
                        active: true,
                        reported_to_os: false,
                    },
                );
                lemma_sync_touches_reported(placed);
            },
            InputEvent::TouchMove { id, x, y } => {
                let i = choose|i: int| is_first_of(state.slots, tracking_id(id), i);
                let moved = with_slot(
                    state,
                    i,
                    TouchSlot {
                        x: crate::input::single::normalized(x, ABS_MAX),
                        y: crate::input::single::normalized(y, ABS_MAX),
                        ..state.slots[i]
                    },
                );
                lemma_sync_touches_reported(moved);
            },
            InputEvent::TouchUp { id } => {
                let i = choose|i: int| is_first_of(state.slots, tracking_id(id), i);
                lemma_sync_touches_reported(
                    with_slot(state, i, TouchSlot { active: false, ..state.slots[i] }),
                );
            },
            _ => {},
        }
    }
}

proof fn lemma_sync_touches_reported(state: TabletModel)
    ensures
        ({
            let t = sync_touches(still(state));
            t.steps.len() > 0 ==> t.steps.last().events == seq![report_event()]
        }),
{
    let count = active_count(state.slots);
    if !any_change(state.slots, 10, count) {
        lemma_sync_slots_nothing(still(state), 10, count);
    }
}

// ---------------------------------------------------------------------------
// Touches are lifted exactly where they stop being shown
// ---------------------------------------------------------------------------

/// The events that lift a touch.
pub open spec fn lift_events() -> Seq<DeviceEvent> {
    seq![abs_event(ABS_MT_TRACKING_ID, TOUCH_LIFTED)]
}

/// Whether an emission lifts the touch in a slot.
pub open spec fn lifts(step: Step, slot: int) -> bool {
    &&& step.device == Device::Touch
    &&& step.events == lift_events()
    &&& step.state.current_slot == slot
}

/// Whether a slot was shown and is to be hidden.
spec fn hides(state: TabletModel, i: int, count: nat) -> bool {
    slot_change(state.slots[i], count) == SlotChange::Hide
}

/// What the first `n` slots have made of the emissions: they lift the touches
/// that are to be hidden, each once, and nothing else.
spec fn lifted_in(t: Trace, state: TabletModel, n: nat, count: nat) -> bool {
    &&& forall|k: int, i: int|
        #![trigger lifts(t.steps[k], i)]
        0 <= k < t.steps.len() && lifts(t.steps[k], i) ==> 0 <= i < n && hides(state, i, count)
    &&& forall|i: int|
        #![trigger state.slots[i]]
        0 <= i < n && hides(state, i, count) ==> exists|k: int|
            0 <= k < t.steps.len() && lifts(#[trigger] t.steps[k], i)
    &&& forall|k: int, l: int, i: int|
        #![trigger lifts(t.steps[k], i), lifts(t.steps[l], i)]
        0 <= k < t.steps.len() && 0 <= l < t.steps.len() && lifts(t.steps[k], i) && lifts(
            t.steps[l],
            i,
        ) ==> k == l
    &&& (forall|i: int| 0 <= i < 10 ==> (#[trigger] state.slots[i]).tracking_id != TOUCH_LIFTED)
        ==> forall|k: int|
        0 <= k < t.steps.len() && (#[trigger] t.steps[k]).events.contains(
            abs_event(ABS_MT_TRACKING_ID, TOUCH_LIFTED),
        ) ==> t.steps[k].events == lift_events()
}

proof fn lemma_quiet_step(
    t: Trace,
    device: Device,
    events: Seq<DeviceEvent>,
    state: TabletModel,
    n: nat,
    count: nat,
)
    requires
        lifted_in(t, state, n, count),
        events != lift_events(),
        (forall|i: int| 0 <= i < 10 ==> (#[trigger] state.slots[i]).tracking_id != TOUCH_LIFTED)
            ==> !events.contains(abs_event(ABS_MT_TRACKING_ID, TOUCH_LIFTED)),
    ensures
        lifted_in(t.emit(device, events), state, n, count),
{
    let after = t.emit(device, events);
    assert forall|i: int|
        #![trigger state.slots[i]]
        0 <= i < n && hides(state, i, count) implies exists|k: int|
        0 <= k < after.steps.len() && lifts(#[trigger] after.steps[k], i) by {
        let k = choose|k: int| 0 <= k < t.steps.len() && lifts(#[trigger] t.steps[k], i);
        assert(after.steps[k] == t.steps[k]);
        assert(lifts(after.steps[k], i));
    }
    assert forall|k: int, i: int|
        #![trigger lifts(after.steps[k], i)]
        0 <= k < after.steps.len() && lifts(after.steps[k], i) implies 0 <= i < n && hides(
        state,
        i,
        count,
    ) by {
        if k < t.steps.len() {
            assert(after.steps[k] == t.steps[k]);
            assert(lifts(t.steps[k], i));
        }
    }
    assert forall|k: int, l: int, i: int|
        #![trigger lifts(after.steps[k], i), lifts(after.steps[l], i)]
        0 <= k < after.steps.len() && 0 <= l < after.steps.len() && lifts(after.steps[k], i)
            && lifts(after.steps[l], i) implies k == l by {
        assert(k < t.steps.len() && l < t.steps.len());
        assert(lifts(t.steps[k], i) && lifts(t.steps[l], i));
    }
}

proof fn lemma_select_quiet(t: Trace, i: int, state: TabletModel, n: nat, count: nat)
    requires
        lifted_in(t, state, n, count),
        0 <= i < 10,
    ensures
        lifted_in(select(t, i), state, n, count),
        select(t, i).end.current_slot == i,
        select(t, i).end.slots == t.end.slots,
{
    if t.end.current_slot != i {
        let chosen = t.then_state(TabletModel { current_slot: i as u8, ..t.end });
        assert(lifted_in(chosen, state, n, count));
        let events = seq![abs_event(ABS_MT_SLOT, i as i32)];
        assert(events[0] != lift_events()[0]);
        lemma_quiet_step(chosen, Device::Touch, events, state, n, count);
    }
}

proof fn lemma_sync_slots_lifts(state: TabletModel, n: nat, count: nat)
    requires
        state.slots.len() == 10,
        n <= 10,
    ensures
        lifted_in(sync_slots(still(state), n, count), state, n, count),
    decreases n,
{
    if n > 0 {
        let i = n - 1;
        lemma_sync_slots_lifts(state, i as nat, count);
        lemma_sync_slots_slots(still(state), i as nat, count);
        let before = sync_slots(still(state), i as nat, count);
        let after = sync_slots(still(state), n, count);
        let slot = state.slots[i];
        assert(before.end.slots[i] == slot);
        assert(after == sync_slot(before, i, count));
        lemma_select_quiet(before, i, state, i as nat, count);
        let selected = select(before, i);
        if slot_change(slot, count) == SlotChange::Hide {
            lemma_lift_step(selected, state, i, count);
        } else {
            assert(!hides(state, i, count));
            if slot_change(slot, count) == SlotChange::Show {
                let events = seq![
                    abs_event(ABS_MT_TRACKING_ID, slot.tracking_id),
                    abs_event(ABS_MT_POSITION_X, slot.x),
                    abs_event(ABS_MT_POSITION_Y, slot.y),
                ];
                assert(events.len() != lift_events().len());
                assert(slot.tracking_id != TOUCH_LIFTED ==> !events.contains(
                    abs_event(ABS_MT_TRACKING_ID, TOUCH_LIFTED),
                ));
                lemma_quiet_step(selected, Device::Touch, events, state, i as nat, count);
                lemma_next_slot(selected.emit(Device::Touch, events), state, i, count);
            } else if slot_change(slot, count) == SlotChange::Update {
                let events = seq![
                    abs_event(ABS_MT_POSITION_X, slot.x),
                    abs_event(ABS_MT_POSITION_Y, slot.y),
                ];
                assert(events.len() != lift_events().len());
                lemma_quiet_step(selected, Device::Touch, events, state, i as nat, count);
                lemma_next_slot(selected.emit(Device::Touch, events), state, i, count);
            } else {
                lemma_next_slot(before, state, i, count);
            }
        }
    }
}

proof fn lemma_next_slot(t: Trace, state: TabletModel, i: int, count: nat)
    requires
        lifted_in(t, state, i as nat, count),
        0 <= i,
        !hides(state, i, count),
    ensures
        lifted_in(t, state, (i + 1) as nat, count),
{
    assert forall|k: int, j: int|
        #![trigger lifts(t.steps[k], j)]
        0 <= k < t.steps.len() && lifts(t.steps[k], j) implies 0 <= j < i + 1 && hides(
        state,
        j,
        count,
    ) by {}
}

proof fn lemma_lift_step(t: Trace, state: TabletModel, i: int, count: nat)
    requires
        lifted_in(t, state, i as nat, count),
        0 <= i < 10,
        hides(state, i, count),
        t.end.current_slot == i,
    ensures
        lifted_in(t.emit(Device::Touch, lift_events()), state, (i + 1) as nat, count),
{
    let after = t.emit(Device::Touch, lift_events());
    let last = t.steps.len() as int;
    assert(lifts(after.steps[last], i));
    assert forall|k: int, j: int|
        #![trigger lifts(after.steps[k], j)]
        0 <= k < after.steps.len() && lifts(after.steps[k], j) implies 0 <= j < i + 1 && hides(
        state,
        j,
        count,
    ) && (k == last <==> j == i) by {
        if k < last {
            assert(after.steps[k] == t.steps[k]);
            assert(lifts(t.steps[k], j));
        }
    }
    assert forall|j: int|
        #![trigger state.slots[j]]
        0 <= j < i + 1 && hides(state, j, count) implies exists|k: int|
        0 <= k < after.steps.len() && lifts(#[trigger] after.steps[k], j) by {
        if j < i {
            let k = choose|k: int| 0 <= k < last && lifts(#[trigger] t.steps[k], j);
            assert(after.steps[k] == t.steps[k]);
            assert(lifts(after.steps[k], j));
        }
    }
    assert forall|k: int, l: int, j: int|
        #![trigger lifts(after.steps[k], j), lifts(after.steps[l], j)]
        0 <= k < after.steps.len() && 0 <= l < after.steps.len() && lifts(after.steps[k], j)
            && lifts(after.steps[l], j) implies k == l by {
        if k < last && l < last {
            assert(lifts(t.steps[k], j) && lifts(t.steps[l], j));
        }
    }
}

/// Telling the touch device of the slots leaves the touches as they were, and
/// makes known exactly those that are to be seen: the active ones, if there are
/// two or more. A touch is lifted, once, for exactly the slots that were known
/// and are not any more; where no touch has the ID that stands for a lift, no
/// other emission carries that ID. With fewer than two touches and none known,
/// nothing is emitted.
pub proof fn sync_lifts_what_it_hides(state: TabletModel)
    requires
        state.slots.len() == 10,
    ensures
        ({
            let t = sync_touches(still(state));
            let count = active_count(state.slots);
            &&& t.end.slots.len() == 10
            &&& forall|i: int|
                0 <= i < 10 ==> #[trigger] t.end.slots[i] == (TouchSlot {
                    reported_to_os: state.slots[i].active && count >= 2,
                    ..state.slots[i]
                })
            &&& forall|i: int|
                #![trigger t.end.slots[i]]
                0 <= i < 10 ==> ((exists|k: int|
                    0 <= k < t.steps.len() && lifts(#[trigger] t.steps[k], i))
                    <==> state.slots[i].reported_to_os && !t.end.slots[i].reported_to_os)
            &&& forall|k: int, i: int|
                #![trigger lifts(t.steps[k], i)]
                0 <= k < t.steps.len() && lifts(t.steps[k], i) ==> 0 <= i < 10
            &&& forall|k: int, l: int, i: int|
                #![trigger lifts(t.steps[k], i), lifts(t.steps[l], i)]
                0 <= k < t.steps.len() && 0 <= l < t.steps.len() && lifts(t.steps[k], i) && lifts(
                    t.steps[l],
                    i,
                ) ==> k == l
            &&& (forall|i: int|
                0 <= i < 10 ==> (#[trigger] state.slots[i]).tracking_id != TOUCH_LIFTED)
                ==> forall|k: int|
                0 <= k < t.steps.len() && (#[trigger] t.steps[k]).events.contains(
                    abs_event(ABS_MT_TRACKING_ID, TOUCH_LIFTED),
                ) ==> t.steps[k].events == lift_events()
            &&& count < 2 && (forall|i: int|
                0 <= i < 10 ==> !(#[trigger] state.slots[i]).reported_to_os) ==> t == still(state)
        }),
{
    let t = sync_touches(still(state));
    let count = active_count(state.slots);
    let told = sync_slots(still(state), 10, count);
    lemma_sync_slots_slots(still(state), 10, count);
    lemma_sync_slots_lifts(state, 10, count);
    assert(t.end == told.end);
    if any_change(state.slots, 10, count) {
        assert(seq![report_event()][0] != lift_events()[0]);
        lemma_quiet_step(told, Device::Touch, seq![report_event()], state, 10, count);
    }
    assert(lifted_in(t, state, 10, count));
    assert forall|i: int| 0 <= i < 10 implies #[trigger] t.end.slots[i] == (TouchSlot {
        reported_to_os: state.slots[i].active && count >= 2,
        ..state.slots[i]
    }) by {
        assert(told.end.slots[i] == t.end.slots[i]);
    }
    assert forall|i: int|
        #![trigger t.end.slots[i]]
        0 <= i < 10 implies ((exists|k: int|
        0 <= k < t.steps.len() && lifts(#[trigger] t.steps[k], i))
        <==> state.slots[i].reported_to_os && !t.end.slots[i].reported_to_os) by {
        assert(t.end.slots[i] == (TouchSlot {
            reported_to_os: state.slots[i].active && count >= 2,
            ..state.slots[i]
        }));
        assert(hides(state, i, count) <==> state.slots[i].reported_to_os
            && !t.end.slots[i].reported_to_os);
    }
    if count < 2 && (forall|i: int|
        0 <= i < 10 ==> !(#[trigger] state.slots[i]).reported_to_os) {
        assert(!any_change(state.slots, 10, count));
        lemma_sync_slots_nothing(still(state), 10, count);
    }
}

// ---------------------------------------------------------------------------
// The pen enters proximity
// ---------------------------------------------------------------------------

/// A pen that enters proximity is announced by its tool, its position and the
/// distance of a hovering pen, with its serial if that was never sent, and then
/// reported. Whether it is in proximity changes only once both emissions are
/// made: if one fails, that stays as it was. Then the pen is in proximity, and
/// nothing else has changed but that the tool is announced.
pub proof fn proximity_is_announced(t: Trace)
    ensures
        ({
            let near = enter_proximity(t);
            let at = t.steps.len() as int;
            let first = near.steps[at];
            let second = near.steps[at + 1];
            &&& near.steps.len() == at + 2
            &&& near.steps.take(at) == t.steps
            &&& first.device == Device::Pen && second.device == Device::Pen
            &&& first.events == (if t.end.tool_announced {
                seq![
                    key_event(BTN_TOOL_PEN, 1),
                    abs_event(ABS_X, t.end.stylus.x),
                    abs_event(ABS_Y, t.end.stylus.y),
                    abs_event(ABS_DISTANCE, 10),
                ]
            } else {
                seq![
                    key_event(BTN_TOOL_PEN, 1),
                    serial_event(),
                    abs_event(ABS_X, t.end.stylus.x),
                    abs_event(ABS_Y, t.end.stylus.y),
                    abs_event(ABS_DISTANCE, 10),
                ]
            })
            &&& second.events == seq![report_event()]
            &&& first.state == (TabletModel { tool_announced: true, ..t.end })
            &&& second.state == first.state
            &&& near.end == (TabletModel { in_proximity: true, tool_announced: true, ..t.end })
        }),
{
    let near = enter_proximity(t);
    assert(near.steps.take(t.steps.len() as int) =~= t.steps);
    let events = proximity_events(t.end);
    if t.end.tool_announced {
        assert(events =~= seq![
            key_event(BTN_TOOL_PEN, 1),
            abs_event(ABS_X, t.end.stylus.x),
            abs_event(ABS_Y, t.end.stylus.y),
            abs_event(ABS_DISTANCE, 10),
        ]);
    } else {
        assert(events =~= seq![
            key_event(BTN_TOOL_PEN, 1),
            serial_event(),
            abs_event(ABS_X, t.end.stylus.x),
            abs_event(ABS_Y, t.end.stylus.y),
            abs_event(ABS_DISTANCE, 10),
        ]);
    }
}

} // verus!
