//! What the pen tells of the events of the client: in which order, with which
//! values, and which state it leaves.

use vstd::prelude::*;

use crate::input::events::{StylusState, TouchSlot};
use crate::input::single::{limited, normalized};
use crate::input::tablet_model::{
    active_count, active_in, processed, release_all, release_slots, still, Device, DeviceEvent, TabletModel,
    Trace, ABS_DISTANCE, ABS_PRESSURE, ABS_TILT_X, ABS_TILT_Y, ABS_X, ABS_Y, BTN_STYLUS,
    BTN_STYLUS2, BTN_TOOL_DOUBLETAP, BTN_TOOL_FINGER, BTN_TOOL_PEN, BTN_TOOL_QUADTAP,
    BTN_TOOL_TRIPLETAP, BTN_TOUCH, EV_ABS, EV_KEY, EV_MSC, EV_SYN, MSC_SERIAL, SYN_REPORT,
};
use crate::protocol::packets::{InputEvent, Single};

verus! {

/// What a pen event leaves of the pen while touches are lifted.
proof fn lemma_release_keeps_pen(t: Trace, n: nat)
    requires
        t.end.slots.len() == 10,
        n <= 10,
    ensures
        ({
            let after = release_slots(t, n);
            &&& after.end.stylus == t.end.stylus
            &&& after.end.in_proximity == t.end.in_proximity
            &&& after.end.tool_announced == t.end.tool_announced
            &&& after.end.last_pen_activity == t.end.last_pen_activity
            &&& after.end.slots.len() == 10
            &&& after.steps.len() >= t.steps.len()
            &&& forall|i: int|
                t.steps.len() <= i < after.steps.len() ==> (#[trigger] after.steps[i]).device
                    == Device::Touch && after.steps[i].state.stylus == t.end.stylus
                    && after.steps[i].state.in_proximity == t.end.in_proximity
                    && after.steps[i].state.tool_announced == t.end.tool_announced
                    && after.steps[i].state.last_pen_activity == t.end.last_pen_activity
            &&& forall|i: int|
                0 <= i < n ==> #[trigger] after.end.slots[i] == (TouchSlot {
                    active: false,
                    ..t.end.slots[i]
                })
            &&& forall|i: int|
                n <= i < 10 ==> #[trigger] after.end.slots[i] == t.end.slots[i]
        }),
    decreases n,
{
    if n > 0 {
        lemma_release_keeps_pen(t, (n - 1) as nat);
        let before = release_slots(t, (n - 1) as nat);
        assert(before.end.slots[n - 1] == t.end.slots[n - 1]);
        let after = release_slots(t, n);
        assert forall|i: int| 0 <= i < n implies #[trigger] after.end.slots[i] == (TouchSlot {
            active: false,
            ..t.end.slots[i]
        }) by {
            if i < n - 1 {
                assert(before.end.slots[i] == (TouchSlot { active: false, ..t.end.slots[i] }));
            }
        }
    }
}

proof fn lemma_active_in(slots: Seq<TouchSlot>, n: nat)
    ensures
        active_in(slots, n) == 0 <==> forall|i: int| 0 <= i < n ==> !(#[trigger] slots[i]).active,
    decreases n,
{
    if n > 0 {
        lemma_active_in(slots, (n - 1) as nat);
        if active_in(slots, n) == 0 {
            assert forall|i: int| 0 <= i < n implies !(#[trigger] slots[i]).active by {
                if i == n - 1 {
                    assert(!slots[n - 1].active);
                }
            }
        }
        if forall|i: int| 0 <= i < n ==> !(#[trigger] slots[i]).active {
            assert(!slots[n - 1].active);
        }
    }
}

/// Whether the pen was active less than a second before `seen`.
pub open spec fn within_a_second(last: Option<u128>, seen: u128) -> bool {
    last is Some && seen - last->Some_0 < 1_000_000_000
}

/// How many emissions of the pen an event calls for: two for what it says, and
/// two more where the pen has to come into proximity first.
pub open spec fn pen_emissions(near: bool, event: InputEvent) -> int {
    match event {
        InputEvent::StylusUp => 2,
        InputEvent::StylusButton { button, .. } => if button > 1 {
            0
        } else if near {
            2
        } else {
            4
        },
        _ => if near {
            2
        } else {
            4
        },
    }
}

/// A pen event is told last, by the pen alone. If the pen has not been active
/// for a second, every touch is lifted before, and told to be, with no tool left
/// on the touch device; otherwise the touches stay as they are. A pen that has
/// to come into proximity first tells its tool, where it is and how far away,
/// and its serial if that was never told. The time of the event is noted, and
/// while the pen tells anything, its values are already those of the event.
#[verifier::spinoff_prover]
#[verifier::rlimit(60)]
pub proof fn pen_event_is_told_last(state: TabletModel, event: InputEvent, seen: u128, now: u128)
    requires
        state.slots.len() == 10,
        event is StylusMove || event is StylusDown || event is StylusUp || event is StylusButton,
    ensures
        ({
            let t = processed(state, event, seen, now);
            let own = pen_emissions(state.in_proximity, event);
            let k = t.steps.len() - own;
            let comes = event !is StylusUp && own > 0;
            let touched = exists|i: int| 0 <= i < 10 && (#[trigger] state.slots[i]).active;
            let lifts = touched && !within_a_second(state.last_pen_activity, seen);
            &&& k >= 0
            &&& forall|i: int|
                #![trigger t.steps[i]]
                0 <= i < k ==> {
                    &&& t.steps[i].device == Device::Touch
                    &&& t.steps[i].state.stylus == state.stylus
                    &&& t.steps[i].state.last_pen_activity == Some(now)
                    &&& t.steps[i].state.in_proximity == state.in_proximity
                    &&& t.steps[i].state.tool_announced == state.tool_announced
                }
            &&& forall|i: int|
                #![trigger t.steps[i]]
                k <= i < t.steps.len() ==> {
                    &&& t.steps[i].device == Device::Pen
                    &&& t.steps[i].state.stylus == t.end.stylus
                    &&& t.steps[i].state.last_pen_activity == Some(now)
                    &&& t.steps[i].state.slots == t.end.slots
                    &&& t.steps[i].state.current_slot == t.end.current_slot
                    &&& t.steps[i].state.in_proximity == if i < k + own - 2 {
                        state.in_proximity
                    } else {
                        t.end.in_proximity
                    }
                    &&& t.steps[i].state.tool_announced == t.end.tool_announced
                }
            &&& own == 4 ==> {
                let place = seq![
                    DeviceEvent { kind: EV_ABS, code: ABS_X, value: t.end.stylus.x },
                    DeviceEvent { kind: EV_ABS, code: ABS_Y, value: t.end.stylus.y },
                    DeviceEvent { kind: EV_ABS, code: ABS_DISTANCE, value: 10 },
                ];
                let tool = DeviceEvent { kind: EV_KEY, code: BTN_TOOL_PEN, value: 1 };
                let serial = DeviceEvent { kind: EV_MSC, code: MSC_SERIAL, value: 0x12345678 };
                &&& t.steps[k].events == (if state.tool_announced {
                    seq![tool]
                } else {
                    seq![tool, serial]
                }) + place
                &&& t.steps[k + 1].events == seq![
                    DeviceEvent { kind: EV_SYN, code: SYN_REPORT, value: 0 },
                ]
            }
            &&& own > 0 ==> t.steps.last().events == seq![
                DeviceEvent { kind: EV_SYN, code: SYN_REPORT, value: 0 },
            ]
            &&& t.end.last_pen_activity == Some(now)
            &&& t.end.in_proximity == (state.in_proximity || comes)
            &&& t.end.tool_announced == (state.tool_announced || own == 4)
            &&& !lifts ==> k == 0 && t.end.slots == state.slots && t.end.current_slot
                == state.current_slot
            &&& lifts ==> {
                &&& k >= 3
                &&& t.steps[k - 2].events == seq![
                    DeviceEvent { kind: EV_KEY, code: BTN_TOOL_FINGER, value: 0 },
                    DeviceEvent { kind: EV_KEY, code: BTN_TOOL_DOUBLETAP, value: 0 },
                    DeviceEvent { kind: EV_KEY, code: BTN_TOOL_TRIPLETAP, value: 0 },
                    DeviceEvent { kind: EV_KEY, code: BTN_TOOL_QUADTAP, value: 0 },
                ]
                &&& t.steps[k - 1].events == seq![
                    DeviceEvent { kind: EV_SYN, code: SYN_REPORT, value: 0 },
                ]
                &&& t.end.slots.len() == 10
                &&& forall|i: int|
                    0 <= i < 10 ==> #[trigger] t.end.slots[i] == (TouchSlot {
                        active: false,
                        ..state.slots[i]
                    })
            }
        }),
{
    let t = processed(state, event, seen, now);
    let own = pen_emissions(state.in_proximity, event);
    let k = t.steps.len() - own;
    let noted = still(TabletModel { last_pen_activity: Some(now), ..state });
    let recent = within_a_second(state.last_pen_activity, seen);
    let touched = exists|i: int| 0 <= i < 10 && (#[trigger] state.slots[i]).active;
    lemma_active_in(state.slots, 10);
    lemma_release_keeps_pen(noted, 10);
    if touched && !recent {
        let released = release_slots(noted, 10);
        lemma_release_emits(noted, 10);
        assert(active_count(noted.end.slots) != 0);
        assert(k == released.steps.len() + 2);
    } else {
        assert(k == 0);
    }
    if own == 4 {
        let place = seq![
            DeviceEvent { kind: EV_ABS, code: ABS_X, value: t.end.stylus.x },
            DeviceEvent { kind: EV_ABS, code: ABS_Y, value: t.end.stylus.y },
            DeviceEvent { kind: EV_ABS, code: ABS_DISTANCE, value: 10 },
        ];
        let tool = DeviceEvent { kind: EV_KEY, code: BTN_TOOL_PEN, value: 1 };
        let serial = DeviceEvent { kind: EV_MSC, code: MSC_SERIAL, value: 0x12345678 };
        assert(t.steps[k].events =~= (if state.tool_announced {
            seq![tool]
        } else {
            seq![tool, serial]
        }) + place);
    }
}

proof fn lemma_release_emits(t: Trace, n: nat)
    requires
        t.end.slots.len() == 10,
        n <= 10,
    ensures
        (exists|i: int| 0 <= i < n && (#[trigger] t.end.slots[i]).active) ==> release_slots(
            t,
            n,
        ).steps.len() > t.steps.len(),
    decreases n,
{
    if n > 0 {
        lemma_release_emits(t, (n - 1) as nat);
        lemma_release_keeps_pen(t, (n - 1) as nat);
        let before = release_slots(t, (n - 1) as nat);
        assert(before.end.slots[n - 1] == t.end.slots[n - 1]);
    }
}

/// A stylus that moves tells its position, pressure and tilt as the client has
/// sent them, scaled to the axes; one that hovers has no pressure and is at a
/// distance, one that is down is at none. It goes on hovering or drawing.
#[verifier::spinoff_prover]
#[verifier::rlimit(60)]
pub proof fn pen_follows_moves(
    state: TabletModel,
    x: Single,
    y: Single,
    pressure: Single,
    tilt_x: Single,
    tilt_y: Single,
    seen: u128,
    now: u128,
)
    requires
        state.slots.len() == 10,
    ensures
        ({
            let event = InputEvent::StylusMove { x, y, pressure, tilt_x, tilt_y };
            let t = processed(state, event, seen, now);
            let down = state.stylus.is_down;
            &&& t.steps.len() >= 2
            &&& t.steps[t.steps.len() - 2].events == seq![
                DeviceEvent { kind: EV_ABS, code: ABS_X, value: normalized(x, 65535) },
                DeviceEvent { kind: EV_ABS, code: ABS_Y, value: normalized(y, 65535) },
                DeviceEvent {
                    kind: EV_ABS,
                    code: ABS_PRESSURE,
                    value: if down {
                        normalized(pressure, 2047)
                    } else {
                        0
                    },
                },
                DeviceEvent {
                    kind: EV_ABS,
                    code: ABS_DISTANCE,
                    value: if down {
                        0
                    } else {
                        10
                    },
                },
                DeviceEvent { kind: EV_ABS, code: ABS_TILT_X, value: limited(tilt_x, 90) as i32 },
                DeviceEvent { kind: EV_ABS, code: ABS_TILT_Y, value: limited(tilt_y, 90) as i32 },
            ]
            &&& t.end.stylus == (StylusState {
                x: normalized(x, 65535),
                y: normalized(y, 65535),
                pressure: normalized(pressure, 2047),
                tilt_x: limited(tilt_x, 90) as i32,
                tilt_y: limited(tilt_y, 90) as i32,
                is_down: down,
            })
        }),
{
    let noted = still(TabletModel { last_pen_activity: Some(now), ..state });
    lemma_release_keeps_pen(noted, 10);
}

/// A stylus that touches the screen presses its tip there, with the pressure
/// that the client has sent, but at least the least one, and is down from then
/// on.
#[verifier::spinoff_prover]
#[verifier::rlimit(60)]
pub proof fn pen_starts_strokes(
    state: TabletModel,
    x: Single,
    y: Single,
    pressure: Single,
    tilt_x: Single,
    tilt_y: Single,
    seen: u128,
    now: u128,
)
    requires
        state.slots.len() == 10,
    ensures
        ({
            let event = InputEvent::StylusDown { x, y, pressure, tilt_x, tilt_y };
            let t = processed(state, event, seen, now);
            let force = normalized(pressure, 2047);
            &&& t.steps.len() >= 2
            &&& t.steps[t.steps.len() - 2].events == seq![
                DeviceEvent { kind: EV_KEY, code: BTN_TOOL_PEN, value: 1 },
                DeviceEvent { kind: EV_KEY, code: BTN_TOUCH, value: 1 },
                DeviceEvent { kind: EV_ABS, code: ABS_X, value: normalized(x, 65535) },
                DeviceEvent { kind: EV_ABS, code: ABS_Y, value: normalized(y, 65535) },
                DeviceEvent {
                    kind: EV_ABS,
                    code: ABS_PRESSURE,
                    value: if force < 1 {
                        1
                    } else {
                        force
                    },
                },
                DeviceEvent { kind: EV_ABS, code: ABS_DISTANCE, value: 0 },
                DeviceEvent { kind: EV_ABS, code: ABS_TILT_X, value: limited(tilt_x, 90) as i32 },
                DeviceEvent { kind: EV_ABS, code: ABS_TILT_Y, value: limited(tilt_y, 90) as i32 },
            ]
            &&& t.end.stylus == (StylusState {
                x: normalized(x, 65535),
                y: normalized(y, 65535),
                pressure: force,
                tilt_x: limited(tilt_x, 90) as i32,
                tilt_y: limited(tilt_y, 90) as i32,
                is_down: true,
            })
        }),
{
    let noted = still(TabletModel { last_pen_activity: Some(now), ..state });
    lemma_release_keeps_pen(noted, 10);
}

/// A stylus that is lifted takes its tip off where it is, without pressure.
#[verifier::spinoff_prover]
#[verifier::rlimit(60)]
pub proof fn pen_ends_strokes(state: TabletModel, seen: u128, now: u128)
    requires
        state.slots.len() == 10,
    ensures
        ({
            let t = processed(state, InputEvent::StylusUp, seen, now);
            &&& t.steps.len() >= 2
            &&& t.steps[t.steps.len() - 2].events == seq![
                DeviceEvent { kind: EV_KEY, code: BTN_TOUCH, value: 0 },
                DeviceEvent { kind: EV_ABS, code: ABS_PRESSURE, value: 0 },
            ]
            &&& t.end.stylus == (StylusState { is_down: false, pressure: 0, ..state.stylus })
        }),
{
    let noted = still(TabletModel { last_pen_activity: Some(now), ..state });
    lemma_release_keeps_pen(noted, 10);
}

/// A button of the stylus is told as what it is, pressed or released, and moves
/// nothing. There are two of them: of any other one nothing is told.
#[verifier::spinoff_prover]
#[verifier::rlimit(60)]
pub proof fn pen_tells_buttons(
    state: TabletModel,
    button: u8,
    pressed: bool,
    seen: u128,
    now: u128,
)
    requires
        state.slots.len() == 10,
    ensures
        ({
            let t = processed(state, InputEvent::StylusButton { button, pressed }, seen, now);
            &&& t.end.stylus == state.stylus
            &&& button > 1 ==> forall|i: int|
                0 <= i < t.steps.len() ==> (#[trigger] t.steps[i]).device == Device::Touch
            &&& button <= 1 ==> t.steps.len() >= 2 && t.steps[t.steps.len() - 2].events == seq![
                DeviceEvent {
                    kind: EV_KEY,
                    code: if button == 0 {
                        BTN_STYLUS
                    } else {
                        BTN_STYLUS2
                    },
                    value: if pressed {
                        1
                    } else {
                        0
                    },
                },
            ]
        }),
{
    let noted = still(TabletModel { last_pen_activity: Some(now), ..state });
    lemma_release_keeps_pen(noted, 10);
}

/// A pen that presses harder is told with no less pressure, and one that presses
/// as hard with the same, wherever it moves: of two moves of the same stroke,
/// that with the larger pressure has the larger one told, and nothing else of
/// what is told depends on the pressure.
#[verifier::spinoff_prover]
#[verifier::rlimit(60)]
pub proof fn pressure_is_told_in_order(
    state: TabletModel,
    x: Single,
    y: Single,
    light: Single,
    firm: Single,
    tilt_x: Single,
    tilt_y: Single,
    seen: u128,
    now: u128,
)
    requires
        state.slots.len() == 10,
        state.stylus.is_down,
        !light.is_nan(),
        !firm.is_nan(),
        light.at_most(firm),
    ensures
        ({
            let a = processed(
                state,
                InputEvent::StylusMove { x, y, pressure: light, tilt_x, tilt_y },
                seen,
                now,
            );
            let b = processed(
                state,
                InputEvent::StylusMove { x, y, pressure: firm, tilt_x, tilt_y },
                seen,
                now,
            );
            let told = a.steps[a.steps.len() - 2].events;
            let more = b.steps[b.steps.len() - 2].events;
            &&& a.steps.len() == b.steps.len()
            &&& told[2].value <= more[2].value
            &&& told[2].code == ABS_PRESSURE && more[2].code == ABS_PRESSURE
            &&& told.update(2, more[2]) == more
            &&& light == firm ==> told == more
        }),
{
    let light_move = InputEvent::StylusMove { x, y, pressure: light, tilt_x, tilt_y };
    let firm_move = InputEvent::StylusMove { x, y, pressure: firm, tilt_x, tilt_y };
    let a = processed(state, light_move, seen, now);
    let b = processed(state, firm_move, seen, now);
    pen_follows_moves(state, x, y, light, tilt_x, tilt_y, seen, now);
    pen_follows_moves(state, x, y, firm, tilt_x, tilt_y, seen, now);
    crate::input::single::normalized_keeps_order(light, firm, 2047);
    let told = a.steps[a.steps.len() - 2].events;
    let more = b.steps[b.steps.len() - 2].events;
    assert(told.update(2, more[2]) =~= more);
}

/// What the touch device emits for a pen event is what lifting every touch takes,
/// where touches are lifted at all, and nothing otherwise.
#[verifier::spinoff_prover]
#[verifier::rlimit(60)]
pub proof fn pen_events_lift_first(state: TabletModel, event: InputEvent, seen: u128, now: u128)
    requires
        state.slots.len() == 10,
        event is StylusMove || event is StylusDown || event is StylusUp || event is StylusButton,
    ensures
        ({
            let t = processed(state, event, seen, now);
            let k = t.steps.len() - pen_emissions(state.in_proximity, event);
            let noted = TabletModel { last_pen_activity: Some(now), ..state };
            t.steps.take(k) == if within_a_second(state.last_pen_activity, seen) {
                Seq::empty()
            } else {
                release_all(still(noted)).steps
            }
        }),
{
    let t = processed(state, event, seen, now);
    let k = t.steps.len() - pen_emissions(state.in_proximity, event);
    let noted = still(TabletModel { last_pen_activity: Some(now), ..state });
    lemma_release_keeps_pen(noted, 10);
    let start = if within_a_second(state.last_pen_activity, seen) {
        noted
    } else {
        release_all(noted)
    };
    assert(k == start.steps.len());
    assert(t.steps.take(k) =~= start.steps);
}

} // verus!
