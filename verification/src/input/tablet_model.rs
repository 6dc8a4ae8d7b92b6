//! What the virtual tablet does: which events the pen and touch devices emit
//! for the input of the client, and which state the tablet keeps.

use vstd::prelude::*;

use crate::input::events::{empty_slot, StylusState, TouchSlot, ABS_MAX, MT_SLOTS};
use crate::input::single::normalized;
use crate::protocol::packets::{InputEvent, Single};
use crate::text::{append_decimal, decimal};

verus! {

/// Event types and codes of the Linux input subsystem.
pub const EV_SYN: u16 = 0x00;

pub const EV_KEY: u16 = 0x01;

pub const EV_ABS: u16 = 0x03;

pub const EV_MSC: u16 = 0x04;

pub const SYN_REPORT: u16 = 0x00;

pub const MSC_SERIAL: u16 = 0x00;

pub const BTN_TOOL_PEN: u16 = 0x140;

pub const BTN_TOOL_RUBBER: u16 = 0x141;

pub const BTN_TOOL_FINGER: u16 = 0x145;

pub const BTN_TOUCH: u16 = 0x14a;

pub const BTN_STYLUS: u16 = 0x14b;

pub const BTN_STYLUS2: u16 = 0x14c;

pub const BTN_TOOL_DOUBLETAP: u16 = 0x14d;

pub const BTN_TOOL_TRIPLETAP: u16 = 0x14e;

pub const BTN_TOOL_QUADTAP: u16 = 0x14f;

pub const ABS_X: u16 = 0x00;

pub const ABS_Y: u16 = 0x01;

pub const ABS_PRESSURE: u16 = 0x18;

pub const ABS_DISTANCE: u16 = 0x19;

pub const ABS_TILT_X: u16 = 0x1a;

pub const ABS_TILT_Y: u16 = 0x1b;

pub const ABS_MT_SLOT: u16 = 0x2f;

pub const ABS_MT_POSITION_X: u16 = 0x35;

pub const ABS_MT_POSITION_Y: u16 = 0x36;

pub const ABS_MT_TRACKING_ID: u16 = 0x39;

/// Serial number of the pen tool, by which applications track it.
pub const PEN_SERIAL: i32 = 0x12345678;

/// Tracking ID that ends a touch.
pub const TOUCH_LIFTED: i32 = -1;

/// Distance that a hovering pen reports.
pub const HOVER_DISTANCE: i32 = 10;

/// How long touches are ignored after the pen was active, in nanoseconds.
pub const PALM_REJECTION_TIMEOUT: u128 = 1_000_000_000;

/// Number of multitouch slots, as an index bound.
pub const SLOT_COUNT: usize = 10;

/// Errors that can occur when creating or using a virtual tablet.
#[derive(Debug, Clone, PartialEq, Eq)]
pub enum TabletError {
    DeviceCreation(String),
    EventEmit(String),
    InvalidSlot { slot: u8, max: u8 },
}

impl TabletError {
    /// What the error says.
    pub open spec fn text(&self) -> Seq<char> {
        match self {
            TabletError::DeviceCreation(cause) => "failed to create virtual device: "@ + cause@,
            TabletError::EventEmit(cause) => "failed to emit event: "@ + cause@,
            TabletError::InvalidSlot { slot, max } => "invalid touch slot: "@ + decimal(
                *slot as nat,
            ) + " (max "@ + decimal(*max as nat) + ")"@,
        }
    }

    /// What the error says.
    pub fn message(&self) -> (text: String)
        ensures
            text@ == self.text(),
    {
        let mut text: String = String::new();
        match self {
            TabletError::DeviceCreation(cause) => {
                text.append("failed to create virtual device: ");
                text.append(cause);
            },
            TabletError::EventEmit(cause) => {
                text.append("failed to emit event: ");
                text.append(cause);
            },
            TabletError::InvalidSlot { slot, max } => {
                text.append("invalid touch slot: ");
                append_decimal(&mut text, *slot as u64);
                text.append(" (max ");
                append_decimal(&mut text, *max as u64);
                text.append(")");
            },
        }
        assert(text@ =~= self.text());
        text
    }
}

/// An event of a device: type, code and value.
#[derive(Debug, Clone, Copy, PartialEq, Eq, Structural)]
pub struct DeviceEvent {
    pub kind: u16,
    pub code: u16,
    pub value: i32,
}

/// The two devices of the tablet.
#[derive(Debug, Clone, Copy, PartialEq, Eq, Structural)]
pub enum Device {
    Pen,
    Touch,
}

/// Events that a device emits together.
#[derive(Debug, Clone, PartialEq, Eq)]
pub struct Emission {
    pub device: Device,
    pub events: Vec<DeviceEvent>,
}

pub open spec fn key_event(code: u16, value: i32) -> DeviceEvent {
    DeviceEvent { kind: EV_KEY, code, value }
}

pub open spec fn abs_event(code: u16, value: i32) -> DeviceEvent {
    DeviceEvent { kind: EV_ABS, code, value }
}

pub open spec fn report_event() -> DeviceEvent {
    DeviceEvent { kind: EV_SYN, code: SYN_REPORT, value: 0 }
}

pub open spec fn serial_event() -> DeviceEvent {
    DeviceEvent { kind: EV_MSC, code: MSC_SERIAL, value: PEN_SERIAL }
}

/// What the tablet remembers between events.
#[derive(Debug, Clone, Copy, PartialEq, Eq)]
pub struct TabletState {
    pub stylus: StylusState,
    pub in_proximity: bool,
    /// Whether the serial of the tool has been sent (once per session).
    pub tool_announced: bool,
    /// When the pen was last active, in nanoseconds.
    pub last_pen_activity: Option<u128>,
    pub touch_slots: [TouchSlot; 10],
    /// The slot that the touch device's events refer to.
    pub current_slot: u8,
}

/// What a [`TabletState`] says.
pub struct TabletModel {
    pub stylus: StylusState,
    pub in_proximity: bool,
    pub tool_announced: bool,
    pub last_pen_activity: Option<u128>,
    pub slots: Seq<TouchSlot>,
    pub current_slot: u8,
}

impl View for TabletState {
    type V = TabletModel;

    open spec fn view(&self) -> TabletModel {
        TabletModel {
            stylus: self.stylus,
            in_proximity: self.in_proximity,
            tool_announced: self.tool_announced,
            last_pen_activity: self.last_pen_activity,
            slots: self.touch_slots@,
            current_slot: self.current_slot,
        }
    }
}

/// An emission, together with the state that the tablet is in while it is
/// made and keeps if it fails.
pub struct Step {
    pub device: Device,
    pub events: Seq<DeviceEvent>,
    pub state: TabletModel,
}

/// Emissions in order, and the state once all of them have been made.
pub struct Trace {
    pub steps: Seq<Step>,
    pub end: TabletModel,
}

impl Trace {
    /// The trace with one more emission.
    pub open spec fn emit(self, device: Device, events: Seq<DeviceEvent>) -> Trace {
        Trace { steps: self.steps.push(Step { device, events, state: self.end }), end: self.end }
    }

    /// The trace with another state at its end.
    pub open spec fn then_state(self, end: TabletModel) -> Trace {
        Trace { steps: self.steps, end }
    }

    /// The trace with a frame of the pen: events, then a report.
    pub open spec fn pen_frame(self, events: Seq<DeviceEvent>) -> Trace {
        self.emit(Device::Pen, events).emit(Device::Pen, seq![report_event()])
    }
}

/// No emissions.
pub open spec fn still(state: TabletModel) -> Trace {
    Trace { steps: Seq::empty(), end: state }
}

/// Whether the pen was active less than a second before `seen`.
pub open spec fn pen_recent(last: Option<u128>, seen: u128) -> bool {
    last matches Some(at) && seen - at < PALM_REJECTION_TIMEOUT
}

// ---------------------------------------------------------------------------
// Touch
// ---------------------------------------------------------------------------

/// The touch ID of the client as a tracking ID: the same 32 bits, signed.
pub open spec fn tracking_id(id: u32) -> i32 {
    if id < 0x8000_0000 {
        id as i32
    } else {
        (id - 0x1_0000_0000) as i32
    }
}

/// Makes the touch device's events refer to a slot.
pub open spec fn select(t: Trace, slot: int) -> Trace {
    if t.end.current_slot == slot {
        t
    } else {
        t.then_state(TabletModel { current_slot: slot as u8, ..t.end }).emit(
            Device::Touch,
            seq![abs_event(ABS_MT_SLOT, slot as i32)],
        )
    }
}

pub open spec fn with_slot(state: TabletModel, i: int, slot: TouchSlot) -> TabletModel {
    TabletModel { slots: state.slots.update(i, slot), ..state }
}

/// Lifts the touch in a slot, if there is one.
pub open spec fn release_slot(t: Trace, i: int) -> Trace {
    if t.end.slots[i].active {
        let selected = select(t, i);
        selected.then_state(
            with_slot(selected.end, i, TouchSlot { active: false, ..t.end.slots[i] }),
        ).emit(Device::Touch, seq![abs_event(ABS_MT_TRACKING_ID, TOUCH_LIFTED)])
    } else {
        t
    }
}

/// Lifts the touches in the first `n` slots, in order.
pub open spec fn release_slots(t: Trace, n: nat) -> Trace
    decreases n,
{
    if n == 0 {
        t
    } else {
        release_slot(release_slots(t, (n - 1) as nat), n - 1)
    }
}

/// The number of active touches in the first `n` slots.
pub open spec fn active_in(slots: Seq<TouchSlot>, n: nat) -> nat
    decreases n,
{
    if n == 0 {
        0
    } else {
        active_in(slots, (n - 1) as nat) + if slots[n - 1].active {
            1nat
        } else {
            0
        }
    }
}

/// The number of active touches.
pub open spec fn active_count(slots: Seq<TouchSlot>) -> nat {
    active_in(slots, slots.len())
}

pub open spec fn tools_off() -> Seq<DeviceEvent> {
    seq![
        key_event(BTN_TOOL_FINGER, 0),
        key_event(BTN_TOOL_DOUBLETAP, 0),
        key_event(BTN_TOOL_TRIPLETAP, 0),
        key_event(BTN_TOOL_QUADTAP, 0),
    ]
}

/// Lifts every active touch.
pub open spec fn release_all(t: Trace) -> Trace {
    if active_count(t.end.slots) == 0 {
        t
    } else {
        release_slots(t, 10).emit(Device::Touch, tools_off()).emit(
            Device::Touch,
            seq![report_event()],
        )
    }
}

/// What has to be told of a touch slot.
#[derive(Clone, Copy, PartialEq, Eq, Structural)]
pub enum SlotChange {
    Nothing,
    Show,
    Hide,
    Update,
}

/// What has to be told of a slot, with `count` active touches in all: fewer
/// than two touches are hidden.
pub open spec fn slot_change(slot: TouchSlot, count: nat) -> SlotChange {
    let wanted = slot.active && count >= 2;
    if wanted && !slot.reported_to_os {
        SlotChange::Show
    } else if wanted {
        SlotChange::Update
    } else if slot.reported_to_os {
        SlotChange::Hide
    } else {
        SlotChange::Nothing
    }
}

/// Tells the touch device of one slot.
pub open spec fn sync_slot(t: Trace, i: int, count: nat) -> Trace {
    let slot = t.end.slots[i];
    match slot_change(slot, count) {
        SlotChange::Nothing => t,
        SlotChange::Show => {
            let told = select(t, i).emit(
                Device::Touch,
                seq![
                    abs_event(ABS_MT_TRACKING_ID, slot.tracking_id),
                    abs_event(ABS_MT_POSITION_X, slot.x),
                    abs_event(ABS_MT_POSITION_Y, slot.y),
                ],
            );
            told.then_state(with_slot(told.end, i, TouchSlot { reported_to_os: true, ..slot }))
        },
        SlotChange::Hide => {
            let told = select(t, i).emit(
                Device::Touch,
                seq![abs_event(ABS_MT_TRACKING_ID, TOUCH_LIFTED)],
            );
            told.then_state(with_slot(told.end, i, TouchSlot { reported_to_os: false, ..slot }))
        },
        SlotChange::Update => select(t, i).emit(
            Device::Touch,
            seq![abs_event(ABS_MT_POSITION_X, slot.x), abs_event(ABS_MT_POSITION_Y, slot.y)],
        ),
    }
}

/// Tells the touch device of the first `n` slots, in order.
pub open spec fn sync_slots(t: Trace, n: nat, count: nat) -> Trace
    decreases n,
{
    if n == 0 {
        t
    } else {
        sync_slot(sync_slots(t, (n - 1) as nat, count), n - 1, count)
    }
}

/// Whether anything has to be told of the first `n` slots.
pub open spec fn any_change(slots: Seq<TouchSlot>, n: nat, count: nat) -> bool {
    exists|i: int| 0 <= i < n && slot_change(#[trigger] slots[i], count) != SlotChange::Nothing
}

/// Tells the touch device what has changed, and reports if anything has.
pub open spec fn sync_touches(t: Trace) -> Trace {
    let count = active_count(t.end.slots);
    let told = sync_slots(t, 10, count);
    if any_change(t.end.slots, 10, count) {
        told.emit(Device::Touch, seq![report_event()])
    } else {
        told
    }
}

/// Whether `i` is the first slot without a touch.
pub open spec fn is_first_free(slots: Seq<TouchSlot>, i: int) -> bool {
    &&& 0 <= i < slots.len()
    &&& !slots[i].active
    &&& forall|j: int| 0 <= j < i ==> (#[trigger] slots[j]).active
}

/// Whether `i` is the first slot with the touch `id`.
pub open spec fn is_first_of(slots: Seq<TouchSlot>, id: i32, i: int) -> bool {
    &&& 0 <= i < slots.len()
    &&& slots[i].active && slots[i].tracking_id == id
    &&& forall|j: int|
        0 <= j < i ==> !((#[trigger] slots[j]).active && slots[j].tracking_id == id)
}

/// A finger goes down: it takes the first free slot, if there is one.
pub open spec fn touch_down(state: TabletModel, id: u32, x: Single, y: Single) -> Trace {
    if exists|i: int| is_first_free(state.slots, i) {
        let i = choose|i: int| is_first_free(state.slots, i);
        sync_touches(
            still(
                with_slot(
                    state,
                    i,
                    TouchSlot {
                        tracking_id: tracking_id(id),
                        x: normalized(x, ABS_MAX),
                        y: normalized(y, ABS_MAX),
                        active: true,
                        reported_to_os: false,
                    },
                ),
            ),
        )
    } else {
        still(state)
    }
}

/// A finger moves: its slot takes the new position, if it has one.
pub open spec fn touch_move(state: TabletModel, id: u32, x: Single, y: Single) -> Trace {
    if exists|i: int| is_first_of(state.slots, tracking_id(id), i) {
        let i = choose|i: int| is_first_of(state.slots, tracking_id(id), i);
        sync_touches(
            still(
                with_slot(
                    state,
                    i,
                    TouchSlot {
                        x: normalized(x, ABS_MAX),
                        y: normalized(y, ABS_MAX),
                        ..state.slots[i]
                    },
                ),
            ),
        )
    } else {
        still(state)
    }
}

/// A finger goes up: its slot becomes free, if it has one.
pub open spec fn touch_up(state: TabletModel, id: u32) -> Trace {
    if exists|i: int| is_first_of(state.slots, tracking_id(id), i) {
        let i = choose|i: int| is_first_of(state.slots, tracking_id(id), i);
        sync_touches(
            still(with_slot(state, i, TouchSlot { active: false, ..state.slots[i] })),
        )
    } else {
        still(state)
    }
}

// ---------------------------------------------------------------------------
// Pen
// ---------------------------------------------------------------------------

/// What announces the pen: the tool, its serial the first time, and where it
/// hovers.
pub open spec fn proximity_events(state: TabletModel) -> Seq<DeviceEvent> {
    seq![key_event(BTN_TOOL_PEN, 1)] + (if state.tool_announced {
        Seq::empty()
    } else {
        seq![serial_event()]
    }) + seq![
        abs_event(ABS_X, state.stylus.x),
        abs_event(ABS_Y, state.stylus.y),
        abs_event(ABS_DISTANCE, HOVER_DISTANCE),
    ]
}

/// Brings the pen into proximity.
pub open spec fn enter_proximity(t: Trace) -> Trace {
    let announced = TabletModel { tool_announced: true, ..t.end };
    t.then_state(announced).pen_frame(proximity_events(t.end)).then_state(
        TabletModel { in_proximity: true, ..announced },
    )
}

/// Brings the pen into proximity, unless it is there already.
pub open spec fn ensure_proximity(t: Trace) -> Trace {
    if t.end.in_proximity {
        t
    } else {
        enter_proximity(t)
    }
}

/// Position, pressure, distance and tilt of the pen. A hovering pen has no
/// pressure.
pub open spec fn position_events(stylus: StylusState) -> Seq<DeviceEvent> {
    seq![
        abs_event(ABS_X, stylus.x),
        abs_event(ABS_Y, stylus.y),
        abs_event(ABS_PRESSURE, if stylus.is_down { stylus.pressure } else { 0 }),
        abs_event(ABS_DISTANCE, if stylus.is_down { 0 } else { HOVER_DISTANCE }),
        abs_event(ABS_TILT_X, stylus.tilt_x),
        abs_event(ABS_TILT_Y, stylus.tilt_y),
    ]
}

/// What starts a stroke. Its pressure is at least 1.
pub open spec fn contact_events(stylus: StylusState) -> Seq<DeviceEvent> {
    seq![
        key_event(BTN_TOOL_PEN, 1),
        key_event(BTN_TOUCH, 1),
        abs_event(ABS_X, stylus.x),
        abs_event(ABS_Y, stylus.y),
        abs_event(ABS_PRESSURE, if stylus.pressure >= 1 { stylus.pressure } else { 1 }),
        abs_event(ABS_DISTANCE, 0),
        abs_event(ABS_TILT_X, stylus.tilt_x),
        abs_event(ABS_TILT_Y, stylus.tilt_y),
    ]
}

/// The trace with the stylus updated by an event.
pub open spec fn stylus_updated(t: Trace, event: InputEvent) -> Trace {
    t.then_state(TabletModel { stylus: t.end.stylus.updated(event), ..t.end })
}

/// The emissions for a stylus event.
pub open spec fn pen_event(t: Trace, event: InputEvent) -> Trace {
    match event {
        InputEvent::StylusMove { .. } => {
            let near = ensure_proximity(stylus_updated(t, event));
            near.pen_frame(position_events(near.end.stylus))
        },
        InputEvent::StylusDown { .. } => {
            let near = ensure_proximity(stylus_updated(t, event));
            near.pen_frame(contact_events(near.end.stylus))
        },
        InputEvent::StylusUp => stylus_updated(t, event).pen_frame(
            seq![key_event(BTN_TOUCH, 0), abs_event(ABS_PRESSURE, 0)],
        ),
        InputEvent::StylusButton { button, pressed } => if button <= 1 {
            ensure_proximity(t).pen_frame(
                seq![
                    key_event(
                        if button == 0 { BTN_STYLUS } else { BTN_STYLUS2 },
                        if pressed { 1 } else { 0 },
                    ),
                ],
            )
        } else {
            t
        },
        _ => t,
    }
}

/// The emissions for an event, with the clock at `seen` when palm rejection
/// is decided and at `now` when pen activity is noted.
///
/// The pen, when it becomes active, lifts every touch; while it is active,
/// fingers going down or moving are ignored.
pub open spec fn processed(
    state: TabletModel,
    event: InputEvent,
    seen: u128,
    now: u128,
) -> Trace {
    let recent = pen_recent(state.last_pen_activity, seen);
    match event {
        InputEvent::TouchDown { id, x, y } => if recent {
            still(state)
        } else {
            touch_down(state, id, x, y)
        },
        InputEvent::TouchMove { id, x, y } => if recent {
            still(state)
        } else {
            touch_move(state, id, x, y)
        },
        InputEvent::TouchUp { id } => touch_up(state, id),
        _ => {
            let noted = still(TabletModel { last_pen_activity: Some(now), ..state });
            pen_event(if recent { noted } else { release_all(noted) }, event)
        },
    }
}

/// Whether the state is one that the tablet can be in.
pub open spec fn well_formed(state: TabletModel) -> bool {
    &&& state.slots.len() == 10
    &&& state.current_slot < MT_SLOTS
    &&& state.stylus.in_range()
    &&& forall|i: int|
        0 <= i < 10 ==> 0 <= (#[trigger] state.slots[i]).x <= ABS_MAX && 0 <= state.slots[i].y
            <= ABS_MAX
}

/// The state of a new tablet.
pub open spec fn initial() -> TabletModel {
    TabletModel {
        stylus: StylusState { x: 0, y: 0, pressure: 0, tilt_x: 0, tilt_y: 0, is_down: false },
        in_proximity: false,
        tool_announced: false,
        last_pen_activity: None,
        slots: Seq::new(10, |i: int| empty_slot()),
        current_slot: 0,
    }
}

} // verus!
