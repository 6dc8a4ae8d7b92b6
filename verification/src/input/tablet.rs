//! The virtual tablet: which events the pen and touch devices emit for the
//! input of the client.
//!
//! The two devices themselves live outside; this module decides what they
//! emit, and which state the tablet keeps when an emission fails.

use vstd::prelude::*;

use crate::clock::Clock;
use crate::input::events::{normalize_to_abs, StylusState, TouchSlot, ABS_MAX, MT_SLOTS};
use crate::input::tablet_laws::{entered_sound, processed_sound, sound};
use crate::input::tablet_model::{
    abs_event, active_count, active_in, any_change, contact_events, ensure_proximity, enter_proximity, initial,
    is_first_free, is_first_of, key_event, pen_event, pen_recent, position_events, processed,
    proximity_events, release_all, release_slots, report_event, select, slot_change, still,
    stylus_updated, sync_slots, sync_touches, tools_off, touch_down, touch_move, touch_up,
    tracking_id, well_formed, with_slot, Device, DeviceEvent, Emission, SlotChange, Step,
    TabletError, TabletModel, TabletState, Trace, ABS_DISTANCE, ABS_MT_POSITION_X,
    ABS_MT_POSITION_Y, ABS_MT_SLOT, ABS_MT_TRACKING_ID, ABS_PRESSURE, ABS_TILT_X, ABS_TILT_Y, ABS_X,
    ABS_Y, BTN_STYLUS, BTN_STYLUS2, BTN_TOOL_DOUBLETAP, BTN_TOOL_FINGER, BTN_TOOL_PEN,
    BTN_TOOL_QUADTAP, BTN_TOOL_TRIPLETAP, BTN_TOUCH, EV_ABS, EV_KEY, EV_MSC, EV_SYN, HOVER_DISTANCE,
    MSC_SERIAL, PALM_REJECTION_TIMEOUT, PEN_SERIAL, SLOT_COUNT, SYN_REPORT, TOUCH_LIFTED,
};
use crate::protocol::packets::{InputEvent, Single};

verus! {

fn key(code: u16, value: i32) -> (event: DeviceEvent)
    ensures
        event == key_event(code, value),
{
    DeviceEvent { kind: EV_KEY, code, value }
}

fn abs(code: u16, value: i32) -> (event: DeviceEvent)
    ensures
        event == abs_event(code, value),
{
    DeviceEvent { kind: EV_ABS, code, value }
}

fn report() -> (event: DeviceEvent)
    ensures
        event == report_event(),
{
    DeviceEvent { kind: EV_SYN, code: SYN_REPORT, value: 0 }
}

/// The emissions that an event asks for, in order. Each comes with the state
/// that the tablet keeps if it fails.
#[derive(Debug, Clone, PartialEq, Eq)]
pub struct EventRun {
    pub emissions: Vec<Emission>,
    pub states: Vec<TabletState>,
}

impl EventRun {
    /// The emissions with their states.
    pub open spec fn steps(&self) -> Seq<Step> {
        Seq::new(
            self.emissions@.len(),
            |i: int|
                Step {
                    device: self.emissions@[i].device,
                    events: self.emissions@[i].events@,
                    state: self.states@[i]@,
                },
        )
    }

    /// Every emission has its state.
    pub open spec fn paired(&self) -> bool {
        self.states@.len() == self.emissions@.len()
    }
}

/// A run that is being put together.
struct Runner {
    state: TabletState,
    run: EventRun,
}

impl Runner {
    spec fn wf(&self) -> bool {
        self.run.paired() && self.state@.slots.len() == 10
    }

    spec fn trace(&self) -> Trace {
        Trace { steps: self.run.steps(), end: self.state@ }
    }

    fn start(state: TabletState) -> (runner: Runner)
        ensures
            runner.wf(),
            runner.trace() == still(state@),
    {
        let runner = Runner {
            state,
            run: EventRun { emissions: Vec::new(), states: Vec::new() },
        };
        assert(runner.trace().steps =~= Seq::<Step>::empty());
        runner
    }

    fn emit(&mut self, device: Device, events: Vec<DeviceEvent>)
        requires
            old(self).wf(),
        ensures
            final(self).wf(),
            final(self).trace() == old(self).trace().emit(device, events@),
            final(self).state == old(self).state,
    {
        self.run.emissions.push(Emission { device, events });
        self.run.states.push(self.state);
        assert(self.run.steps() =~= old(self).trace().emit(device, events@).steps);
    }

    /// Events of the pen, then a report.
    fn pen_frame(&mut self, events: Vec<DeviceEvent>)
        requires
            old(self).wf(),
        ensures
            final(self).wf(),
            final(self).trace() == old(self).trace().pen_frame(events@),
            final(self).state == old(self).state,
    {
        self.emit(Device::Pen, events);
        let last: Vec<DeviceEvent> = vec![report()];
        assert(last@ =~= seq![report_event()]);
        self.emit(Device::Pen, last);
    }

    /// Makes the touch device's events refer to a slot.
    fn select_slot(&mut self, slot: u8)
        requires
            old(self).wf(),
            slot < MT_SLOTS,
        ensures
            final(self).wf(),
            final(self).trace() == select(old(self).trace(), slot as int),
    {
        if self.state.current_slot != slot {
            self.state.current_slot = slot;
            let events: Vec<DeviceEvent> = vec![abs(ABS_MT_SLOT, slot as i32)];
            assert(events@ =~= seq![abs_event(ABS_MT_SLOT, slot as i32)]);
            self.emit(Device::Touch, events);
        }
    }

    fn set_slot(&mut self, i: usize, slot: TouchSlot)
        requires
            old(self).wf(),
            i < 10,
        ensures
            final(self).wf(),
            final(self).trace() == old(self).trace().then_state(
                with_slot(old(self).state@, i as int, slot),
            ),
    {
        self.state.touch_slots[i] = slot;
    }

    /// Lifts every active touch.
    fn release_all_touches(&mut self)
        requires
            old(self).wf(),
        ensures
            final(self).wf(),
            final(self).trace() == release_all(old(self).trace()),
    {
        if count_active(&self.state.touch_slots) == 0 {
            return;
        }
        let mut i: usize = 0;
        while i < SLOT_COUNT
            invariant
                self.wf(),
                i <= SLOT_COUNT,
                self.trace() == release_slots(old(self).trace(), i as nat),
            decreases SLOT_COUNT - i,
        {
            let slot: TouchSlot = self.state.touch_slots[i];
            if slot.active {
                self.select_slot(i as u8);
                self.set_slot(i, TouchSlot { active: false, ..slot });
                let events: Vec<DeviceEvent> = vec![abs(ABS_MT_TRACKING_ID, TOUCH_LIFTED)];
                assert(events@ =~= seq![abs_event(ABS_MT_TRACKING_ID, TOUCH_LIFTED)]);
                self.emit(Device::Touch, events);
            }
            i = i + 1;
        }
        let events: Vec<DeviceEvent> = vec![
            key(BTN_TOOL_FINGER, 0),
            key(BTN_TOOL_DOUBLETAP, 0),
            key(BTN_TOOL_TRIPLETAP, 0),
            key(BTN_TOOL_QUADTAP, 0),
        ];
        assert(events@ =~= tools_off());
        self.emit(Device::Touch, events);
        self.sync_touch();
    }

    fn sync_touch(&mut self)
        requires
            old(self).wf(),
        ensures
            final(self).wf(),
            final(self).trace() == old(self).trace().emit(Device::Touch, seq![report_event()]),
    {
        let last: Vec<DeviceEvent> = vec![report()];
        assert(last@ =~= seq![report_event()]);
        self.emit(Device::Touch, last);
    }

    /// Tells the touch device what has changed in the slots.
    fn sync_touch_state_to_os(&mut self)
        requires
            old(self).wf(),
        ensures
            final(self).wf(),
            final(self).trace() == sync_touches(old(self).trace()),
    {
        let count: usize = count_active(&self.state.touch_slots);
        let ghost start = self.trace();
        let mut something_changed: bool = false;
        let mut i: usize = 0;
        while i < SLOT_COUNT
            invariant
                self.wf(),
                i <= SLOT_COUNT,
                start.end.slots.len() == 10,
                count as nat == active_count(start.end.slots),
                self.trace() == sync_slots(start, i as nat, count as nat),
                something_changed == any_change(start.end.slots, i as nat, count as nat),
                forall|j: int| i <= j < 10 ==> #[trigger] self.state@.slots[j] == start.end.slots[j],
            decreases SLOT_COUNT - i,
        {
            let slot: TouchSlot = self.state.touch_slots[i];
            assert(self.state@.slots[i as int] == start.end.slots[i as int]);
            let ghost change = slot_change(slot, count as nat);
            if slot.active && count >= 2 {
                self.select_slot(i as u8);
                if slot.reported_to_os {
                    let events: Vec<DeviceEvent> = vec![
                        abs(ABS_MT_POSITION_X, slot.x),
                        abs(ABS_MT_POSITION_Y, slot.y),
                    ];
                    assert(events@ =~= seq![
                        abs_event(ABS_MT_POSITION_X, slot.x),
                        abs_event(ABS_MT_POSITION_Y, slot.y),
                    ]);
                    self.emit(Device::Touch, events);
                } else {
                    let events: Vec<DeviceEvent> = vec![
                        abs(ABS_MT_TRACKING_ID, slot.tracking_id),
                        abs(ABS_MT_POSITION_X, slot.x),
                        abs(ABS_MT_POSITION_Y, slot.y),
                    ];
                    assert(events@ =~= seq![
                        abs_event(ABS_MT_TRACKING_ID, slot.tracking_id),
                        abs_event(ABS_MT_POSITION_X, slot.x),
                        abs_event(ABS_MT_POSITION_Y, slot.y),
                    ]);
                    self.emit(Device::Touch, events);
                    self.set_slot(i, TouchSlot { reported_to_os: true, ..slot });
                }
                something_changed = true;
            } else if slot.reported_to_os {
                self.select_slot(i as u8);
                let events: Vec<DeviceEvent> = vec![abs(ABS_MT_TRACKING_ID, TOUCH_LIFTED)];
                assert(events@ =~= seq![abs_event(ABS_MT_TRACKING_ID, TOUCH_LIFTED)]);
                self.emit(Device::Touch, events);
                self.set_slot(i, TouchSlot { reported_to_os: false, ..slot });
                something_changed = true;
            }
            proof {
                let before = any_change(start.end.slots, i as nat, count as nat);
                let after = any_change(start.end.slots, (i + 1) as nat, count as nat);
                assert(start.end.slots[i as int] == slot);
                if before {
                    let k = choose|k: int|
                        0 <= k < i && slot_change(#[trigger] start.end.slots[k], count as nat)
                            != SlotChange::Nothing;
                    assert(slot_change(start.end.slots[k], count as nat) != SlotChange::Nothing);
                    assert(after);
                }
                if change != SlotChange::Nothing {
                    assert(slot_change(start.end.slots[i as int], count as nat)
                        != SlotChange::Nothing);
                    assert(after);
                } else if after {
                    let k = choose|k: int|
                        0 <= k < i + 1 && slot_change(
                            #[trigger] start.end.slots[k],
                            count as nat,
                        ) != SlotChange::Nothing;
                    assert(k < i);
                    assert(before);
                }
            }
            i = i + 1;
        }
        if something_changed {
            self.sync_touch();
        }
    }

    fn enter_proximity(&mut self)
        requires
            old(self).wf(),
        ensures
            final(self).wf(),
            final(self).trace() == enter_proximity(old(self).trace()),
    {
        let mut events: Vec<DeviceEvent> = vec![key(BTN_TOOL_PEN, 1)];
        if !self.state.tool_announced {
            events.push(DeviceEvent { kind: EV_MSC, code: MSC_SERIAL, value: PEN_SERIAL });
            self.state.tool_announced = true;
        }
        events.push(abs(ABS_X, self.state.stylus.x));
        events.push(abs(ABS_Y, self.state.stylus.y));
        events.push(abs(ABS_DISTANCE, HOVER_DISTANCE));
        assert(events@ =~= proximity_events(old(self).state@));
        self.pen_frame(events);
        self.state.in_proximity = true;
    }

    fn ensure_proximity(&mut self)
        requires
            old(self).wf(),
        ensures
            final(self).wf(),
            final(self).trace() == ensure_proximity(old(self).trace()),
    {
        if !self.state.in_proximity {
            self.enter_proximity();
        }
    }

    fn stylus_move(&mut self, event: &InputEvent)
        requires
            old(self).wf(),
            event is StylusMove,
        ensures
            final(self).wf(),
            final(self).trace() == pen_event(old(self).trace(), *event),
    {
        let _ = self.state.stylus.update_from_event(event);
        assert(self.trace() == stylus_updated(old(self).trace(), *event));
        self.ensure_proximity();
        self.emit_stylus_position();
    }

    fn emit_stylus_position(&mut self)
        requires
            old(self).wf(),
        ensures
            final(self).wf(),
            final(self).trace() == old(self).trace().pen_frame(
                position_events(old(self).state.stylus),
            ),
    {
        let stylus: StylusState = self.state.stylus;
        let events: Vec<DeviceEvent> = vec![
            abs(ABS_X, stylus.x),
            abs(ABS_Y, stylus.y),
            abs(
                ABS_PRESSURE,
                if stylus.is_down {
                    stylus.pressure
                } else {
                    0
                },
            ),
            abs(
                ABS_DISTANCE,
                if stylus.is_down {
                    0
                } else {
                    HOVER_DISTANCE
                },
            ),
            abs(ABS_TILT_X, stylus.tilt_x),
            abs(ABS_TILT_Y, stylus.tilt_y),
        ];
        assert(events@ =~= position_events(stylus));
        self.pen_frame(events);
    }

    fn stylus_down(&mut self, event: &InputEvent)
        requires
            old(self).wf(),
            event is StylusDown,
        ensures
            final(self).wf(),
            final(self).trace() == pen_event(old(self).trace(), *event),
    {
        let _ = self.state.stylus.update_from_event(event);
        assert(self.trace() == stylus_updated(old(self).trace(), *event));
        self.ensure_proximity();
        let stylus: StylusState = self.state.stylus;
        let events: Vec<DeviceEvent> = vec![
            key(BTN_TOOL_PEN, 1),
            key(BTN_TOUCH, 1),
            abs(ABS_X, stylus.x),
            abs(ABS_Y, stylus.y),
            abs(
                ABS_PRESSURE,
                if stylus.pressure >= 1 {
                    stylus.pressure
                } else {
                    1
                },
            ),
            abs(ABS_DISTANCE, 0),
            abs(ABS_TILT_X, stylus.tilt_x),
            abs(ABS_TILT_Y, stylus.tilt_y),
        ];
        assert(events@ =~= contact_events(stylus));
        self.pen_frame(events);
    }

    fn stylus_up(&mut self)
        requires
            old(self).wf(),
        ensures
            final(self).wf(),
            final(self).trace() == pen_event(old(self).trace(), InputEvent::StylusUp),
    {
        self.state.stylus.is_down = false;
        self.state.stylus.pressure = 0;
        assert(self.trace() == stylus_updated(old(self).trace(), InputEvent::StylusUp));
        let events: Vec<DeviceEvent> = vec![key(BTN_TOUCH, 0), abs(ABS_PRESSURE, 0)];
        assert(events@ =~= seq![key_event(BTN_TOUCH, 0), abs_event(ABS_PRESSURE, 0)]);
        self.pen_frame(events);
    }

    fn stylus_button(&mut self, button: u8, pressed: bool)
        requires
            old(self).wf(),
        ensures
            final(self).wf(),
            final(self).trace() == pen_event(
                old(self).trace(),
                InputEvent::StylusButton { button, pressed },
            ),
    {
        let code: u16 = match button {
            0 => BTN_STYLUS,
            1 => BTN_STYLUS2,
            _ => return,
        };
        self.ensure_proximity();
        let value: i32 = if pressed {
            1
        } else {
            0
        };
        let events: Vec<DeviceEvent> = vec![key(code, value)];
        assert(events@ =~= seq![key_event(code, value)]);
        self.pen_frame(events);
    }

    fn touch_down(&mut self, id: u32, x: Single, y: Single)
        requires
            old(self).wf(),
            old(self).run.steps() == Seq::<Step>::empty(),
        ensures
            final(self).wf(),
            final(self).trace() == touch_down(old(self).state@, id, x, y),
    {
        match find_free_slot(&self.state.touch_slots) {
            None => {},
            Some(i) => {
                proof {
                    lemma_first_free_unique(self.state@.slots, i as int);
                }
                self.set_slot(
                    i as usize,
                    TouchSlot {
                        tracking_id: signed_id(id),
                        x: normalize_to_abs(x, ABS_MAX),
                        y: normalize_to_abs(y, ABS_MAX),
                        active: true,
                        reported_to_os: false,
                    },
                );
                self.sync_touch_state_to_os();
            },
        }
    }

    fn touch_move(&mut self, id: u32, x: Single, y: Single)
        requires
            old(self).wf(),
            old(self).run.steps() == Seq::<Step>::empty(),
        ensures
            final(self).wf(),
            final(self).trace() == touch_move(old(self).state@, id, x, y),
    {
        match find_slot_for_id(&self.state.touch_slots, id) {
            None => {},
            Some(i) => {
                proof {
                    lemma_first_of_unique(self.state@.slots, tracking_id(id), i as int);
                }
                let slot: TouchSlot = self.state.touch_slots[i as usize];
                self.set_slot(
                    i as usize,
                    TouchSlot {
                        x: normalize_to_abs(x, ABS_MAX),
                        y: normalize_to_abs(y, ABS_MAX),
                        ..slot
                    },
                );
                self.sync_touch_state_to_os();
            },
        }
    }

    fn touch_up(&mut self, id: u32)
        requires
            old(self).wf(),
            old(self).run.steps() == Seq::<Step>::empty(),
        ensures
            final(self).wf(),
            final(self).trace() == touch_up(old(self).state@, id),
    {
        match find_slot_for_id(&self.state.touch_slots, id) {
            None => {},
            Some(i) => {
                proof {
                    lemma_first_of_unique(self.state@.slots, tracking_id(id), i as int);
                }
                let slot: TouchSlot = self.state.touch_slots[i as usize];
                self.set_slot(i as usize, TouchSlot { active: false, ..slot });
                self.sync_touch_state_to_os();
            },
        }
    }
}

proof fn lemma_first_free_unique(slots: Seq<TouchSlot>, i: int)
    requires
        is_first_free(slots, i),
    ensures
        i == choose|j: int| is_first_free(slots, j),
{
    let j = choose|j: int| is_first_free(slots, j);
    assert(is_first_free(slots, j));
    if i < j {
        assert(slots[i].active);
    }
    if j < i {
        assert(slots[j].active);
    }
}

proof fn lemma_first_of_unique(slots: Seq<TouchSlot>, id: i32, i: int)
    requires
        is_first_of(slots, id, i),
    ensures
        i == choose|j: int| is_first_of(slots, id, j),
{
    let j = choose|j: int| is_first_of(slots, id, j);
    assert(is_first_of(slots, id, j));
    if i < j {
        assert(!(slots[i].active && slots[i].tracking_id == id));
    }
    if j < i {
        assert(!(slots[j].active && slots[j].tracking_id == id));
    }
}

/// The touch ID of the client as a tracking ID: the same 32 bits, signed.
fn signed_id(id: u32) -> (signed: i32)
    ensures
        signed == tracking_id(id),
{
    if id < 0x8000_0000 {
        id as i32
    } else {
        (id as i64 - 0x1_0000_0000) as i32
    }
}

/// The number of active touches.
fn count_active(slots: &[TouchSlot; 10]) -> (count: usize)
    ensures
        count as nat == active_count(slots@),
        count <= 10,
{
    let mut count: usize = 0;
    let mut i: usize = 0;
    while i < SLOT_COUNT
        invariant
            i <= SLOT_COUNT,
            count as nat == active_in(slots@, i as nat),
            count <= i,
        decreases SLOT_COUNT - i,
    {
        if slots[i].active {
            count = count + 1;
        }
        i = i + 1;
    }
    count
}

/// The first slot that holds the touch `id`.
fn find_slot_for_id(slots: &[TouchSlot; 10], id: u32) -> (slot: Option<u8>)
    ensures
        match slot {
            Some(i) => is_first_of(slots@, tracking_id(id), i as int),
            None => forall|i: int| !is_first_of(slots@, tracking_id(id), i),
        },
{
    let wanted: i32 = signed_id(id);
    let mut i: usize = 0;
    while i < SLOT_COUNT
        invariant
            i <= SLOT_COUNT,
            wanted == tracking_id(id),
            forall|j: int|
                0 <= j < i ==> !((#[trigger] slots@[j]).active && slots@[j].tracking_id == wanted),
        decreases SLOT_COUNT - i,
    {
        if slots[i].active && slots[i].tracking_id == wanted {
            return Some(i as u8);
        }
        i = i + 1;
    }
    None
}

/// The first slot without a touch.
fn find_free_slot(slots: &[TouchSlot; 10]) -> (slot: Option<u8>)
    ensures
        match slot {
            Some(i) => is_first_free(slots@, i as int),
            None => forall|i: int| !is_first_free(slots@, i),
        },
{
    let mut i: usize = 0;
    while i < SLOT_COUNT
        invariant
            i <= SLOT_COUNT,
            forall|j: int| 0 <= j < i ==> (#[trigger] slots@[j]).active,
        decreases SLOT_COUNT - i,
    {
        if !slots[i].active {
            return Some(i as u8);
        }
        i = i + 1;
    }
    None
}

/// A virtual input system that separates pen and touch into two devices.
#[derive(Debug, Clone)]
pub struct VirtualTablet {
    state: TabletState,
    clock: Clock,
    width: u32,
    height: u32,
}

impl View for VirtualTablet {
    type V = TabletModel;

    closed spec fn view(&self) -> TabletModel {
        self.state@
    }
}

impl VirtualTablet {
    /// Whether the state is one that the tablet can be in.
    pub open spec fn wf(&self) -> bool {
        well_formed(self@)
    }

    /// The coordinate space.
    pub closed spec fn size(&self) -> (u32, u32) {
        (self.width, self.height)
    }

    /// The clock that the tablet goes by.
    pub closed spec fn clock(&self) -> Clock {
        self.clock
    }

    /// Creates a tablet that nothing has happened to.
    ///
    /// The width and height define the coordinate space for input mapping.
    pub fn new(width: u32, height: u32) -> (tablet: VirtualTablet)
        ensures
            tablet.wf(),
            tablet@ == initial(),
            tablet.size() == (width, height),
    {
        let empty: TouchSlot = TouchSlot::default();
        let tablet = VirtualTablet {
            state: TabletState {
                stylus: StylusState::default(),
                in_proximity: false,
                tool_announced: false,
                last_pen_activity: None,
                touch_slots: [empty; 10],
                current_slot: 0,
            },
            clock: Clock::start(),
            width,
            height,
        };
        assert(tablet@.slots =~= initial().slots);
        tablet
    }

    /// Get the coordinate space dimensions.
    pub fn dimensions(&self) -> (size: (u32, u32))
        ensures
            size == self.size(),
    {
        (self.width, self.height)
    }

    /// What the tablet remembers.
    pub fn state(&self) -> (state: TabletState)
        ensures
            state@ == self@,
    {
        self.state
    }

    /// Process an input event from the protocol, at the current time.
    pub fn process_event(&mut self, event: &InputEvent) -> (run: EventRun)
        requires
            old(self).wf(),
        ensures
            final(self).wf(),
            final(self).size() == old(self).size(),
            final(self).clock() == old(self).clock(),
            run.paired(),
            sound(Trace { steps: run.steps(), end: final(self)@ }),
            exists|seen: u128, now: u128|
                old(self).clock().shows(seen) && old(self).clock().shows(now)
                    && #[trigger] processed(old(self)@, *event, seen, now) == (Trace {
                    steps: run.steps(),
                    end: final(self)@,
                }),
    {
        let seen: u128 = self.clock.now();
        let now: u128 = self.clock.now();
        self.process_event_at(event, seen, now)
    }

    /// Process an input event, with the clock at `seen` when palm rejection is
    /// decided and at `now` when pen activity is noted.
    pub fn process_event_at(&mut self, event: &InputEvent, seen: u128, now: u128) -> (run: EventRun)
        requires
            old(self).wf(),
        ensures
            final(self).wf(),
            final(self).size() == old(self).size(),
            final(self).clock() == old(self).clock(),
            run.paired(),
            sound(Trace { steps: run.steps(), end: final(self)@ }),
            processed(old(self)@, *event, seen, now) == (Trace {
                steps: run.steps(),
                end: final(self)@,
            }),
    {
        proof {
            processed_sound(self@, *event, seen, now);
        }
        let recent: bool = match self.state.last_pen_activity {
            Some(at) => seen < at || seen - at < PALM_REJECTION_TIMEOUT,
            None => false,
        };
        assert(recent == pen_recent(self@.last_pen_activity, seen));
        let mut runner: Runner = Runner::start(self.state);
        match event {
            InputEvent::TouchDown { id, x, y } => {
                if !recent {
                    runner.touch_down(*id, *x, *y);
                }
            },
            InputEvent::TouchMove { id, x, y } => {
                if !recent {
                    runner.touch_move(*id, *x, *y);
                }
            },
            InputEvent::TouchUp { id } => runner.touch_up(*id),
            _ => {
                runner.state.last_pen_activity = Some(now);
                assert(runner.trace() == still(
                    TabletModel { last_pen_activity: Some(now), ..self@ },
                ));
                if !recent {
                    runner.release_all_touches();
                }
                match event {
                    InputEvent::StylusMove { .. } => runner.stylus_move(event),
                    InputEvent::StylusDown { .. } => runner.stylus_down(event),
                    InputEvent::StylusUp => runner.stylus_up(),
                    InputEvent::StylusButton { button, pressed } => {
                        runner.stylus_button(*button, *pressed)
                    },
                    _ => {},
                }
            },
        }
        self.state = runner.state;
        assert(runner.trace() == processed(old(self)@, *event, seen, now));
        runner.run
    }

    /// Bring the pen into proximity where it is: announce the tool, with its
    /// serial the first time, and say where it hovers.
    pub fn enter_proximity(&mut self) -> (run: EventRun)
        requires
            old(self).wf(),
        ensures
            final(self).wf(),
            final(self).size() == old(self).size(),
            final(self).clock() == old(self).clock(),
            run.paired(),
            sound(Trace { steps: run.steps(), end: final(self)@ }),
            enter_proximity(still(old(self)@)) == (Trace {
                steps: run.steps(),
                end: final(self)@,
            }),
    {
        proof {
            entered_sound(still(self@));
        }
        let mut runner: Runner = Runner::start(self.state);
        runner.enter_proximity();
        self.state = runner.state;
        assert(runner.trace() == enter_proximity(still(old(self)@)));
        runner.run
    }

    /// Takes note that the emission `index` of a run has failed: the emissions
    /// after it are not made, and the tablet keeps the state it had there.
    pub fn emission_failed(&mut self, run: &EventRun, index: usize, message: String) -> (error:
        TabletError)
        requires
            run.paired(),
            index < run.emissions@.len(),
            well_formed(run.steps()[index as int].state),
        ensures
            final(self).wf(),
            final(self).size() == old(self).size(),
            final(self).clock() == old(self).clock(),
            final(self)@ == run.steps()[index as int].state,
            error == TabletError::EventEmit(message),
    {
        self.state = run.states[index];
        TabletError::EventEmit(message)
    }
}

} // verus!
