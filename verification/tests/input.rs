use drawing_tablet::input::descriptor::{
    DeviceSetup, TabletDescriptor, BUS_USB, BUS_VIRTUAL, PROP_DIRECT, PROP_POINTER,
};
use drawing_tablet::input::events::{
    normalize_to_abs, tilt_to_abs, StylusState, TouchSlot, ABS_MAX, PRESSURE_MAX,
};
use drawing_tablet::input::gesture::{GestureDetector, MatchedPair};
use drawing_tablet::input::retimer::{
    EventRetimer, MAX_BUFFER_SIZE, MAX_DELAY, MIN_INTERVAL,
};
use drawing_tablet::input::tablet_model::{
    ABS_DISTANCE, ABS_MT_POSITION_X, ABS_MT_POSITION_Y, ABS_MT_SLOT, ABS_MT_TRACKING_ID,
    ABS_PRESSURE, ABS_TILT_X, ABS_TILT_Y, ABS_X, ABS_Y, BTN_STYLUS, BTN_STYLUS2,
    BTN_TOOL_DOUBLETAP, BTN_TOOL_FINGER, BTN_TOOL_PEN, BTN_TOOL_QUADTAP, BTN_TOOL_RUBBER,
    BTN_TOOL_TRIPLETAP, BTN_TOUCH, EV_ABS, EV_KEY, EV_MSC, EV_SYN, MSC_SERIAL, SYN_REPORT,
};
use drawing_tablet::protocol::packets::{InputEvent, InputPacket, Single};
use evdev::{AbsoluteAxisType, EventType, Key, MiscType, Synchronization};

fn single(value: f32) -> Single {
    Single { bits: value.to_bits() }
}

fn interesting() -> Vec<f32> {
    let mut values: Vec<f32> = vec![
        0.0,
        -0.0,
        1.0,
        -1.0,
        0.5,
        0.25,
        0.1,
        0.2,
        0.3,
        0.7,
        0.9,
        0.99999994,
        1.0000001,
        1e-10,
        1e-38,
        1e-45,
        3.4e38,
        -3.4e38,
        89.99,
        90.0,
        90.5,
        -89.99,
        -90.0,
        -90.5,
        15.7,
        -15.7,
        f32::NAN,
        -f32::NAN,
        f32::INFINITY,
        f32::NEG_INFINITY,
        f32::MIN_POSITIVE,
        1.5259022e-5,
        1.5259021e-5,
        0.99998474,
    ];
    let mut bits: u32 = 12345;
    for _ in 0..20000 {
        bits = bits.wrapping_mul(1664525).wrapping_add(1013904223);
        values.push(f32::from_bits(bits));
        values.push((bits >> 8) as f32 / 16777216.0);
        values.push((bits >> 8) as f32 / 16777216.0 * 200.0 - 100.0);
    }
    values
}

#[test]
fn coordinates_are_those_of_floating_point() {
    for value in interesting() {
        for max in [ABS_MAX, PRESSURE_MAX, 1, 0, 90, 1000, 16777215] {
            let expected = (value.clamp(0.0, 1.0) * max as f32) as i32;
            assert_eq!(normalize_to_abs(single(value), max), expected, "{value} {max}");
        }
    }
}

#[test]
fn tilts_are_those_of_floating_point() {
    for value in interesting() {
        let expected = value.clamp(-90.0, 90.0) as i32;
        assert_eq!(tilt_to_abs(single(value)), expected, "{value}");
    }
}

#[test]
fn coordinates_keep_their_order() {
    let mut values: Vec<f32> = interesting().into_iter().filter(|v| !v.is_nan()).collect();
    values.sort_by(|a, b| a.partial_cmp(b).unwrap());
    for max in [ABS_MAX, PRESSURE_MAX] {
        let mut last = 0;
        for value in &values {
            let next = normalize_to_abs(single(*value), max);
            assert!(last <= next);
            last = next;
        }
        assert_eq!(normalize_to_abs(single(0.0), max), 0);
        assert_eq!(normalize_to_abs(single(-0.0), max), 0);
        assert_eq!(normalize_to_abs(single(f32::NEG_INFINITY), max), 0);
        assert_eq!(normalize_to_abs(single(1.0), max), max);
        assert_eq!(normalize_to_abs(single(f32::INFINITY), max), max);
    }
}

#[test]
fn exact_coordinates() {
    assert_eq!(normalize_to_abs(single(0.5), ABS_MAX), 32767);
    assert_eq!(normalize_to_abs(single(1.0), ABS_MAX), 65535);
    assert_eq!(normalize_to_abs(single(0.5), PRESSURE_MAX), 1023);
    assert_eq!(normalize_to_abs(single(-3.0), ABS_MAX), 0);
    assert_eq!(normalize_to_abs(single(f32::NAN), ABS_MAX), 0);
    assert_eq!(tilt_to_abs(single(45.9)), 45);
    assert_eq!(tilt_to_abs(single(-45.9)), -45);
    assert_eq!(tilt_to_abs(single(400.0)), 90);
}

#[test]
fn stylus_state_follows_events() {
    let mut state = StylusState::default();
    assert_eq!(
        state,
        StylusState { x: 0, y: 0, pressure: 0, tilt_x: 0, tilt_y: 0, is_down: false }
    );
    let five = |down: bool| {
        let (x, y, pressure) = (single(0.5), single(1.0), single(1.0));
        let (tilt_x, tilt_y) = (single(-30.0), single(95.0));
        if down {
            InputEvent::StylusDown { x, y, pressure, tilt_x, tilt_y }
        } else {
            InputEvent::StylusMove { x, y, pressure, tilt_x, tilt_y }
        }
    };
    assert!(!state.update_from_event(&five(false)));
    assert_eq!(
        state,
        StylusState {
            x: 32767,
            y: 65535,
            pressure: 2047,
            tilt_x: -30,
            tilt_y: 90,
            is_down: false
        }
    );
    assert!(state.update_from_event(&five(true)));
    assert!(state.update_from_event(&five(false)));
    assert!(state.update_from_event(&InputEvent::TouchUp { id: 1 }));
    assert!(!state.update_from_event(&InputEvent::StylusUp));
    assert_eq!(state.pressure, 0);
    assert_eq!(state.x, 32767);
}

#[test]
fn codes_are_those_of_the_input_subsystem() {
    assert_eq!(EV_SYN, EventType::SYNCHRONIZATION.0);
    assert_eq!(EV_KEY, EventType::KEY.0);
    assert_eq!(EV_ABS, EventType::ABSOLUTE.0);
    assert_eq!(EV_MSC, EventType::MISC.0);
    assert_eq!(SYN_REPORT, Synchronization::SYN_REPORT.0);
    assert_eq!(MSC_SERIAL, MiscType::MSC_SERIAL.0);
    assert_eq!(BTN_TOOL_PEN, Key::BTN_TOOL_PEN.0);
    assert_eq!(BTN_TOOL_RUBBER, Key::BTN_TOOL_RUBBER.0);
    assert_eq!(BTN_TOOL_FINGER, Key::BTN_TOOL_FINGER.0);
    assert_eq!(BTN_TOUCH, Key::BTN_TOUCH.0);
    assert_eq!(BTN_STYLUS, Key::BTN_STYLUS.0);
    assert_eq!(BTN_STYLUS2, Key::BTN_STYLUS2.0);
    assert_eq!(BTN_TOOL_DOUBLETAP, Key::BTN_TOOL_DOUBLETAP.0);
    assert_eq!(BTN_TOOL_TRIPLETAP, Key::BTN_TOOL_TRIPLETAP.0);
    assert_eq!(BTN_TOOL_QUADTAP, Key::BTN_TOOL_QUADTAP.0);
    assert_eq!(ABS_X, AbsoluteAxisType::ABS_X.0);
    assert_eq!(ABS_Y, AbsoluteAxisType::ABS_Y.0);
    assert_eq!(ABS_PRESSURE, AbsoluteAxisType::ABS_PRESSURE.0);
    assert_eq!(ABS_DISTANCE, AbsoluteAxisType::ABS_DISTANCE.0);
    assert_eq!(ABS_TILT_X, AbsoluteAxisType::ABS_TILT_X.0);
    assert_eq!(ABS_TILT_Y, AbsoluteAxisType::ABS_TILT_Y.0);
    assert_eq!(ABS_MT_SLOT, AbsoluteAxisType::ABS_MT_SLOT.0);
    assert_eq!(ABS_MT_POSITION_X, AbsoluteAxisType::ABS_MT_POSITION_X.0);
    assert_eq!(ABS_MT_POSITION_Y, AbsoluteAxisType::ABS_MT_POSITION_Y.0);
    assert_eq!(ABS_MT_TRACKING_ID, AbsoluteAxisType::ABS_MT_TRACKING_ID.0);
    assert_eq!(BUS_USB, evdev::BusType::BUS_USB.0);
    assert_eq!(BUS_VIRTUAL, evdev::BusType::BUS_VIRTUAL.0);
    assert_eq!(PROP_DIRECT, evdev::PropType::DIRECT.0);
    assert_eq!(PROP_POINTER, evdev::PropType::POINTER.0);
}

#[test]
fn descriptor_of_the_tablet() {
    let descriptor = TabletDescriptor::default();
    assert_eq!(
        descriptor,
        TabletDescriptor { name: "Drawing Tablet Pen".to_string(), vid: 0, pid: 0 }
    );
}

#[test]
fn setup_of_the_pen() {
    let descriptor = TabletDescriptor { name: "Pen".to_string(), vid: 3, pid: 4 };
    let pen = DeviceSetup::pen(&descriptor);
    assert_eq!(pen.name, "Pen");
    assert_eq!((pen.bus, pen.vendor, pen.product, pen.version), (0x06, 3, 4, 0x0100));
    assert_eq!(pen.keys, vec![0x140, 0x141, 0x14a, 0x14b, 0x14c]);
    assert_eq!(pen.properties, vec![1, 0]);
    assert_eq!(pen.misc, vec![0]);
    let axes: Vec<(u16, i32, i32, i32)> = pen
        .axes
        .iter()
        .map(|a| (a.code, a.minimum, a.maximum, a.resolution))
        .collect();
    assert_eq!(
        axes,
        vec![
            (0x00, 0, 65535, 400),
            (0x01, 0, 65535, 400),
            (0x18, 0, 2047, 0),
            (0x1a, -90, 90, 0),
            (0x1b, -90, 90, 0),
            (0x19, 0, 255, 0),
        ]
    );
}

#[test]
fn setup_of_the_touch_device() {
    let descriptor = TabletDescriptor { name: "Pen".to_string(), vid: 3, pid: 4 };
    let touch = DeviceSetup::touch(&descriptor);
    assert_eq!(touch.name, "Drawing Tablet Touch");
    assert_eq!((touch.bus, touch.vendor, touch.product, touch.version), (0x03, 3, 4, 0x0101));
    assert!(touch.keys.is_empty());
    assert!(touch.misc.is_empty());
    assert_eq!(touch.properties, vec![1]);
    let axes: Vec<(u16, i32, i32, i32)> = touch
        .axes
        .iter()
        .map(|a| (a.code, a.minimum, a.maximum, a.resolution))
        .collect();
    assert_eq!(
        axes,
        vec![
            (0x2f, 0, 9, 0),
            (0x39, 0, 65535, 0),
            (0x35, 0, 65535, 400),
            (0x36, 0, 65535, 400),
        ]
    );
}

fn packet(timestamp: u64) -> InputPacket {
    InputPacket { timestamp, event: InputEvent::StylusUp }
}

#[test]
fn retimer_keeps_distances() {
    let mut retimer = EventRetimer::new();
    let start: u128 = 5_000_000_000;
    assert_eq!(retimer.push_at(packet(1000), start), Some(packet(1000)));
    assert_eq!(retimer.push_at(packet(11_000), start + 1_000), None);
    assert_eq!(retimer.push_at(packet(13_000), start + 2_000), None);
    assert_eq!(retimer.time_until_next_at(start), Some(10_000_000));
    assert_eq!(retimer.pop_ready_at(start + 9_999_999), None);
    assert_eq!(retimer.pop_ready_at(start + 10_000_000), Some(packet(11_000)));
    assert_eq!(retimer.pop_ready_at(start + 11_999_999), None);
    assert_eq!(retimer.pop_ready_at(start + 12_000_000), Some(packet(13_000)));
    assert_eq!(retimer.pop_ready_at(start + 20_000_000), None);
    assert_eq!(retimer.time_until_next_at(start), None);
    assert!(!retimer.has_pending());
}

#[test]
fn retimer_returns_due_events_immediately() {
    let mut retimer = EventRetimer::new();
    let start: u128 = 5_000_000_000;
    assert_eq!(retimer.push_at(packet(1000), start), Some(packet(1000)));
    assert!(!retimer.has_pending());
    let later = start + 7_000_000;
    assert_eq!(retimer.push_at(packet(2000), later), Some(packet(2000)));
    assert_eq!(retimer.push_at(packet(10), later + MIN_INTERVAL), Some(packet(10)));
    let soon = later + 2 * MIN_INTERVAL - 1;
    assert_eq!(retimer.push_at(packet(11), soon), None);
    assert_eq!(retimer.push_at(packet(12), soon + 5_000_000), None);
    assert_eq!(retimer.pop_ready_at(soon + 5_000_000), Some(packet(11)));
}

#[test]
fn retimer_spaces_events() {
    let mut retimer = EventRetimer::default();
    let start: u128 = 1_000_000_000;
    assert_eq!(retimer.push_at(packet(0), start), Some(packet(0)));
    assert_eq!(retimer.push_at(packet(0), start), None);
    assert_eq!(retimer.pop_ready_at(start), None);
    assert_eq!(retimer.time_until_next_at(start), Some(MIN_INTERVAL));
    assert_eq!(retimer.time_until_next_at(start + 10), Some(MIN_INTERVAL - 10));
    assert_eq!(retimer.pop_ready_at(start + MIN_INTERVAL - 1), None);
    assert_eq!(retimer.time_until_next_at(start + MIN_INTERVAL), Some(0));
    assert_eq!(retimer.pop_ready_at(start + MIN_INTERVAL), Some(packet(0)));
}

#[test]
fn retimer_limits_the_delay() {
    let mut retimer = EventRetimer::new();
    let start: u128 = 1_000_000_000;
    assert_eq!(retimer.push_at(packet(0), start), Some(packet(0)));
    assert_eq!(retimer.push_at(packet(10_000_000), start), None);
    assert_eq!(retimer.time_until_next_at(start), Some(MAX_DELAY));
    assert_eq!(retimer.pop_ready_at(start + MAX_DELAY - 1), None);
    assert_eq!(retimer.pop_ready_at(start + MAX_DELAY), Some(packet(10_000_000)));
}

#[test]
fn retimer_emits_at_once_when_the_clock_went_back() {
    let mut retimer = EventRetimer::new();
    let start: u128 = 1_000_000_000;
    assert_eq!(retimer.push_at(packet(5_000), start), Some(packet(5_000)));
    assert_eq!(retimer.push_at(packet(25_000), start), None);
    assert_eq!(retimer.push_at(packet(10), start + 7_000_000), None);
    assert_eq!(retimer.pop_ready_at(start + 20_000_000), Some(packet(25_000)));
    assert_eq!(retimer.time_until_next_at(start + 20_000_000), Some(MIN_INTERVAL));
    assert_eq!(retimer.pop_ready_at(start + 21_000_000), Some(packet(10)));
}

#[test]
fn retimer_drops_the_oldest() {
    let mut retimer = EventRetimer::new();
    let start: u128 = 1_000_000_000;
    assert_eq!(retimer.push_at(packet(0), start), Some(packet(0)));
    for i in 1..(MAX_BUFFER_SIZE as u64 + 2) {
        assert_eq!(retimer.push_at(packet(i), start), None);
    }
    let mut seen = 0;
    let mut time = start + MAX_DELAY;
    let mut first = None;
    while let Some(p) = retimer.pop_ready_at(time) {
        if first.is_none() {
            first = Some(p.timestamp);
        }
        seen += 1;
        time += MIN_INTERVAL;
    }
    assert_eq!(seen, 64);
    assert_eq!(first, Some(2));
}

#[test]
fn retimer_resets() {
    let mut retimer = EventRetimer::new();
    retimer.push_at(packet(1), 10);
    retimer.push_at(packet(2), 10);
    assert!(retimer.has_pending());
    retimer.reset();
    assert!(!retimer.has_pending());
    assert_eq!(retimer.time_until_next(), None);
    assert_eq!(retimer.push_at(packet(900_000_000), 20), Some(packet(900_000_000)));
}

#[test]
fn retimer_runs_on_a_real_clock() {
    let mut retimer = EventRetimer::new();
    let before = retimer.now();
    assert_eq!(retimer.push(packet(1)), Some(packet(1)));
    assert_eq!(retimer.push(packet(30_001)), None);
    assert_eq!(retimer.push(packet(30_002)), None);
    assert!(retimer.time_until_next().unwrap() <= MAX_DELAY);
    let mut out = Vec::new();
    while out.len() < 2 {
        out.extend(retimer.drain_ready());
        if let Some(p) = retimer.pop_ready() {
            out.push(p);
        }
    }
    assert_eq!(out, vec![packet(30_001), packet(30_002)]);
    assert!(retimer.now() - before >= MIN_INTERVAL);
}

fn slot(tracking_id: i32, x: i32, y: i32, active: bool) -> TouchSlot {
    TouchSlot { tracking_id, x, y, active, reported_to_os: false }
}

#[test]
fn gesture_of_two_fingers() {
    let mut detector = GestureDetector::new();
    let before = [slot(1, 10, 20, true), slot(2, 30, 40, true), slot(3, 0, 0, false)];
    assert_eq!(detector.process(&before), None);
    let after = [slot(1, 11, 22, true), slot(2, 33, 44, true), slot(3, 5, 5, true)];
    assert_eq!(
        detector.process(&after),
        Some(vec![
            MatchedPair { previous_x: 10, previous_y: 20, x: 11, y: 22 },
            MatchedPair { previous_x: 30, previous_y: 40, x: 33, y: 44 },
        ])
    );
    let pairs = detector.process(&after).unwrap();
    assert_eq!(pairs.len(), 3);
    assert!(pairs.iter().all(|p| p.previous_x == p.x && p.previous_y == p.y));
}

#[test]
fn gesture_needs_the_same_fingers() {
    let mut detector = GestureDetector::default();
    assert_eq!(detector.process(&[slot(1, 1, 1, true), slot(2, 2, 2, true)]), None);
    assert_eq!(detector.process(&[slot(1, 1, 1, true), slot(9, 2, 2, true)]), None);
    assert_eq!(detector.process(&[slot(1, 1, 1, true), slot(9, 2, 2, false)]), None);
    assert_eq!(detector.process(&[slot(1, 1, 1, true), slot(9, 2, 2, true)]), None);
    assert!(detector.process(&[slot(1, 1, 1, true), slot(9, 2, 2, true)]).is_some());
}

#[test]
fn default_touch_slot_is_empty() {
    assert_eq!(TouchSlot::default(), slot(0, 0, 0, false));
}
