use drawing_tablet::input::tablet::{EventRun, VirtualTablet};
use drawing_tablet::input::tablet_model::{Device, DeviceEvent, TabletError};
use drawing_tablet::protocol::packets::{InputEvent, Single};

const SECOND: u128 = 1_000_000_000;

fn single(value: f32) -> Single {
    Single { bits: value.to_bits() }
}

fn moved(x: f32, y: f32, pressure: f32) -> InputEvent {
    InputEvent::StylusMove {
        x: single(x),
        y: single(y),
        pressure: single(pressure),
        tilt_x: single(10.0),
        tilt_y: single(-20.0),
    }
}

fn down(x: f32, y: f32, pressure: f32) -> InputEvent {
    InputEvent::StylusDown {
        x: single(x),
        y: single(y),
        pressure: single(pressure),
        tilt_x: single(10.0),
        tilt_y: single(-20.0),
    }
}

fn touch(id: u32, x: f32, y: f32) -> InputEvent {
    InputEvent::TouchDown { id, x: single(x), y: single(y) }
}

fn drag(id: u32, x: f32, y: f32) -> InputEvent {
    InputEvent::TouchMove { id, x: single(x), y: single(y) }
}

fn lift(id: u32) -> InputEvent {
    InputEvent::TouchUp { id }
}

type Plain = Vec<(Device, Vec<(u16, u16, i32)>)>;

fn plain(run: &EventRun) -> Plain {
    run.emissions
        .iter()
        .map(|e| {
            let events: Vec<(u16, u16, i32)> =
                e.events.iter().map(|v: &DeviceEvent| (v.kind, v.code, v.value)).collect();
            (e.device, events)
        })
        .collect()
}

fn at(tablet: &mut VirtualTablet, event: InputEvent, time: u128) -> Plain {
    let run = tablet.process_event_at(&event, time, time);
    assert_eq!(run.emissions.len(), run.states.len());
    plain(&run)
}

fn report(device: Device) -> (Device, Vec<(u16, u16, i32)>) {
    (device, vec![(0, 0, 0)])
}

#[test]
fn new_tablet() {
    let tablet = VirtualTablet::new(1920, 1080);
    assert_eq!(tablet.dimensions(), (1920, 1080));
    let state = tablet.state();
    assert!(!state.in_proximity);
    assert!(!state.tool_announced);
    assert_eq!(state.last_pen_activity, None);
    assert_eq!(state.current_slot, 0);
    assert!(state.touch_slots.iter().all(|s| !s.active && !s.reported_to_os));
}

#[test]
fn first_hover_announces_the_pen() {
    let mut tablet = VirtualTablet::new(1, 1);
    assert_eq!(
        at(&mut tablet, moved(0.5, 1.0, 0.7), 0),
        vec![
            (
                Device::Pen,
                vec![
                    (1, 0x140, 1),
                    (4, 0, 0x12345678),
                    (3, 0x00, 32767),
                    (3, 0x01, 65535),
                    (3, 0x19, 10),
                ]
            ),
            report(Device::Pen),
            (
                Device::Pen,
                vec![
                    (3, 0x00, 32767),
                    (3, 0x01, 65535),
                    (3, 0x18, 0),
                    (3, 0x19, 10),
                    (3, 0x1a, 10),
                    (3, 0x1b, -20),
                ]
            ),
            report(Device::Pen),
        ]
    );
    let again = at(&mut tablet, moved(0.0, 0.0, 0.7), 5);
    assert_eq!(again.len(), 2);
    assert!(again.iter().all(|(_, events)| events.iter().all(|e| e.0 != 4)));
    assert!(tablet.state().tool_announced);
}

#[test]
fn stroke_starts_with_pressure() {
    let mut tablet = VirtualTablet::new(1, 1);
    at(&mut tablet, moved(0.0, 0.0, 0.0), 0);
    assert_eq!(
        at(&mut tablet, down(0.0, 0.5, 0.0), 1),
        vec![
            (
                Device::Pen,
                vec![
                    (1, 0x140, 1),
                    (1, 0x14a, 1),
                    (3, 0x00, 0),
                    (3, 0x01, 32767),
                    (3, 0x18, 1),
                    (3, 0x19, 0),
                    (3, 0x1a, 10),
                    (3, 0x1b, -20),
                ]
            ),
            report(Device::Pen),
        ]
    );
    let stroke = at(&mut tablet, moved(0.0, 0.0, 1.0), 2);
    assert_eq!(stroke[0].1[2], (3, 0x18, 2047));
    assert_eq!(stroke[0].1[3], (3, 0x19, 0));
    assert_eq!(
        at(&mut tablet, InputEvent::StylusUp, 3),
        vec![(Device::Pen, vec![(1, 0x14a, 0), (3, 0x18, 0)]), report(Device::Pen)]
    );
    let hover = at(&mut tablet, moved(0.0, 0.0, 1.0), 4);
    assert_eq!(hover[0].1[2], (3, 0x18, 0));
}

#[test]
fn stylus_buttons() {
    let mut tablet = VirtualTablet::new(1, 1);
    at(&mut tablet, moved(0.0, 0.0, 0.0), 0);
    let press = |button: u8, pressed: bool| InputEvent::StylusButton { button, pressed };
    assert_eq!(
        at(&mut tablet, press(0, true), 1),
        vec![(Device::Pen, vec![(1, 0x14b, 1)]), report(Device::Pen)]
    );
    assert_eq!(
        at(&mut tablet, press(1, false), 2),
        vec![(Device::Pen, vec![(1, 0x14c, 0)]), report(Device::Pen)]
    );
    assert_eq!(at(&mut tablet, press(2, true), 3), vec![]);
    let mut other = VirtualTablet::new(1, 1);
    assert_eq!(at(&mut other, press(0, true), 0).len(), 4);
}

#[test]
fn single_finger_stays_hidden() {
    let mut tablet = VirtualTablet::new(1, 1);
    assert_eq!(at(&mut tablet, touch(7, 0.5, 0.5), 0), vec![]);
    assert_eq!(at(&mut tablet, drag(7, 0.6, 0.5), 1), vec![]);
    assert_eq!(at(&mut tablet, lift(7), 2), vec![]);
}

#[test]
fn two_fingers_are_shown_and_hidden() {
    let mut tablet = VirtualTablet::new(1, 1);
    at(&mut tablet, touch(7, 0.0, 0.5), 0);
    assert_eq!(
        at(&mut tablet, touch(8, 1.0, 0.5), 1),
        vec![
            (Device::Touch, vec![(3, 0x39, 7), (3, 0x35, 0), (3, 0x36, 32767)]),
            (Device::Touch, vec![(3, 0x2f, 1)]),
            (Device::Touch, vec![(3, 0x39, 8), (3, 0x35, 65535), (3, 0x36, 32767)]),
            report(Device::Touch),
        ]
    );
    assert_eq!(
        at(&mut tablet, drag(7, 1.0, 1.0), 2),
        vec![
            (Device::Touch, vec![(3, 0x2f, 0)]),
            (Device::Touch, vec![(3, 0x35, 65535), (3, 0x36, 65535)]),
            (Device::Touch, vec![(3, 0x2f, 1)]),
            (Device::Touch, vec![(3, 0x35, 65535), (3, 0x36, 32767)]),
            report(Device::Touch),
        ]
    );
    assert_eq!(
        at(&mut tablet, lift(8), 3),
        vec![
            (Device::Touch, vec![(3, 0x2f, 0)]),
            (Device::Touch, vec![(3, 0x39, -1)]),
            (Device::Touch, vec![(3, 0x2f, 1)]),
            (Device::Touch, vec![(3, 0x39, -1)]),
            report(Device::Touch),
        ]
    );
    assert!(tablet.state().touch_slots.iter().all(|s| !s.reported_to_os));
    assert_eq!(at(&mut tablet, lift(9), 4), vec![]);
    assert_eq!(at(&mut tablet, drag(9, 0.1, 0.1), 5), vec![]);
}

#[test]
fn lifted_finger_is_lifted_once() {
    let mut tablet = VirtualTablet::new(1, 1);
    for id in 1..4 {
        at(&mut tablet, touch(id, 0.0, 0.0), 0);
    }
    let lifts = |run: &Plain| run.iter().filter(|(_, events)| *events == [(3, 0x39, -1)]).count();
    let run = at(&mut tablet, lift(2), 1);
    assert_eq!(lifts(&run), 1);
    let shown: Vec<bool> =
        tablet.state().touch_slots.iter().map(|slot| slot.reported_to_os).collect();
    assert_eq!(shown[..4], [true, false, true, false]);
    assert_eq!(tablet.state().touch_slots[1].tracking_id, 2);
    assert_eq!(lifts(&at(&mut tablet, drag(1, 0.5, 0.5), 2)), 0);
    assert_eq!(lifts(&at(&mut tablet, lift(1), 3)), 2);
    assert_eq!(at(&mut tablet, lift(3), 4), vec![]);
}

#[test]
fn eleventh_finger_is_ignored() {
    let mut tablet = VirtualTablet::new(1, 1);
    for id in 0..10 {
        at(&mut tablet, touch(id, 0.1, 0.1), 0);
    }
    let before = tablet.state();
    assert_eq!(at(&mut tablet, touch(10, 0.1, 0.1), 1), vec![]);
    assert_eq!(tablet.state(), before);
}

#[test]
fn large_touch_ids_become_negative() {
    let mut tablet = VirtualTablet::new(1, 1);
    at(&mut tablet, touch(u32::MAX, 0.0, 0.0), 0);
    assert_eq!(tablet.state().touch_slots[0].tracking_id, -1);
    at(&mut tablet, touch(0x8000_0000, 0.0, 0.0), 0);
    assert_eq!(tablet.state().touch_slots[1].tracking_id, i32::MIN);
}

#[test]
fn palm_is_rejected_for_a_second() {
    let mut tablet = VirtualTablet::new(1, 1);
    at(&mut tablet, moved(0.1, 0.1, 0.0), 5 * SECOND);
    let before = tablet.state();
    assert_eq!(at(&mut tablet, touch(1, 0.1, 0.1), 6 * SECOND - 1), vec![]);
    assert_eq!(tablet.state(), before);
    at(&mut tablet, touch(1, 0.1, 0.1), 6 * SECOND);
    assert!(tablet.state().touch_slots[0].active);
}

#[test]
fn pen_lifts_touches() {
    let mut tablet = VirtualTablet::new(1, 1);
    at(&mut tablet, touch(1, 0.1, 0.1), 0);
    at(&mut tablet, touch(2, 0.1, 0.1), 0);
    let run = at(&mut tablet, InputEvent::StylusUp, 10);
    assert_eq!(
        run,
        vec![
            (Device::Touch, vec![(3, 0x2f, 0)]),
            (Device::Touch, vec![(3, 0x39, -1)]),
            (Device::Touch, vec![(3, 0x2f, 1)]),
            (Device::Touch, vec![(3, 0x39, -1)]),
            (
                Device::Touch,
                vec![(1, 0x145, 0), (1, 0x14d, 0), (1, 0x14e, 0), (1, 0x14f, 0)]
            ),
            report(Device::Touch),
            (Device::Pen, vec![(1, 0x14a, 0), (3, 0x18, 0)]),
            report(Device::Pen),
        ]
    );
    assert!(tablet.state().touch_slots.iter().all(|s| !s.active));
    assert_eq!(tablet.state().last_pen_activity, Some(10));
}

#[test]
fn failed_emission_keeps_the_state_it_had() {
    let mut tablet = VirtualTablet::new(1, 1);
    let run = tablet.process_event_at(&moved(0.5, 0.5, 0.0), 0, 0);
    assert!(tablet.state().in_proximity);
    let error = tablet.emission_failed(&run, 0, "gone".to_string());
    assert_eq!(error, TabletError::EventEmit("gone".to_string()));
    assert!(!tablet.state().in_proximity);
    assert!(tablet.state().tool_announced);
    let again = tablet.process_event_at(&moved(0.5, 0.5, 0.0), 1, 1);
    assert_eq!(again.emissions.len(), 4);
    assert_eq!(again.emissions[0].events.len(), 4);
}

#[test]
fn serial_is_sent_once_whatever_fails() {
    let mut tablet = VirtualTablet::new(1, 1);
    let mut serials = 0;
    for turn in 0..20 {
        let event = match turn % 4 {
            0 => moved(0.5, 0.5, 0.0),
            1 => down(0.5, 0.5, 0.5),
            2 => InputEvent::StylusButton { button: 0, pressed: true },
            _ => InputEvent::StylusUp,
        };
        let run = tablet.process_event_at(&event, turn, turn);
        let failed = turn as usize % 3;
        for (index, emission) in run.emissions.iter().enumerate() {
            serials += emission.events.iter().filter(|e| e.kind == 4).count();
            if index == failed {
                tablet.emission_failed(&run, index, "gone".to_string());
                break;
            }
        }
        assert!(tablet.state().tool_announced);
    }
    assert_eq!(serials, 1);
}

#[test]
fn pen_enters_proximity_again() {
    let mut tablet = VirtualTablet::new(1, 1);
    let place = vec![(3, 0x00, 0), (3, 0x01, 0), (3, 0x19, 10)];
    let announced = |serial: bool| {
        let mut events = vec![(1, 0x140, 1)];
        if serial {
            events.push((4, 0, 0x12345678));
        }
        events.extend(place.clone());
        vec![(Device::Pen, events), report(Device::Pen)]
    };
    let run = tablet.enter_proximity();
    assert_eq!(plain(&run), announced(true));
    assert!(tablet.state().in_proximity);
    let run = tablet.enter_proximity();
    assert_eq!(plain(&run), announced(false));
    tablet.emission_failed(&run, 1, "gone".to_string());
    assert!(tablet.state().in_proximity);
    assert_eq!(at(&mut tablet, moved(0.0, 0.0, 0.0), 0).len(), 2);
    let mut fresh = VirtualTablet::new(1, 1);
    let run = fresh.enter_proximity();
    fresh.emission_failed(&run, 1, "gone".to_string());
    assert!(!fresh.state().in_proximity);
    assert_eq!(plain(&fresh.enter_proximity()), announced(false));
}

#[test]
fn tablet_runs_on_a_real_clock() {
    let mut tablet = VirtualTablet::new(1, 1);
    assert_eq!(tablet.process_event(&moved(0.5, 0.5, 0.0)).emissions.len(), 4);
    assert_eq!(tablet.process_event(&touch(1, 0.5, 0.5)).emissions.len(), 0);
    assert!(!tablet.state().touch_slots[0].active);
}

#[test]
fn tablet_errors_explain_themselves() {
    assert_eq!(
        TabletError::DeviceCreation("no".to_string()).message(),
        "failed to create virtual device: no"
    );
    assert_eq!(TabletError::EventEmit("no".to_string()).message(), "failed to emit event: no");
    assert_eq!(
        TabletError::InvalidSlot { slot: 12, max: 9 }.message(),
        "invalid touch slot: 12 (max 9)"
    );
}
