//! Event type conversions and constants.

use vstd::prelude::*;

use crate::input::single::{limit_to, limited, normalized, scale_to};
use crate::protocol::packets::{InputEvent, Single};

verus! {

/// Maximum absolute coordinate value for tablet axes.
pub const ABS_MAX: i32 = 65535;

/// Maximum pressure value.
pub const PRESSURE_MAX: i32 = 2047;

/// Maximum tilt value in degrees.
pub const TILT_MAX: i32 = 90;

/// Maximum number of multitouch slots.
pub const MT_SLOTS: u8 = 10;

/// Convert normalized coordinates (0-1) to absolute coordinates.
pub fn normalize_to_abs(value: Single, max: i32) -> (abs: i32)
    ensures
        abs == normalized(value, max),
{
    scale_to(value, max)
}

/// Convert tilt degrees (-90 to 90) to absolute values.
pub fn tilt_to_abs(degrees: Single) -> (abs: i32)
    ensures
        abs == limited(degrees, TILT_MAX as nat),
{
    limit_to(degrees, 90)
}

/// Internal representation of stylus state.
#[derive(Debug, Clone, Copy, PartialEq, Eq, Structural)]
pub struct StylusState {
    pub x: i32,
    pub y: i32,
    pub pressure: i32,
    pub tilt_x: i32,
    pub tilt_y: i32,
    pub is_down: bool,
}

impl Default for StylusState {
    fn default() -> (state: Self)
        ensures
            state == (StylusState {
                x: 0,
                y: 0,
                pressure: 0,
                tilt_x: 0,
                tilt_y: 0,
                is_down: false,
            }),
    {
        StylusState { x: 0, y: 0, pressure: 0, tilt_x: 0, tilt_y: 0, is_down: false }
    }
}

impl StylusState {
    /// The state after an event: a move or a touch sets position, pressure
    /// and tilt, a touch also puts the stylus down, a lift takes it up; no
    /// other event concerns the stylus.
    pub open spec fn updated(self, event: InputEvent) -> StylusState {
        match event {
            InputEvent::StylusMove { x, y, pressure, tilt_x, tilt_y } => StylusState {
                x: normalized(x, ABS_MAX),
                y: normalized(y, ABS_MAX),
                pressure: normalized(pressure, PRESSURE_MAX),
                tilt_x: limited(tilt_x, TILT_MAX as nat) as i32,
                tilt_y: limited(tilt_y, TILT_MAX as nat) as i32,
                is_down: self.is_down,
            },
            InputEvent::StylusDown { x, y, pressure, tilt_x, tilt_y } => StylusState {
                x: normalized(x, ABS_MAX),
                y: normalized(y, ABS_MAX),
                pressure: normalized(pressure, PRESSURE_MAX),
                tilt_x: limited(tilt_x, TILT_MAX as nat) as i32,
                tilt_y: limited(tilt_y, TILT_MAX as nat) as i32,
                is_down: true,
            },
            InputEvent::StylusUp => StylusState { is_down: false, pressure: 0, ..self },
            _ => self,
        }
    }

    /// Whether every value lies in the range of its axis.
    pub open spec fn in_range(self) -> bool {
        &&& 0 <= self.x <= ABS_MAX
        &&& 0 <= self.y <= ABS_MAX
        &&& 0 <= self.pressure <= PRESSURE_MAX
        &&& -TILT_MAX <= self.tilt_x <= TILT_MAX
        &&& -TILT_MAX <= self.tilt_y <= TILT_MAX
    }

    /// Update from a protocol input event, returning whether the stylus is touching.
    pub fn update_from_event(&mut self, event: &InputEvent) -> (touching: bool)
        ensures
            *final(self) == old(self).updated(*event),
            touching == final(self).is_down,
    {
        match event {
            InputEvent::StylusMove { x, y, pressure, tilt_x, tilt_y }
            | InputEvent::StylusDown { x, y, pressure, tilt_x, tilt_y } => {
                self.x = normalize_to_abs(*x, ABS_MAX);
                self.y = normalize_to_abs(*y, ABS_MAX);
                self.pressure = normalize_to_abs(*pressure, PRESSURE_MAX);
                self.tilt_x = tilt_to_abs(*tilt_x);
                self.tilt_y = tilt_to_abs(*tilt_y);
                if matches!(event, InputEvent::StylusDown { .. }) {
                    self.is_down = true;
                }
                self.is_down
            },
            InputEvent::StylusUp => {
                self.is_down = false;
                self.pressure = 0;
                false
            },
            _ => self.is_down,
        }
    }
}

/// Every event keeps the stylus values in the ranges of their axes.
pub proof fn updated_in_range(state: StylusState, event: InputEvent)
    requires
        state.in_range(),
    ensures
        state.updated(event).in_range(),
{
    match event {
        InputEvent::StylusMove { x, y, pressure, tilt_x, tilt_y } | InputEvent::StylusDown {
            x,
            y,
            pressure,
            tilt_x,
            tilt_y,
        } => {
            crate::input::single::normalized_in_range(x, ABS_MAX);
            crate::input::single::normalized_in_range(y, ABS_MAX);
            crate::input::single::normalized_in_range(pressure, PRESSURE_MAX);
            crate::input::single::limited_in_range(tilt_x, TILT_MAX as nat);
            crate::input::single::limited_in_range(tilt_y, TILT_MAX as nat);
        },
        _ => {},
    }
}

/// Internal representation of a touch slot.
#[derive(Debug, Clone, Copy, PartialEq, Eq, Structural)]
pub struct TouchSlot {
    pub tracking_id: i32,
    pub x: i32,
    pub y: i32,
    pub active: bool,
    /// Whether the touch device has been told of this touch.
    pub reported_to_os: bool,
}

/// A slot that no touch has used yet.
pub open spec fn empty_slot() -> TouchSlot {
    TouchSlot { tracking_id: 0, x: 0, y: 0, active: false, reported_to_os: false }
}

impl Default for TouchSlot {
    fn default() -> (slot: Self)
        ensures
            slot == empty_slot(),
    {
        TouchSlot { tracking_id: 0, x: 0, y: 0, active: false, reported_to_os: false }
    }
}

/// A move or a touch of the stylus sets all of its values to what the client has
/// sent, scaled to the axes, whatever they were; a touch puts it down, a move
/// leaves it up or down. A lift takes it up without pressure where it is. Nothing
/// else changes it.
pub proof fn stylus_takes_what_is_sent(
    state: StylusState,
    x: Single,
    y: Single,
    pressure: Single,
    tilt_x: Single,
    tilt_y: Single,
    event: InputEvent,
)
    ensures
        ({
            let moved = state.updated(InputEvent::StylusMove { x, y, pressure, tilt_x, tilt_y });
            let down = state.updated(InputEvent::StylusDown { x, y, pressure, tilt_x, tilt_y });
            let up = state.updated(InputEvent::StylusUp);
            &&& moved.x == normalized(x, 65535) && moved.y == normalized(y, 65535)
            &&& moved.pressure == normalized(pressure, 2047)
            &&& moved.tilt_x == limited(tilt_x, 90) && moved.tilt_y == limited(tilt_y, 90)
            &&& moved.is_down == state.is_down
            &&& down == (StylusState { is_down: true, ..moved })
            &&& up.x == state.x && up.y == state.y
            &&& up.tilt_x == state.tilt_x && up.tilt_y == state.tilt_y
            &&& up.pressure == 0 && !up.is_down
            &&& event !is StylusMove && event !is StylusDown && event !is StylusUp
                ==> state.updated(event) == state
        }),
{
    crate::input::single::limited_in_range(tilt_x, 90);
    crate::input::single::limited_in_range(tilt_y, 90);
}

} // verus!
