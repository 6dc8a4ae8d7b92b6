//! How the pen and the touch device present themselves to the system.

use vstd::prelude::*;

use crate::input::events::{ABS_MAX, PRESSURE_MAX, TILT_MAX};
use crate::input::tablet_model::{
    ABS_DISTANCE, ABS_MT_POSITION_X, ABS_MT_POSITION_Y, ABS_MT_SLOT, ABS_MT_TRACKING_ID,
    ABS_PRESSURE, ABS_TILT_X, ABS_TILT_Y, ABS_X, ABS_Y, BTN_STYLUS, BTN_STYLUS2, BTN_TOOL_PEN,
    BTN_TOOL_RUBBER, BTN_TOUCH, MSC_SERIAL,
};

verus! {

/// Bus of a device on the Universal Serial Bus.
pub const BUS_USB: u16 = 0x03;

/// Bus of a device without hardware.
pub const BUS_VIRTUAL: u16 = 0x06;

/// Property of a device that drives a pointer.
pub const PROP_POINTER: u16 = 0x00;

/// Property of a device whose coordinates are those of the screen.
pub const PROP_DIRECT: u16 = 0x01;

/// Units per millimetre of the position axes.
pub const RESOLUTION: i32 = 400;

/// Smallest tilt, opposite to the largest.
pub const TILT_MIN: i32 = -90;

/// Largest distance of a hovering pen.
pub const DISTANCE_MAX: i32 = 255;

/// Configuration for the virtual tablet device identity.
#[derive(Debug, Clone, PartialEq, Eq)]
pub struct TabletDescriptor {
    pub name: String,
    pub vid: u16,
    pub pid: u16,
}

impl Default for TabletDescriptor {
    fn default() -> (descriptor: Self)
        ensures
            descriptor.name@ == "Drawing Tablet Pen"@,
            descriptor.vid == 0,
            descriptor.pid == 0,
    {
        TabletDescriptor { name: "Drawing Tablet Pen".to_string(), vid: 0, pid: 0 }
    }
}

/// An absolute axis: its code, its range and its resolution.
#[derive(Debug, Clone, Copy, PartialEq, Eq, Structural)]
pub struct Axis {
    pub code: u16,
    pub minimum: i32,
    pub maximum: i32,
    pub resolution: i32,
}

/// What a device is created from.
#[derive(Debug, Clone, PartialEq, Eq)]
pub struct DeviceSetup {
    pub name: String,
    pub bus: u16,
    pub vendor: u16,
    pub product: u16,
    pub version: u16,
    pub keys: Vec<u16>,
    pub properties: Vec<u16>,
    pub axes: Vec<Axis>,
    pub misc: Vec<u16>,
}

/// The buttons of the pen.
pub open spec fn pen_keys() -> Seq<u16> {
    seq![BTN_TOOL_PEN, BTN_TOOL_RUBBER, BTN_TOUCH, BTN_STYLUS, BTN_STYLUS2]
}

/// The axes of the pen.
pub open spec fn pen_axes() -> Seq<Axis> {
    seq![
        Axis { code: ABS_X, minimum: 0, maximum: ABS_MAX, resolution: RESOLUTION },
        Axis { code: ABS_Y, minimum: 0, maximum: ABS_MAX, resolution: RESOLUTION },
        Axis { code: ABS_PRESSURE, minimum: 0, maximum: PRESSURE_MAX, resolution: 0 },
        Axis { code: ABS_TILT_X, minimum: TILT_MIN, maximum: TILT_MAX, resolution: 0 },
        Axis { code: ABS_TILT_Y, minimum: TILT_MIN, maximum: TILT_MAX, resolution: 0 },
        Axis { code: ABS_DISTANCE, minimum: 0, maximum: DISTANCE_MAX, resolution: 0 },
    ]
}

/// The axes of the touch device.
pub open spec fn touch_axes() -> Seq<Axis> {
    seq![
        Axis { code: ABS_MT_SLOT, minimum: 0, maximum: 9, resolution: 0 },
        Axis { code: ABS_MT_TRACKING_ID, minimum: 0, maximum: 65535, resolution: 0 },
        Axis { code: ABS_MT_POSITION_X, minimum: 0, maximum: ABS_MAX, resolution: RESOLUTION },
        Axis { code: ABS_MT_POSITION_Y, minimum: 0, maximum: ABS_MAX, resolution: RESOLUTION },
    ]
}

impl DeviceSetup {
    /// The pen: a virtual device with pressure, tilt, distance and a serial,
    /// whose coordinates are those of the screen.
    pub fn pen(descriptor: &TabletDescriptor) -> (setup: DeviceSetup)
        ensures
            setup.name@ == descriptor.name@,
            setup.bus == BUS_VIRTUAL,
            setup.vendor == descriptor.vid,
            setup.product == descriptor.pid,
            setup.version == 0x0100,
            setup.keys@ == pen_keys(),
            setup.properties@ == seq![PROP_DIRECT, PROP_POINTER],
            setup.axes@ == pen_axes(),
            setup.misc@ == seq![MSC_SERIAL],
    {
        let setup = DeviceSetup {
            name: descriptor.name.clone(),
            bus: BUS_VIRTUAL,
            vendor: descriptor.vid,
            product: descriptor.pid,
            version: 0x0100,
            keys: vec![BTN_TOOL_PEN, BTN_TOOL_RUBBER, BTN_TOUCH, BTN_STYLUS, BTN_STYLUS2],
            properties: vec![PROP_DIRECT, PROP_POINTER],
            axes: vec![
                Axis { code: ABS_X, minimum: 0, maximum: ABS_MAX, resolution: RESOLUTION },
                Axis { code: ABS_Y, minimum: 0, maximum: ABS_MAX, resolution: RESOLUTION },
                Axis { code: ABS_PRESSURE, minimum: 0, maximum: PRESSURE_MAX, resolution: 0 },
                Axis { code: ABS_TILT_X, minimum: TILT_MIN, maximum: TILT_MAX, resolution: 0 },
                Axis { code: ABS_TILT_Y, minimum: TILT_MIN, maximum: TILT_MAX, resolution: 0 },
                Axis { code: ABS_DISTANCE, minimum: 0, maximum: DISTANCE_MAX, resolution: 0 },
            ],
            misc: vec![MSC_SERIAL],
        };
        assert(setup.keys@ =~= pen_keys());
        assert(setup.properties@ =~= seq![PROP_DIRECT, PROP_POINTER]);
        assert(setup.axes@ =~= pen_axes());
        assert(setup.misc@ =~= seq![MSC_SERIAL]);
        setup
    }

    /// The touch device: multitouch axes only, without buttons, so that
    /// nothing takes it for a mouse. It has the identity of the pen.
    pub fn touch(descriptor: &TabletDescriptor) -> (setup: DeviceSetup)
        ensures
            setup.name@ == "Drawing Tablet Touch"@,
            setup.bus == BUS_USB,
            setup.vendor == descriptor.vid,
            setup.product == descriptor.pid,
            setup.version == 0x0101,
            setup.keys@ == Seq::<u16>::empty(),
            setup.properties@ == seq![PROP_DIRECT],
            setup.axes@ == touch_axes(),
            setup.misc@ == Seq::<u16>::empty(),
    {
        let setup = DeviceSetup {
            name: "Drawing Tablet Touch".to_string(),
            bus: BUS_USB,
            vendor: descriptor.vid,
            product: descriptor.pid,
            version: 0x0101,
            keys: Vec::new(),
            properties: vec![PROP_DIRECT],
            axes: vec![
                Axis { code: ABS_MT_SLOT, minimum: 0, maximum: 9, resolution: 0 },
                Axis { code: ABS_MT_TRACKING_ID, minimum: 0, maximum: 65535, resolution: 0 },
                Axis { code: ABS_MT_POSITION_X, minimum: 0, maximum: ABS_MAX, resolution: RESOLUTION },
                Axis { code: ABS_MT_POSITION_Y, minimum: 0, maximum: ABS_MAX, resolution: RESOLUTION },
            ],
            misc: Vec::new(),
        };
        assert(setup.properties@ =~= seq![PROP_DIRECT]);
        assert(setup.axes@ =~= touch_axes());
        setup
    }
}

} // verus!
