use vstd::prelude::*;

use crate::event::DeviceClass;

verus! {

/// HID usage page of generic desktop controls.
pub const USAGE_PAGE_GENERIC: u16 = 0x01;
/// HID usage of a mouse.
pub const USAGE_MOUSE: u16 = 0x02;
/// HID usage of a joystick.
pub const USAGE_JOYSTICK: u16 = 0x04;
/// HID usage of a gamepad.
pub const USAGE_GAMEPAD: u16 = 0x05;
/// HID usage of a keyboard.
pub const USAGE_KEYBOARD: u16 = 0x06;

/// Whether gamepads of the XInput class are catalogued with the joysticks.
#[derive(PartialEq, Eq, Structural, Clone, Copy, Debug)]
pub enum XInputInclude {
    True,
    False,
}

/// Classes of raw input device.
#[derive(PartialEq, Eq, Structural, Clone, Copy, Debug)]
pub enum DeviceType {
    Mice,
    Keyboards,
    Joysticks(XInputInclude),
}

/// One usage to ask the system to deliver raw input for.
#[derive(PartialEq, Eq, Structural, Clone, Copy, Debug)]
pub struct RawInputDeviceRequest {
    pub usage_page: u16,
    pub usage: u16,
}

/// The classes registered so far, and whether XInput gamepads are included.
#[derive(PartialEq, Eq, Structural, Clone, Copy, Debug)]
pub struct RawInputRegistrar {
    pub include_xinput: bool,
    pub mice: bool,
    pub keyboards: bool,
    pub joysticks: bool,
}

/// The device class that a device type registers.
pub open spec fn class_of(t: DeviceType) -> DeviceClass {
    match t {
        DeviceType::Mice => DeviceClass::Mouse,
        DeviceType::Keyboards => DeviceClass::Keyboard,
        DeviceType::Joysticks(_) => DeviceClass::Joystick,
    }
}

/// The usages a device type asks the system for.
pub open spec fn requests_for(t: DeviceType) -> Seq<RawInputDeviceRequest> {
    match t {
        DeviceType::Mice => seq![RawInputDeviceRequest { usage_page: USAGE_PAGE_GENERIC, usage: USAGE_MOUSE }],
        DeviceType::Keyboards => seq![
            RawInputDeviceRequest { usage_page: USAGE_PAGE_GENERIC, usage: USAGE_KEYBOARD },
        ],
        DeviceType::Joysticks(_) => seq![
            RawInputDeviceRequest { usage_page: USAGE_PAGE_GENERIC, usage: USAGE_JOYSTICK },
            RawInputDeviceRequest { usage_page: USAGE_PAGE_GENERIC, usage: USAGE_GAMEPAD },
        ],
    }
}

impl RawInputRegistrar {
    /// Nothing registered.
    pub open spec fn new_spec() -> RawInputRegistrar {
        RawInputRegistrar { include_xinput: false, mice: false, keyboards: false, joysticks: false }
    }

    /// A registrar with nothing registered.
    pub fn new() -> (r: Self)
        ensures
            r == RawInputRegistrar::new_spec(),
    {
        RawInputRegistrar { include_xinput: false, mice: false, keyboards: false, joysticks: false }
    }

    /// Whether a class has been registered.
    pub open spec fn has_class(self, c: DeviceClass) -> bool {
        match c {
            DeviceClass::Mouse => self.mice,
            DeviceClass::Keyboard => self.keyboards,
            DeviceClass::Joystick => self.joysticks,
        }
    }

    /// The registrar after registering `t`.
    pub open spec fn registered(self, t: DeviceType) -> RawInputRegistrar {
        match t {
            DeviceType::Mice => RawInputRegistrar { mice: true, ..self },
            DeviceType::Keyboards => RawInputRegistrar { keyboards: true, ..self },
            DeviceType::Joysticks(x) => RawInputRegistrar {
                joysticks: true,
                include_xinput: x == XInputInclude::True,
                ..self
            },
        }
    }

    /// Records the registration of `reg_type` and returns the usages to ask
    /// the system for.
    pub fn register_devices(&mut self, reg_type: DeviceType) -> (r: Vec<RawInputDeviceRequest>)
        ensures
            r@ == requests_for(reg_type),
            *final(self) == old(self).registered(reg_type),
    {
        let mut rid_vec: Vec<RawInputDeviceRequest> = Vec::new();
        match reg_type {
            DeviceType::Mice => {
                self.mice = true;
                rid_vec.push(RawInputDeviceRequest { usage_page: USAGE_PAGE_GENERIC, usage: USAGE_MOUSE });
            },
            DeviceType::Joysticks(include_xinput) => {
                self.joysticks = true;
                self.include_xinput = match include_xinput {
                    XInputInclude::True => true,
                    XInputInclude::False => false,
                };
                rid_vec.push(RawInputDeviceRequest { usage_page: USAGE_PAGE_GENERIC, usage: USAGE_JOYSTICK });
                rid_vec.push(RawInputDeviceRequest { usage_page: USAGE_PAGE_GENERIC, usage: USAGE_GAMEPAD });
            },
            DeviceType::Keyboards => {
                self.keyboards = true;
                rid_vec.push(RawInputDeviceRequest { usage_page: USAGE_PAGE_GENERIC, usage: USAGE_KEYBOARD });
            },
        }
        assert(rid_vec@ =~= requests_for(reg_type));
        rid_vec
    }
}

impl Default for RawInputRegistrar {
    fn default() -> (r: Self)
        ensures
            r == RawInputRegistrar::new_spec(),
    {
        RawInputRegistrar::new()
    }
}

/// A HID device is catalogued as a joystick when it reports the generic
/// desktop page with the joystick or gamepad usage.
pub open spec fn is_joystick_usage_spec(usage_page: u16, usage: u16) -> bool {
    usage_page == USAGE_PAGE_GENERIC && (usage == USAGE_JOYSTICK || usage == USAGE_GAMEPAD)
}

/// Whether a HID device with this usage is catalogued as a joystick.
pub fn is_joystick_usage(usage_page: u16, usage: u16) -> (r: bool)
    ensures
        r == is_joystick_usage_spec(usage_page, usage),
{
    usage_page == USAGE_PAGE_GENERIC && (usage == USAGE_JOYSTICK || usage == USAGE_GAMEPAD)
}

} // verus!
