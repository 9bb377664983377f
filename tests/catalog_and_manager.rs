use std::collections::HashSet;

use multiinput::devices::{
    ButtonCaps, DeviceInfo, Devices, DevicesDisplayInfo, JoystickInfo, KeyboardInfo, MouseDisplayInfo,
    MouseInfo, RawAxes, ValueCaps,
};
use multiinput::event::{DeviceClass, RawEvent, State, MouseButton, KeyId};
use multiinput::joystick::{HidStatus, JoystickReport, UsageValue};
use multiinput::keyboard::KeyboardReport;
use multiinput::manager::{get_device_stats, DeviceStats, ManagerState};
use multiinput::mouse::MouseReport;
use multiinput::rawinput::{get_event, get_joystick_state, get_serial_number, produce_raw_device_list, read_input_buffer, RawReport};
use multiinput::registrar::{DeviceType, RawInputDeviceRequest, RawInputRegistrar, XInputInclude};
use multiinput::registrar::is_joystick_usage;

fn mouse(h: usize, name: &str, serial: Option<&str>) -> DeviceInfo {
    DeviceInfo::Mouse(MouseInfo::new(h, name.to_string(), serial.map(|s| s.to_string())))
}

fn keyboard(h: usize, name: &str) -> DeviceInfo {
    DeviceInfo::Keyboard(KeyboardInfo::new(h, name.to_string(), None))
}

fn joystick(h: usize, name: &str) -> DeviceInfo {
    DeviceInfo::Joystick(JoystickInfo::new(
        h,
        name.to_string(),
        None,
        vec![ButtonCaps { usage_page: 9, usage_min: 1, usage_max: 4 }],
        vec![
            ValueCaps { usage_page: 1, usage: 0x30, logical_min: 0, logical_max: 255 },
            ValueCaps { usage_page: 1, usage: 0x31, logical_min: 0, logical_max: 255 },
        ],
        vec![1, 2, 3],
    ))
}

fn all_classes() -> RawInputRegistrar {
    RawInputRegistrar { include_xinput: true, mice: true, keyboards: true, joysticks: true }
}

#[test]
fn registrar_requests_usages() {
    let mut r = RawInputRegistrar::new();
    assert_eq!(r.register_devices(DeviceType::Mice), vec![RawInputDeviceRequest { usage_page: 1, usage: 2 }]);
    assert_eq!(
        r.register_devices(DeviceType::Joysticks(XInputInclude::False)),
        vec![RawInputDeviceRequest { usage_page: 1, usage: 4 }, RawInputDeviceRequest { usage_page: 1, usage: 5 }]
    );
    assert_eq!(r.register_devices(DeviceType::Keyboards), vec![RawInputDeviceRequest { usage_page: 1, usage: 6 }]);
    assert!(r.mice && r.keyboards && r.joysticks && !r.include_xinput);
}

#[test]
fn joystick_usages_are_recognised() {
    assert!(is_joystick_usage(1, 4));
    assert!(is_joystick_usage(1, 5));
    assert!(!is_joystick_usage(1, 2));
    assert!(!is_joystick_usage(12, 4));
}

#[test]
fn catalog_assigns_positions_per_class() {
    let d = produce_raw_device_list(
        vec![mouse(10, "m0", None), keyboard(20, "k0"), mouse(11, "m1", None), joystick(30, "j0")],
        &all_classes(),
    );
    assert_eq!(d.mice.len(), 2);
    assert_eq!(d.original_device_map.get(&10), Some(&0));
    assert_eq!(d.original_device_map.get(&11), Some(&1));
    assert_eq!(d.original_device_map.get(&20), Some(&0));
    assert_eq!(d.original_device_map.get(&30), Some(&0));
    assert_eq!(d.device_map, d.original_device_map);
}

#[test]
fn devices_with_one_serial_are_merged() {
    let d = produce_raw_device_list(
        vec![mouse(10, "a", Some("SERIAL-0001")), mouse(11, "b", None), mouse(12, "c", Some("SERIAL-0001"))],
        &all_classes(),
    );
    assert_eq!(d.mice.len(), 2);
    assert_eq!(d.mice[0].names, vec!["a".to_string(), "c".to_string()]);
    assert_eq!(d.mice[0].handles, vec![10, 12]);
    assert_eq!(d.original_device_map.get(&12), Some(&0));
    assert_eq!(d.original_device_map.get(&11), Some(&1));
}

#[test]
fn repeated_handle_is_catalogued_once() {
    let d = produce_raw_device_list(vec![mouse(10, "a", None), mouse(10, "b", None)], &all_classes());
    assert_eq!(d.mice.len(), 1);
}

#[test]
fn xinput_gamepads_need_inclusion() {
    let pad = || joystick(30, "HID#VID_045E&IG_00");
    let mut reg = all_classes();
    reg.include_xinput = false;
    assert_eq!(produce_raw_device_list(vec![pad()], &reg).joysticks.len(), 0);
    reg.include_xinput = true;
    assert_eq!(produce_raw_device_list(vec![pad()], &reg).joysticks.len(), 1);
}

#[test]
fn filter_then_unfilter_restores_map() {
    let mut d = produce_raw_device_list(
        vec![mouse(10, "m0", None), mouse(11, "m1", None), keyboard(20, "k0"), joystick(30, "j0")],
        &all_classes(),
    );
    let full = d.original_device_map.clone();
    let mut names = HashSet::new();
    names.insert("m1".to_string());
    names.insert("j0".to_string());
    d.filter_device_map(names);
    assert_eq!(d.device_map.len(), 2);
    assert_eq!(d.device_map.get(&11), Some(&1));
    assert_eq!(d.device_map.get(&30), Some(&0));
    assert_eq!(d.mice.len(), 2);
    d.filter_device_map(HashSet::new());
    assert!(d.device_map.is_empty());
    d.reset_device_map();
    assert_eq!(d.device_map, full);
}

#[test]
fn filtered_out_devices_are_silent() {
    let mut d = produce_raw_device_list(vec![mouse(10, "m0", None), mouse(11, "m1", None)], &all_classes());
    let mut names = HashSet::new();
    names.insert("m1".to_string());
    d.filter_device_map(names);
    let click = MouseReport { button_flags: 1, button_data: 0, last_x: 0, last_y: 0 };
    let mut q = std::collections::VecDeque::new();
    read_input_buffer(&mut q, &mut d, &vec![RawReport::Mouse(10, click), RawReport::Mouse(11, click)]);
    assert_eq!(q.into_iter().collect::<Vec<_>>(), vec![RawEvent::MouseButtonEvent(1, MouseButton::Left, State::Pressed)]);
}

#[test]
fn queue_is_drained_before_new_reports_are_read() {
    let mut d = produce_raw_device_list(vec![mouse(10, "m0", None)], &all_classes());
    let mut q = std::collections::VecDeque::new();
    let click = MouseReport { button_flags: 1 | 2, button_data: 0, last_x: 0, last_y: 0 };
    let batch = vec![RawReport::Mouse(10, click)];
    assert_eq!(get_event(&mut q, &mut d, &batch), Some(RawEvent::MouseButtonEvent(0, MouseButton::Left, State::Pressed)));
    assert_eq!(get_event(&mut q, &mut d, &batch), Some(RawEvent::MouseButtonEvent(0, MouseButton::Left, State::Released)));
    assert_eq!(get_event(&mut q, &mut d, &vec![]), None);
}

#[test]
fn report_with_wrong_class_handle_is_dropped() {
    let mut d = produce_raw_device_list(vec![mouse(10, "m0", None)], &all_classes());
    let mut q = std::collections::VecDeque::new();
    read_input_buffer(&mut q, &mut d, &vec![RawReport::Keyboard(10, KeyboardReport { flags: 0, vkey: 0x41 })]);
    assert!(q.is_empty());
}

#[test]
fn joystick_state_lookup() {
    let d = produce_raw_device_list(vec![joystick(30, "j0")], &all_classes());
    let s = get_joystick_state(&d, 0).unwrap();
    assert_eq!(s.button_states, vec![false; 4]);
    assert_eq!(s.raw_axis_states, RawAxes::new());
    assert!(get_joystick_state(&d, 1).is_none());
}

#[test]
fn serial_needs_more_than_ten_units() {
    let mut units: Vec<u16> = "SERIAL-0001".encode_utf16().collect();
    units.push(0);
    units.resize(128, 0);
    assert_eq!(get_serial_number(&units, true), Some(11));
    assert_eq!(get_serial_number(&units, false), None);
    let mut short: Vec<u16> = "SHORT".encode_utf16().collect();
    short.resize(128, 0);
    assert_eq!(get_serial_number(&short, true), None);
}

#[test]
fn display_info_keeps_names_and_serials() {
    let d = produce_raw_device_list(vec![mouse(10, "m0", Some("SERIAL-0001")), keyboard(20, "k0")], &all_classes());
    let shown = DevicesDisplayInfo::from(d);
    assert_eq!(shown.mice.len(), 1);
    assert_eq!(shown.mice[0].names, vec!["m0".to_string()]);
    assert_eq!(shown.mice[0].serial, Some("SERIAL-0001".to_string()));
    assert_eq!(shown.keyboards[0].names, vec!["k0".to_string()]);
    let m: MouseDisplayInfo = MouseInfo::new(1, "x".to_string(), None).into();
    assert_eq!(m.names, vec!["x".to_string()]);
}

#[test]
fn device_stats_after_registering_mice_and_keyboard() {
    let mut state = ManagerState::new();
    state.complete_registration(DeviceType::Mice, vec![mouse(10, "m0", None), mouse(11, "m1", None), keyboard(20, "k0"), joystick(30, "j0")]);
    state.complete_registration(DeviceType::Keyboards, vec![mouse(10, "m0", None), mouse(11, "m1", None), keyboard(20, "k0"), joystick(30, "j0")]);
    assert_eq!(
        state.get_device_stats(),
        DeviceStats { number_of_mice: 2, number_of_keyboards: 1, number_of_joysticks: 0 }
    );
    let empty = Devices::new();
    assert_eq!(get_device_stats(&empty), DeviceStats { number_of_mice: 0, number_of_keyboards: 0, number_of_joysticks: 0 });
}

#[test]
fn unregistered_class_gives_no_events() {
    let found = || vec![mouse(10, "m0", None), keyboard(20, "k0"), joystick(30, "j0")];
    let mut state = ManagerState::new();
    state.complete_registration(DeviceType::Mice, found());
    state.complete_registration(DeviceType::Keyboards, found());
    let batch = vec![
        RawReport::Hid(30, JoystickReport { usages_status: HidStatus::Success, pressed_usages: vec![1], values: vec![] }),
        RawReport::Mouse(10, MouseReport { button_flags: 1, button_data: 0, last_x: 0, last_y: 0 }),
        RawReport::Keyboard(20, KeyboardReport { flags: 0, vkey: 0x20 }),
    ];
    assert!(state.needs_reports());
    let mut seen = Vec::new();
    let mut next = state.get_event(&batch);
    while let Some(e) = next {
        seen.push(e);
        assert!(!state.needs_reports() || seen.len() == 2);
        next = state.get_event(&vec![]);
    }
    assert_eq!(
        seen,
        vec![
            RawEvent::MouseButtonEvent(0, MouseButton::Left, State::Pressed),
            RawEvent::KeyboardEvent(0, KeyId::Space, State::Pressed),
        ]
    );
    let _ = DeviceClass::Joystick;
}

#[test]
fn manager_scenario_with_joystick() {
    let mut state = ManagerState::new();
    let requests = state.begin_registration(DeviceType::Joysticks(XInputInclude::True));
    assert_eq!(requests.len(), 2);
    assert_eq!(state.get_device_stats(), DeviceStats::default());
    state.complete_registration(DeviceType::Joysticks(XInputInclude::True), vec![joystick(30, "j0")]);
    let report = JoystickReport {
        usages_status: HidStatus::Success,
        pressed_usages: vec![2],
        values: vec![
            UsageValue { status: HidStatus::Success, value: 128 },
            UsageValue { status: HidStatus::Success, value: 0 },
        ],
    };
    let first = state.get_event(&vec![RawReport::Hid(30, report)]);
    assert_eq!(first, Some(RawEvent::JoystickButtonEvent(0, 1, State::Pressed)));
    assert!(matches!(state.get_event(&vec![]), Some(RawEvent::JoystickAxisEvent(0, multiinput::event::Axis::X, _))));
    assert_eq!(state.get_event(&vec![]), None);
    let s = state.get_joystick_state(0).unwrap();
    assert_eq!(s.button_states, vec![false, true, false, false]);
    assert!(state.get_joystick_state(1).is_none());
}

#[test]
fn manager_filter_and_unfilter() {
    let mut state = ManagerState::new();
    state.complete_registration(DeviceType::Mice, vec![mouse(10, "m0", None), mouse(11, "m1", None)]);
    let mut names = HashSet::new();
    names.insert("m0".to_string());
    state.filter_devices(names);
    assert_eq!(state.devices().device_map.len(), 1);
    state.unfilter_devices();
    assert_eq!(state.devices().device_map.len(), 2);
}

#[test]
fn defaults_are_empty() {
    assert_eq!(RawInputRegistrar::default(), RawInputRegistrar::new());
    assert_eq!(DeviceStats::default(), DeviceStats { number_of_mice: 0, number_of_keyboards: 0, number_of_joysticks: 0 });
}

#[test]
fn remote_desktop_devices_are_left_out() {
    let d = produce_raw_device_list(
        vec![
            mouse(10, "\\\\?\\Root#RDP_MOU#0000#{378de44c}", None),
            keyboard(20, "\\\\?\\Root#RDP_KBD#0000#{884b96c3}"),
            mouse(11, "\\\\?\\HID#VID_046D&PID_C077", None),
        ],
        &all_classes(),
    );
    assert_eq!(d.mice.len(), 1);
    assert_eq!(d.mice[0].handles, vec![11]);
    assert_eq!(d.mice[0].names, vec!["\\\\?\\HID#VID_046D&PID_C077".to_string()]);
    assert!(d.keyboards.is_empty());
    assert_eq!(d.original_device_map.get(&10), None);
    assert_eq!(d.original_device_map.get(&11), Some(&0));
}

#[test]
fn fresh_manager_has_no_joysticks() {
    let state = ManagerState::new();
    assert!(state.get_joystick_state(0).is_none());
    assert_eq!(state.get_device_stats(), DeviceStats::default());
}

#[test]
fn begin_registration_records_nothing() {
    let mut state = ManagerState::new();
    let requests = state.begin_registration(DeviceType::Mice);
    assert_eq!(requests, vec![RawInputDeviceRequest { usage_page: 1, usage: 2 }]);
    // The system refused: nothing was completed, so mice are not admitted
    // by a later registration of keyboards.
    state.complete_registration(DeviceType::Keyboards, vec![mouse(10, "m0", None), keyboard(20, "k0")]);
    assert_eq!(
        state.get_device_stats(),
        DeviceStats { number_of_mice: 0, number_of_keyboards: 1, number_of_joysticks: 0 }
    );
}
