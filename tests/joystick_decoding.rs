use multiinput::devices::{ButtonCaps, HatSwitch, JoystickInfo, JoystickState, ValueCaps};
use multiinput::event::{Axis, AxisValue, RawEvent, State};
use multiinput::joystick::{
    decode_buttons, hat_direction, normalize_axis, process_joystick_data, DecodeError, HidStatus,
    JoystickReport, UsageValue,
};

fn value_caps(usage: u16, min: i32, max: i32) -> ValueCaps {
    ValueCaps { usage_page: 1, usage, logical_min: min, logical_max: max }
}

fn ok(value: u32) -> UsageValue {
    UsageValue { status: HidStatus::Success, value }
}

fn as_f64(v: AxisValue) -> f64 {
    v.num as f64 / v.den as f64
}

fn stick(buttons: (u16, u16), axes: Vec<ValueCaps>) -> JoystickInfo {
    JoystickInfo::new(
        7,
        "stick".to_string(),
        None,
        vec![ButtonCaps { usage_page: 9, usage_min: buttons.0, usage_max: buttons.1 }],
        axes,
        vec![],
    )
}

#[test]
fn buttons_round_trip_sets_exactly_listed_usages() {
    let v = decode_buttons(6, 3, &vec![3, 5, 8]);
    assert_eq!(v, vec![true, false, true, false, false, true]);
}

#[test]
fn buttons_outside_range_are_ignored() {
    let v = decode_buttons(4, 1, &vec![0, 2, 5, 9]);
    assert_eq!(v, vec![false, true, false, false]);
}

#[test]
fn initial_state_has_declared_axes_only() {
    let s = JoystickState::new(
        vec![ButtonCaps { usage_page: 9, usage_min: 1, usage_max: 4 }],
        vec![value_caps(0x30, 0, 255), value_caps(0x36, 0, 255), value_caps(0x39, 0, 7)],
    );
    assert_eq!(s.button_states, vec![false; 4]);
    assert_eq!(s.axis_states.x, Some(AxisValue { num: 0, den: 1 }));
    assert_eq!(s.axis_states.y, None);
    assert_eq!(s.axis_states.slider, Some(AxisValue { num: 0, den: 1 }));
    assert_eq!(s.hatswitch, Some(HatSwitch::Center));
}

#[test]
fn no_button_caps_gives_no_buttons() {
    let s = JoystickState::new(vec![], vec![]);
    assert!(s.button_states.is_empty());
    assert_eq!(s.hatswitch, None);
}

#[test]
fn normalization_hits_both_ends_and_middle() {
    assert_eq!(normalize_axis(0, 0, 255), Some(AxisValue { num: -255, den: 255 }));
    assert_eq!(normalize_axis(255, 0, 255), Some(AxisValue { num: 255, den: 255 }));
    let mid = normalize_axis(128, 0, 255).unwrap();
    assert!((as_f64(mid) - 1.0 / 255.0).abs() < 1e-12);
    for raw in 0..=255u32 {
        let v = as_f64(normalize_axis(raw, 0, 255).unwrap());
        assert!(v >= -1.0 && v <= 1.0);
    }
}

#[test]
fn normalization_wraps_values_above_max() {
    // Range [-128, 127]: raw 255 is -1 in two's complement.
    let v = normalize_axis(255, -128, 127).unwrap();
    assert_eq!(v, AxisValue { num: 2 * (-1 + 128) - 255, den: 255 });
}

#[test]
fn empty_range_gives_no_value() {
    assert_eq!(normalize_axis(5, 3, 3), None);
}

#[test]
fn hat_offsets_map_clockwise_from_up() {
    let expected = [
        HatSwitch::Up,
        HatSwitch::UpRight,
        HatSwitch::Right,
        HatSwitch::DownRight,
        HatSwitch::Down,
        HatSwitch::DownLeft,
        HatSwitch::Left,
        HatSwitch::UpLeft,
    ];
    for (i, h) in expected.iter().enumerate() {
        assert_eq!(hat_direction(10 + i as u32, 10), *h);
    }
    assert_eq!(hat_direction(18, 10), HatSwitch::Center);
    assert_eq!(hat_direction(9, 10), HatSwitch::Center);
}

#[test]
fn y_and_z_are_inverted() {
    let mut info = stick(
        (1, 1),
        vec![
            value_caps(0x30, 0, 255),
            value_caps(0x31, 0, 255),
            value_caps(0x32, 0, 255),
            value_caps(0x33, 0, 255),
        ],
    );
    let report = JoystickReport {
        usages_status: HidStatus::Success,
        pressed_usages: vec![],
        values: vec![ok(255), ok(255), ok(255), ok(255)],
    };
    let events = process_joystick_data(&report, 0, &mut info).unwrap();
    assert_eq!(
        events,
        vec![
            RawEvent::JoystickAxisEvent(0, Axis::X, AxisValue { num: 255, den: 255 }),
            RawEvent::JoystickAxisEvent(0, Axis::Y, AxisValue { num: -255, den: 255 }),
            RawEvent::JoystickAxisEvent(0, Axis::Z, AxisValue { num: -255, den: 255 }),
            RawEvent::JoystickAxisEvent(0, Axis::RX, AxisValue { num: 255, den: 255 }),
        ]
    );
}

#[test]
fn scenario_one_button_and_two_axes() {
    let mut info = stick((1, 4), vec![value_caps(0x30, 0, 255), value_caps(0x31, 0, 255)]);
    let report = JoystickReport {
        usages_status: HidStatus::Success,
        pressed_usages: vec![2],
        values: vec![ok(128), ok(0)],
    };
    let events = process_joystick_data(&report, 3, &mut info).unwrap();
    // Y reads raw 0, which is also its raw value in the initial state, so
    // no Y event comes from this first report.
    assert_eq!(events.len(), 2);
    assert_eq!(events[0], RawEvent::JoystickButtonEvent(3, 1, State::Pressed));
    match events[1] {
        RawEvent::JoystickAxisEvent(3, Axis::X, v) => assert!(as_f64(v).abs() < 0.01),
        ref e => panic!("unexpected event {:?}", e),
    }
    assert_eq!(info.state.axis_states.y, Some(AxisValue { num: 255, den: 255 }));
    assert!((as_f64(info.state.axis_states.y.unwrap()) - 1.0).abs() < 1e-12);
}

#[test]
fn y_moving_to_zero_reads_plus_one() {
    let mut info = stick((1, 4), vec![value_caps(0x30, 0, 255), value_caps(0x31, 0, 255)]);
    let first = JoystickReport {
        usages_status: HidStatus::Success,
        pressed_usages: vec![],
        values: vec![ok(128), ok(128)],
    };
    process_joystick_data(&first, 0, &mut info).unwrap();
    let second = JoystickReport {
        usages_status: HidStatus::Success,
        pressed_usages: vec![2],
        values: vec![ok(128), ok(0)],
    };
    let events = process_joystick_data(&second, 0, &mut info).unwrap();
    assert_eq!(
        events,
        vec![
            RawEvent::JoystickButtonEvent(0, 1, State::Pressed),
            RawEvent::JoystickAxisEvent(0, Axis::Y, AxisValue { num: 255, den: 255 }),
        ]
    );
}

#[test]
fn identical_axis_values_give_no_axis_events() {
    let mut info = stick((1, 2), vec![value_caps(0x30, 0, 255), value_caps(0x31, 0, 255)]);
    let report = JoystickReport {
        usages_status: HidStatus::Success,
        pressed_usages: vec![],
        values: vec![ok(100), ok(200)],
    };
    let first = process_joystick_data(&report, 0, &mut info).unwrap();
    assert_eq!(first.len(), 2);
    let second = process_joystick_data(&report, 0, &mut info).unwrap();
    assert!(second.iter().all(|e| !matches!(e, RawEvent::JoystickAxisEvent(..))));
    assert!(second.is_empty());
}

#[test]
fn release_follows_press() {
    let mut info = stick((1, 3), vec![]);
    let press = JoystickReport { usages_status: HidStatus::Success, pressed_usages: vec![3], values: vec![] };
    let release = JoystickReport { usages_status: HidStatus::Success, pressed_usages: vec![], values: vec![] };
    assert_eq!(
        process_joystick_data(&press, 1, &mut info).unwrap(),
        vec![RawEvent::JoystickButtonEvent(1, 2, State::Pressed)]
    );
    assert_eq!(
        process_joystick_data(&release, 1, &mut info).unwrap(),
        vec![RawEvent::JoystickButtonEvent(1, 2, State::Released)]
    );
}

#[test]
fn hat_changes_give_hat_events() {
    let mut info = stick((1, 1), vec![value_caps(0x39, 0, 7)]);
    let up = JoystickReport { usages_status: HidStatus::Success, pressed_usages: vec![], values: vec![ok(0)] };
    assert_eq!(
        process_joystick_data(&up, 0, &mut info).unwrap(),
        vec![RawEvent::JoystickHatSwitchEvent(0, HatSwitch::Up)]
    );
    assert_eq!(process_joystick_data(&up, 0, &mut info).unwrap(), vec![]);
    let centre = JoystickReport { usages_status: HidStatus::Success, pressed_usages: vec![], values: vec![ok(8)] };
    assert_eq!(
        process_joystick_data(&centre, 0, &mut info).unwrap(),
        vec![RawEvent::JoystickHatSwitchEvent(0, HatSwitch::Center)]
    );
}

#[test]
fn xinput_range_correction_applies_to_gamepads_only() {
    let mut pad = JoystickInfo::new(
        1,
        "HID#VID_045E&PID_028E&IG_00".to_string(),
        None,
        vec![],
        vec![value_caps(0x30, 0, -1)],
        vec![],
    );
    assert!(pad.is_360_controller);
    let report = JoystickReport { usages_status: HidStatus::Success, pressed_usages: vec![], values: vec![ok(65535)] };
    assert_eq!(
        process_joystick_data(&report, 0, &mut pad).unwrap(),
        vec![RawEvent::JoystickAxisEvent(0, Axis::X, AxisValue { num: 65535, den: 65535 })]
    );
    let mut other = stick((1, 1), vec![value_caps(0x30, 0, -1)]);
    assert!(!other.is_360_controller);
    assert_eq!(process_joystick_data(&report, 0, &mut other).unwrap(), vec![]);
}

#[test]
fn unavailable_value_is_skipped() {
    let mut info = stick((1, 1), vec![value_caps(0x30, 0, 255)]);
    let report = JoystickReport {
        usages_status: HidStatus::Success,
        pressed_usages: vec![],
        values: vec![UsageValue { status: HidStatus::IncompatibleReportId, value: 99 }],
    };
    assert_eq!(process_joystick_data(&report, 0, &mut info).unwrap(), vec![]);
    assert_eq!(info.state.raw_axis_states.x, 0);
}

#[test]
fn failed_button_query_is_an_error() {
    let mut info = stick((1, 2), vec![]);
    let report = JoystickReport { usages_status: HidStatus::BufferTooSmall, pressed_usages: vec![1], values: vec![] };
    assert_eq!(
        process_joystick_data(&report, 0, &mut info),
        Err(DecodeError::ButtonQuery(HidStatus::BufferTooSmall))
    );
    assert_eq!(info.state.button_states, vec![false, false]);
}

#[test]
fn failed_value_query_is_an_error() {
    let mut info = stick((1, 2), vec![value_caps(0x30, 0, 255), value_caps(0x31, 0, 255)]);
    let report = JoystickReport {
        usages_status: HidStatus::Success,
        pressed_usages: vec![1],
        values: vec![ok(4), UsageValue { status: HidStatus::InvalidPreparsedData, value: 0 }],
    };
    assert_eq!(
        process_joystick_data(&report, 0, &mut info),
        Err(DecodeError::ValueQuery(1, HidStatus::InvalidPreparsedData))
    );
    assert_eq!(info.state.raw_axis_states.x, 0);
}

#[test]
fn hat_is_reset_on_a_device_without_one() {
    let mut info = stick((1, 1), vec![value_caps(0x30, 0, 255)]);
    info.state.hatswitch = Some(HatSwitch::Left);
    let report = JoystickReport { usages_status: HidStatus::Success, pressed_usages: vec![], values: vec![ok(0)] };
    process_joystick_data(&report, 0, &mut info).unwrap();
    assert_eq!(info.state.hatswitch, None);
}

#[test]
fn hat_is_kept_when_its_reading_is_unavailable() {
    let mut info = stick((1, 1), vec![value_caps(0x39, 0, 7)]);
    let up = JoystickReport { usages_status: HidStatus::Success, pressed_usages: vec![], values: vec![ok(0)] };
    process_joystick_data(&up, 0, &mut info).unwrap();
    let missing = JoystickReport {
        usages_status: HidStatus::Success,
        pressed_usages: vec![],
        values: vec![UsageValue { status: HidStatus::IncompatibleReportId, value: 0 }],
    };
    assert_eq!(process_joystick_data(&missing, 0, &mut info).unwrap(), vec![]);
    assert_eq!(info.state.hatswitch, Some(HatSwitch::Up));
}
