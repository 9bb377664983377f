use multiinput::devices::{Axes, HatSwitch, JoystickState, RawAxes};
use multiinput::event::{Axis, AxisValue, KeyId, MouseButton, RawEvent, State};
use multiinput::keyboard::{key_id, process_keyboard_data, KeyboardReport};
use multiinput::mouse::{process_mouse_data, MouseReport};

fn state(buttons: Vec<bool>, raw_x: u32, hat: Option<HatSwitch>) -> JoystickState {
    let mut axes = Axes::new();
    axes.x = Some(AxisValue { num: raw_x as i64, den: 10 });
    let mut raw = RawAxes::new();
    raw.x = raw_x;
    JoystickState { button_states: buttons, axis_states: axes, hatswitch: hat, raw_axis_states: raw }
}

#[test]
fn one_button_difference_gives_one_event() {
    let a = state(vec![false, true, false], 3, None);
    let b = state(vec![false, true, true], 3, None);
    assert_eq!(a.compare_states(b.clone(), 4), vec![RawEvent::JoystickButtonEvent(4, 2, State::Pressed)]);
    assert_eq!(b.compare_states(a, 4), vec![RawEvent::JoystickButtonEvent(4, 2, State::Released)]);
}

#[test]
fn compare_orders_buttons_axes_hat() {
    let a = state(vec![true, false], 1, Some(HatSwitch::Up));
    let b = state(vec![false, true], 2, Some(HatSwitch::Left));
    assert_eq!(
        a.compare_states(b, 0),
        vec![
            RawEvent::JoystickButtonEvent(0, 0, State::Released),
            RawEvent::JoystickButtonEvent(0, 1, State::Pressed),
            RawEvent::JoystickAxisEvent(0, Axis::X, AxisValue { num: 2, den: 10 }),
            RawEvent::JoystickHatSwitchEvent(0, HatSwitch::Left),
        ]
    );
}

#[test]
fn hat_event_needs_both_sides() {
    let a = state(vec![], 0, None);
    let b = state(vec![], 0, Some(HatSwitch::Down));
    assert_eq!(a.compare_states(b, 0), vec![]);
}

#[test]
fn slider_changes_are_reported() {
    let a = state(vec![], 0, None);
    let mut b = state(vec![], 0, None);
    b.raw_axis_states.slider = 9;
    b.axis_states.slider = Some(AxisValue { num: 1, den: 2 });
    assert_eq!(
        a.compare_states(b, 2),
        vec![RawEvent::JoystickAxisEvent(2, Axis::Slider, AxisValue { num: 1, den: 2 })]
    );
}

#[test]
fn mouse_flags_wheel_and_motion() {
    let report = MouseReport { button_flags: 0x0001 | 0x0008 | 0x0400, button_data: 0xff88, last_x: 3, last_y: -2 };
    assert_eq!(
        process_mouse_data(&report, 1),
        vec![
            RawEvent::MouseButtonEvent(1, MouseButton::Left, State::Pressed),
            RawEvent::MouseButtonEvent(1, MouseButton::Right, State::Released),
            RawEvent::MouseWheelEvent(1, AxisValue { num: -120, den: 120 }),
            RawEvent::MouseMoveEvent(1, 3, -2),
        ]
    );
}

#[test]
fn mouse_wheel_value_is_delta_over_120() {
    let report = MouseReport { button_flags: 0x0400, button_data: 240, last_x: 0, last_y: 0 };
    match process_mouse_data(&report, 0)[0] {
        RawEvent::MouseWheelEvent(0, v) => assert_eq!(v.num as f32 / v.den as f32, 2.0),
        ref e => panic!("unexpected event {:?}", e),
    }
}

#[test]
fn quiet_mouse_report_gives_nothing() {
    let report = MouseReport { button_flags: 0, button_data: 0, last_x: 0, last_y: 0 };
    assert!(process_mouse_data(&report, 0).is_empty());
}

#[test]
fn extra_buttons_are_decoded() {
    let report = MouseReport { button_flags: 0x0040 | 0x0200 | 0x0020, button_data: 0, last_x: 0, last_y: 0 };
    assert_eq!(
        process_mouse_data(&report, 0),
        vec![
            RawEvent::MouseButtonEvent(0, MouseButton::Middle, State::Released),
            RawEvent::MouseButtonEvent(0, MouseButton::Button4, State::Pressed),
            RawEvent::MouseButtonEvent(0, MouseButton::Button5, State::Released),
        ]
    );
}

#[test]
fn keyboard_press_and_release() {
    let press = KeyboardReport { flags: 0, vkey: 0x41 };
    let release = KeyboardReport { flags: 1, vkey: 0x1B };
    assert_eq!(process_keyboard_data(&press, 2), vec![RawEvent::KeyboardEvent(2, KeyId::A, State::Pressed)]);
    assert_eq!(
        process_keyboard_data(&release, 2),
        vec![RawEvent::KeyboardEvent(2, KeyId::Escape, State::Released)]
    );
}

#[test]
fn extended_flag_picks_right_hand_keys() {
    assert_eq!(key_id(0x11, false), Some(KeyId::LeftCtrl));
    assert_eq!(key_id(0x11, true), Some(KeyId::RightCtrl));
    assert_eq!(key_id(0x12, false), Some(KeyId::LeftAlt));
    assert_eq!(key_id(0x12, true), Some(KeyId::RightAlt));
    assert_eq!(key_id(0x35, false), Some(KeyId::Five));
    assert_eq!(key_id(0x7B, false), Some(KeyId::F12));
    assert_eq!(key_id(0xDF, false), Some(KeyId::BackTick));
}

#[test]
fn unknown_key_is_dropped() {
    let report = KeyboardReport { flags: 0, vkey: 0x5B };
    assert!(process_keyboard_data(&report, 0).is_empty());
}

#[test]
fn page_keys_follow_their_codes() {
    assert_eq!(key_id(0x21, false), Some(KeyId::PageUp));
    assert_eq!(key_id(0x22, false), Some(KeyId::PageDown));
}
