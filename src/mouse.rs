use vstd::prelude::*;

use crate::event::{AxisValue, MouseButton, RawEvent, State};

verus! {

/// Left button went down.
pub const RI_MOUSE_LEFT_BUTTON_DOWN: u16 = 0x0001;
/// Left button went up.
pub const RI_MOUSE_LEFT_BUTTON_UP: u16 = 0x0002;
/// Right button went down.
pub const RI_MOUSE_RIGHT_BUTTON_DOWN: u16 = 0x0004;
/// Right button went up.
pub const RI_MOUSE_RIGHT_BUTTON_UP: u16 = 0x0008;
/// Middle button went down.
pub const RI_MOUSE_MIDDLE_BUTTON_DOWN: u16 = 0x0010;
/// Middle button went up.
pub const RI_MOUSE_MIDDLE_BUTTON_UP: u16 = 0x0020;
/// Fourth button went down.
pub const RI_MOUSE_BUTTON_4_DOWN: u16 = 0x0040;
/// Fourth button went up.
pub const RI_MOUSE_BUTTON_4_UP: u16 = 0x0080;
/// Fifth button went down.
pub const RI_MOUSE_BUTTON_5_DOWN: u16 = 0x0100;
/// Fifth button went up.
pub const RI_MOUSE_BUTTON_5_UP: u16 = 0x0200;
/// The wheel moved; the button data holds the signed delta.
pub const RI_MOUSE_WHEEL: u16 = 0x0400;
/// Wheel delta of one notch.
pub const WHEEL_DELTA: i64 = 120;

/// One raw mouse report: button transition flags, the button data word
/// (the wheel delta) and the relative motion.
#[derive(PartialEq, Eq, Structural, Clone, Copy, Debug)]
pub struct MouseReport {
    pub button_flags: u16,
    pub button_data: u16,
    pub last_x: i32,
    pub last_y: i32,
}

/// A button event when `bit` is set in `flags`.
pub open spec fn flag_event(flags: u16, bit: u16, id: usize, button: MouseButton, state: State) -> Seq<
    RawEvent,
> {
    if flags & bit != 0 {
        seq![RawEvent::MouseButtonEvent(id, button, state)]
    } else {
        Seq::empty()
    }
}

/// The button data word read as a signed 16-bit value.
pub open spec fn wheel_delta(data: u16) -> int {
    if data >= 0x8000 {
        data - 0x10000
    } else {
        data as int
    }
}

/// The wheel event, when the wheel flag is set.
pub open spec fn wheel_event(r: MouseReport, id: usize) -> Seq<RawEvent> {
    if r.button_flags & RI_MOUSE_WHEEL != 0 {
        seq![
            RawEvent::MouseWheelEvent(
                id,
                AxisValue { num: wheel_delta(r.button_data) as i64, den: WHEEL_DELTA },
            ),
        ]
    } else {
        Seq::empty()
    }
}

/// The motion event, when the mouse moved.
pub open spec fn move_event(r: MouseReport, id: usize) -> Seq<RawEvent> {
    if r.last_x != 0 || r.last_y != 0 {
        seq![RawEvent::MouseMoveEvent(id, r.last_x, r.last_y)]
    } else {
        Seq::empty()
    }
}

/// The events of one mouse report: button transitions (left, right, middle,
/// fourth, fifth; down before up), then the wheel, then the motion.
pub open spec fn mouse_events(r: MouseReport, id: usize) -> Seq<RawEvent> {
    let f = r.button_flags;
    flag_event(f, RI_MOUSE_LEFT_BUTTON_DOWN, id, MouseButton::Left, State::Pressed)
        + flag_event(f, RI_MOUSE_LEFT_BUTTON_UP, id, MouseButton::Left, State::Released)
        + flag_event(f, RI_MOUSE_RIGHT_BUTTON_DOWN, id, MouseButton::Right, State::Pressed)
        + flag_event(f, RI_MOUSE_RIGHT_BUTTON_UP, id, MouseButton::Right, State::Released)
        + flag_event(f, RI_MOUSE_MIDDLE_BUTTON_DOWN, id, MouseButton::Middle, State::Pressed)
        + flag_event(f, RI_MOUSE_MIDDLE_BUTTON_UP, id, MouseButton::Middle, State::Released)
        + flag_event(f, RI_MOUSE_BUTTON_4_DOWN, id, MouseButton::Button4, State::Pressed)
        + flag_event(f, RI_MOUSE_BUTTON_4_UP, id, MouseButton::Button4, State::Released)
        + flag_event(f, RI_MOUSE_BUTTON_5_DOWN, id, MouseButton::Button5, State::Pressed)
        + flag_event(f, RI_MOUSE_BUTTON_5_UP, id, MouseButton::Button5, State::Released)
        + wheel_event(r, id)
        + move_event(r, id)
}

fn push_flag_event(
    output: &mut Vec<RawEvent>,
    flags: u16,
    bit: u16,
    id: usize,
    button: MouseButton,
    state: State,
)
    ensures
        final(output)@ == old(output)@ + flag_event(flags, bit, id, button, state),
{
    if flags & bit != 0 {
        output.push(RawEvent::MouseButtonEvent(id, button, state));
    }
    assert(final(output)@ =~= old(output)@ + flag_event(flags, bit, id, button, state));
}

/// The events of one mouse report for mouse `id`.
pub fn process_mouse_data(raw_data: &MouseReport, id: usize) -> (r: Vec<RawEvent>)
    ensures
        r@ == mouse_events(*raw_data, id),
{
    let f = raw_data.button_flags;
    let mut output: Vec<RawEvent> = Vec::new();
    push_flag_event(&mut output, f, RI_MOUSE_LEFT_BUTTON_DOWN, id, MouseButton::Left, State::Pressed);
    push_flag_event(&mut output, f, RI_MOUSE_LEFT_BUTTON_UP, id, MouseButton::Left, State::Released);
    push_flag_event(&mut output, f, RI_MOUSE_RIGHT_BUTTON_DOWN, id, MouseButton::Right, State::Pressed);
    push_flag_event(&mut output, f, RI_MOUSE_RIGHT_BUTTON_UP, id, MouseButton::Right, State::Released);
    push_flag_event(&mut output, f, RI_MOUSE_MIDDLE_BUTTON_DOWN, id, MouseButton::Middle, State::Pressed);
    push_flag_event(&mut output, f, RI_MOUSE_MIDDLE_BUTTON_UP, id, MouseButton::Middle, State::Released);
    push_flag_event(&mut output, f, RI_MOUSE_BUTTON_4_DOWN, id, MouseButton::Button4, State::Pressed);
    push_flag_event(&mut output, f, RI_MOUSE_BUTTON_4_UP, id, MouseButton::Button4, State::Released);
    push_flag_event(&mut output, f, RI_MOUSE_BUTTON_5_DOWN, id, MouseButton::Button5, State::Pressed);
    push_flag_event(&mut output, f, RI_MOUSE_BUTTON_5_UP, id, MouseButton::Button5, State::Released);
    let ghost before_wheel = output@;
    if f & RI_MOUSE_WHEEL != 0 {
        let data = raw_data.button_data;
        let delta: i64 = if data >= 0x8000 {
            data as i64 - 0x10000
        } else {
            data as i64
        };
        output.push(RawEvent::MouseWheelEvent(id, AxisValue { num: delta, den: WHEEL_DELTA }));
    }
    assert(output@ =~= before_wheel + wheel_event(*raw_data, id));
    let ghost before_move = output@;
    if raw_data.last_x != 0 || raw_data.last_y != 0 {
        output.push(RawEvent::MouseMoveEvent(id, raw_data.last_x, raw_data.last_y));
    }
    assert(output@ =~= before_move + move_event(*raw_data, id));
    output
}

} // verus!
