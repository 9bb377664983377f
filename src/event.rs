use vstd::prelude::*;

use crate::devices::{HatSwitch, JoystickState, JoystickStateView};

verus! {

/// Whether a key or button went down or came up.
#[derive(PartialEq, Eq, Structural, Clone, Copy, Debug)]
pub enum State {
    Pressed,
    Released,
}

/// Keyboard keys that the decoder recognises.
#[derive(PartialEq, Eq, Structural, Clone, Copy, Debug, Hash)]
pub enum KeyId {
    Escape,
    Return,
    Backspace,
    Left,
    Right,
    Up,
    Down,
    Space,
    A,
    B,
    C,
    D,
    E,
    F,
    G,
    H,
    I,
    J,
    K,
    L,
    M,
    N,
    O,
    P,
    Q,
    R,
    S,
    T,
    U,
    V,
    W,
    X,
    Y,
    Z,
    F1,
    F2,
    F3,
    F4,
    F5,
    F6,
    F7,
    F8,
    F9,
    F10,
    F11,
    F12,
    Zero,
    One,
    Two,
    Three,
    Four,
    Five,
    Six,
    Seven,
    Eight,
    Nine,
    Shift,
    LeftCtrl,
    RightCtrl,
    LeftAlt,
    RightAlt,
    CapsLock,
    Pause,
    PageUp,
    PageDown,
    PrintScreen,
    Insert,
    End,
    Home,
    Delete,
    Add,
    Subtract,
    Multiply,
    Separator,
    Decimal,
    Divide,
    BackTick,
}

/// Mouse buttons.
#[derive(PartialEq, Eq, Structural, Clone, Copy, Debug, Hash)]
pub enum MouseButton {
    Left,
    Right,
    Middle,
    Button4,
    Button5,
}

/// The semantic joystick axes.
#[derive(PartialEq, Eq, Structural, Clone, Copy, Debug, Hash)]
pub enum Axis {
    X,
    Y,
    Z,
    RX,
    RY,
    RZ,
    Slider,
}

/// An exact rational value `num / den` with `den > 0`.
///
/// Normalised axis positions and wheel deltas are carried exactly; a caller
/// that wants a float divides the two parts.
#[derive(PartialEq, Eq, Structural, Clone, Copy, Debug)]
pub struct AxisValue {
    pub num: i64,
    pub den: i64,
}

impl AxisValue {
    /// The denominator is positive.
    pub open spec fn well_formed(self) -> bool {
        self.den > 0
    }

    /// The value lies in `[-1, 1]`.
    pub open spec fn in_unit_range(self) -> bool {
        -self.den <= self.num <= self.den
    }
}

/// The class of device that produced an event.
#[derive(PartialEq, Eq, Structural, Clone, Copy, Debug)]
pub enum DeviceClass {
    Mouse,
    Keyboard,
    Joystick,
}

/// Input events.
///
/// The first `usize` is a device index, unique within its device class
/// (mouse, keyboard, joystick) for one registration.
#[derive(PartialEq, Eq, Structural, Clone, Copy, Debug)]
pub enum RawEvent {
    MouseButtonEvent(usize, MouseButton, State),
    MouseMoveEvent(usize, i32, i32),
    /// The wheel movement in notches (`delta / 120`).
    MouseWheelEvent(usize, AxisValue),
    KeyboardEvent(usize, KeyId, State),
    JoystickButtonEvent(usize, usize, State),
    JoystickAxisEvent(usize, Axis, AxisValue),
    JoystickHatSwitchEvent(usize, HatSwitch),
}

/// The class of device an event speaks of.
pub open spec fn event_class(e: RawEvent) -> DeviceClass {
    match e {
        RawEvent::MouseButtonEvent(..) => DeviceClass::Mouse,
        RawEvent::MouseMoveEvent(..) => DeviceClass::Mouse,
        RawEvent::MouseWheelEvent(..) => DeviceClass::Mouse,
        RawEvent::KeyboardEvent(..) => DeviceClass::Keyboard,
        RawEvent::JoystickButtonEvent(..) => DeviceClass::Joystick,
        RawEvent::JoystickAxisEvent(..) => DeviceClass::Joystick,
        RawEvent::JoystickHatSwitchEvent(..) => DeviceClass::Joystick,
    }
}

/// The direction a button moved in, given whether it was held before.
pub open spec fn transition(was_held: bool) -> State {
    if was_held {
        State::Released
    } else {
        State::Pressed
    }
}

/// Button events for the indices below `n` at which `old` and `new` differ,
/// in ascending order of index.
pub open spec fn button_events(old: Seq<bool>, new: Seq<bool>, id: usize, n: nat) -> Seq<RawEvent>
    decreases n,
{
    if n == 0 {
        Seq::empty()
    } else {
        let k = n - 1;
        let before = button_events(old, new, id, k as nat);
        if old[k] != new[k] {
            before.push(RawEvent::JoystickButtonEvent(id, k as usize, transition(old[k])))
        } else {
            before
        }
    }
}

/// The event for one axis: present when its raw value changed and the new
/// state has a normalised value for it.
pub open spec fn axis_event(
    id: usize,
    axis: Axis,
    old_raw: u32,
    new_raw: u32,
    value: Option<AxisValue>,
) -> Seq<RawEvent> {
    if old_raw != new_raw && value is Some {
        seq![RawEvent::JoystickAxisEvent(id, axis, value->0)]
    } else {
        Seq::empty()
    }
}

/// The hat-switch event: present when both states have a direction and they
/// differ.
pub open spec fn hat_event(id: usize, old: Option<HatSwitch>, new: Option<HatSwitch>) -> Seq<
    RawEvent,
> {
    if old is Some && new is Some && old->0 != new->0 {
        seq![RawEvent::JoystickHatSwitchEvent(id, new->0)]
    } else {
        Seq::empty()
    }
}

/// Number of button positions that both states have.
pub open spec fn common_buttons(old: JoystickStateView, new: JoystickStateView) -> nat {
    if old.buttons.len() <= new.buttons.len() {
        old.buttons.len()
    } else {
        new.buttons.len()
    }
}

/// The events that explain the change from `old` to `new`: button events by
/// ascending index, then axis events, then the hat-switch event.
pub open spec fn state_changes(old: JoystickStateView, new: JoystickStateView, id: usize) -> Seq<
    RawEvent,
> {
    button_events(old.buttons, new.buttons, id, common_buttons(old, new))
        + axis_event(id, Axis::X, old.raw.x, new.raw.x, new.axes.x)
        + axis_event(id, Axis::Y, old.raw.y, new.raw.y, new.axes.y)
        + axis_event(id, Axis::Z, old.raw.z, new.raw.z, new.axes.z)
        + axis_event(id, Axis::RX, old.raw.rx, new.raw.rx, new.axes.rx)
        + axis_event(id, Axis::RY, old.raw.ry, new.raw.ry, new.axes.ry)
        + axis_event(id, Axis::RZ, old.raw.rz, new.raw.rz, new.axes.rz)
        + axis_event(id, Axis::Slider, old.raw.slider, new.raw.slider, new.axes.slider)
        + hat_event(id, old.hatswitch, new.hatswitch)
}

fn push_axis_event(
    output: &mut Vec<RawEvent>,
    id: usize,
    axis: Axis,
    old_raw: u32,
    new_raw: u32,
    value: Option<AxisValue>,
)
    ensures
        final(output)@ == old(output)@ + axis_event(id, axis, old_raw, new_raw, value),
{
    if old_raw != new_raw {
        if let Some(v) = value {
            output.push(RawEvent::JoystickAxisEvent(id, axis, v));
        }
    }
    assert(final(output)@ =~= old(output)@ + axis_event(id, axis, old_raw, new_raw, value));
}

fn push_hat_event(
    output: &mut Vec<RawEvent>,
    id: usize,
    old_hat: Option<HatSwitch>,
    new_hat: Option<HatSwitch>,
)
    ensures
        final(output)@ == old(output)@ + hat_event(id, old_hat, new_hat),
{
    if let Some(value_other) = new_hat {
        if let Some(value_self) = old_hat {
            if value_self != value_other {
                output.push(RawEvent::JoystickHatSwitchEvent(id, value_other));
            }
        }
    }
    assert(final(output)@ =~= old(output)@ + hat_event(id, old_hat, new_hat));
}

impl JoystickState {
    /// The events that lead from `self` to `other_state`, for device `id`.
    pub fn compare_states(&self, other_state: JoystickState, id: usize) -> (r: Vec<RawEvent>)
        ensures
            r@ == state_changes(self@, other_state@, id),
    {
        let mut output: Vec<RawEvent> = Vec::new();
        let n = if self.button_states.len() <= other_state.button_states.len() {
            self.button_states.len()
        } else {
            other_state.button_states.len()
        };
        let mut i: usize = 0;
        while i < n
            invariant
                i <= n,
                n == common_buttons(self@, other_state@),
                output@ == button_events(self@.buttons, other_state@.buttons, id, i as nat),
            decreases n - i,
        {
            let a = self.button_states[i];
            let b = other_state.button_states[i];
            if a != b {
                let dir = if a {
                    State::Released
                } else {
                    State::Pressed
                };
                output.push(RawEvent::JoystickButtonEvent(id, i, dir));
            }
            i = i + 1;
        }
        let old_raw = self.raw_axis_states;
        let new_raw = other_state.raw_axis_states;
        let axes = other_state.axis_states;
        push_axis_event(&mut output, id, Axis::X, old_raw.x, new_raw.x, axes.x);
        push_axis_event(&mut output, id, Axis::Y, old_raw.y, new_raw.y, axes.y);
        push_axis_event(&mut output, id, Axis::Z, old_raw.z, new_raw.z, axes.z);
        push_axis_event(&mut output, id, Axis::RX, old_raw.rx, new_raw.rx, axes.rx);
        push_axis_event(&mut output, id, Axis::RY, old_raw.ry, new_raw.ry, axes.ry);
        push_axis_event(&mut output, id, Axis::RZ, old_raw.rz, new_raw.rz, axes.rz);
        push_axis_event(&mut output, id, Axis::Slider, old_raw.slider, new_raw.slider, axes.slider);
        push_hat_event(&mut output, id, self.hatswitch, other_state.hatswitch);
        output
    }
}

proof fn lemma_button_events_equal_prefix(old: Seq<bool>, new: Seq<bool>, id: usize, m: nat)
    requires
        m <= old.len(),
        m <= new.len(),
        forall|i: int| 0 <= i < m ==> old[i] == new[i],
    ensures
        button_events(old, new, id, m) == Seq::<RawEvent>::empty(),
    decreases m,
{
    if m > 0 {
        lemma_button_events_equal_prefix(old, new, id, (m - 1) as nat);
    }
}

proof fn lemma_button_events_one_difference(
    old: Seq<bool>,
    new: Seq<bool>,
    id: usize,
    m: nat,
    k: usize,
)
    requires
        k < m <= old.len(),
        m <= new.len(),
        old[k as int] != new[k as int],
        forall|i: int| 0 <= i < m && i != k ==> old[i] == new[i],
    ensures
        button_events(old, new, id, m) == seq![
            RawEvent::JoystickButtonEvent(id, k, transition(old[k as int])),
        ],
    decreases m,
{
    if m == k + 1 {
        lemma_button_events_equal_prefix(old, new, id, k as nat);
        assert(Seq::<RawEvent>::empty().push(
            RawEvent::JoystickButtonEvent(id, k, transition(old[k as int])),
        ) =~= seq![RawEvent::JoystickButtonEvent(id, k, transition(old[k as int]))]);
    } else {
        lemma_button_events_one_difference(old, new, id, (m - 1) as nat, k);
    }
}

/// Two joystick states that differ in exactly one button, and in nothing
/// else, are explained by exactly one button event for that button: a press
/// when the button is now held, a release when it is not.
pub proof fn lemma_single_button_change(
    old: JoystickStateView,
    new: JoystickStateView,
    id: usize,
    k: usize,
)
    requires
        old.buttons.len() == new.buttons.len(),
        k < old.buttons.len(),
        old.buttons[k as int] != new.buttons[k as int],
        forall|i: int| 0 <= i < old.buttons.len() && i != k ==> old.buttons[i] == new.buttons[i],
        old.raw == new.raw,
        old.hatswitch == new.hatswitch,
    ensures
        state_changes(old, new, id) == seq![
            RawEvent::JoystickButtonEvent(
                id,
                k,
                if new.buttons[k as int] {
                    State::Pressed
                } else {
                    State::Released
                },
            ),
        ],
{
    lemma_button_events_one_difference(old.buttons, new.buttons, id, old.buttons.len(), k);
    assert(state_changes(old, new, id) =~= seq![
        RawEvent::JoystickButtonEvent(
            id,
            k,
            if new.buttons[k as int] {
                State::Pressed
            } else {
                State::Released
            },
        ),
    ]);
}

/// When no raw axis value changed, the change between two states holds no
/// axis event, whatever the normalised values are.
pub proof fn lemma_unchanged_axes_are_silent(
    old: JoystickStateView,
    new: JoystickStateView,
    id: usize,
)
    requires
        old.raw == new.raw,
    ensures
        forall|i: int|
            0 <= i < state_changes(old, new, id).len() ==> !(state_changes(
                old,
                new,
                id,
            )[i] is JoystickAxisEvent),
{
    let b = button_events(old.buttons, new.buttons, id, common_buttons(old, new));
    lemma_button_events_are_button_events(old.buttons, new.buttons, id, common_buttons(old, new));
    assert(state_changes(old, new, id) =~= b + hat_event(id, old.hatswitch, new.hatswitch));
}

proof fn lemma_button_events_are_button_events(
    old: Seq<bool>,
    new: Seq<bool>,
    id: usize,
    m: nat,
)
    ensures
        forall|i: int|
            0 <= i < button_events(old, new, id, m).len() ==> button_events(
                old,
                new,
                id,
                m,
            )[i] is JoystickButtonEvent,
    decreases m,
{
    if m > 0 {
        lemma_button_events_are_button_events(old, new, id, (m - 1) as nat);
    }
}

} // verus!
