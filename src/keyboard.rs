use vstd::prelude::*;

use crate::event::{KeyId, RawEvent, State};

verus! {
/// Report flag: the key went up.
pub const RI_KEY_BREAK: u16 = 1;
/// Report flag: the key carries the extended (E0) prefix.
pub const RI_KEY_E0: u16 = 2;
/// Virtual-key code of the Ctrl key; left or right by the extended flag.
pub const VK_CONTROL: u16 = 0x11;
/// Virtual-key code of the Alt key; left or right by the extended flag.
pub const VK_MENU: u16 = 0x12;
/// Virtual-key code mapped to `KeyId::Shift`.
pub const VK_SHIFT: u16 = 0x10;
/// Virtual-key code mapped to `KeyId::Escape`.
pub const VK_ESCAPE: u16 = 0x1B;
/// Virtual-key code mapped to `KeyId::Return`.
pub const VK_RETURN: u16 = 0x0D;
/// Virtual-key code mapped to `KeyId::Backspace`.
pub const VK_BACK: u16 = 0x08;
/// Virtual-key code mapped to `KeyId::Left`.
pub const VK_LEFT: u16 = 0x25;
/// Virtual-key code mapped to `KeyId::Right`.
pub const VK_RIGHT: u16 = 0x27;
/// Virtual-key code mapped to `KeyId::Up`.
pub const VK_UP: u16 = 0x26;
/// Virtual-key code mapped to `KeyId::Down`.
pub const VK_DOWN: u16 = 0x28;
/// Virtual-key code mapped to `KeyId::Space`.
pub const VK_SPACE: u16 = 0x20;
/// Virtual-key code mapped to `KeyId::LeftCtrl`.
pub const VK_LCONTROL: u16 = 0xA2;
/// Virtual-key code mapped to `KeyId::RightCtrl`.
pub const VK_RCONTROL: u16 = 0xA3;
/// Virtual-key code mapped to `KeyId::LeftAlt`.
pub const VK_LMENU: u16 = 0xA4;
/// Virtual-key code mapped to `KeyId::RightAlt`.
pub const VK_RMENU: u16 = 0xA5;
/// Virtual-key code mapped to `KeyId::CapsLock`.
pub const VK_CAPITAL: u16 = 0x14;
/// Virtual-key code mapped to `KeyId::Pause`.
pub const VK_PAUSE: u16 = 0x13;
/// Virtual-key code mapped to `KeyId::PageDown`.
pub const VK_NEXT: u16 = 0x22;
/// Virtual-key code mapped to `KeyId::PageUp`.
pub const VK_PRIOR: u16 = 0x21;
/// Virtual-key code mapped to `KeyId::PrintScreen`.
pub const VK_SNAPSHOT: u16 = 0x2C;
/// Virtual-key code mapped to `KeyId::Insert`.
pub const VK_INSERT: u16 = 0x2D;
/// Virtual-key code mapped to `KeyId::End`.
pub const VK_END: u16 = 0x23;
/// Virtual-key code mapped to `KeyId::Home`.
pub const VK_HOME: u16 = 0x24;
/// Virtual-key code mapped to `KeyId::Delete`.
pub const VK_DELETE: u16 = 0x2E;
/// Virtual-key code mapped to `KeyId::Add`.
pub const VK_ADD: u16 = 0x6B;
/// Virtual-key code mapped to `KeyId::Subtract`.
pub const VK_SUBTRACT: u16 = 0x6D;
/// Virtual-key code mapped to `KeyId::Multiply`.
pub const VK_MULTIPLY: u16 = 0x6A;
/// Virtual-key code mapped to `KeyId::Divide`.
pub const VK_DIVIDE: u16 = 0x6F;
/// Virtual-key code mapped to `KeyId::Separator`.
pub const VK_SEPARATOR: u16 = 0x6C;
/// Virtual-key code mapped to `KeyId::Decimal`.
pub const VK_DECIMAL: u16 = 0x6E;
/// Virtual-key code mapped to `KeyId::F1`.
pub const VK_F1: u16 = 0x70;
/// Virtual-key code mapped to `KeyId::F2`.
pub const VK_F2: u16 = 0x71;
/// Virtual-key code mapped to `KeyId::F3`.
pub const VK_F3: u16 = 0x72;
/// Virtual-key code mapped to `KeyId::F4`.
pub const VK_F4: u16 = 0x73;
/// Virtual-key code mapped to `KeyId::F5`.
pub const VK_F5: u16 = 0x74;
/// Virtual-key code mapped to `KeyId::F6`.
pub const VK_F6: u16 = 0x75;
/// Virtual-key code mapped to `KeyId::F7`.
pub const VK_F7: u16 = 0x76;
/// Virtual-key code mapped to `KeyId::F8`.
pub const VK_F8: u16 = 0x77;
/// Virtual-key code mapped to `KeyId::F9`.
pub const VK_F9: u16 = 0x78;
/// Virtual-key code mapped to `KeyId::F10`.
pub const VK_F10: u16 = 0x79;
/// Virtual-key code mapped to `KeyId::F11`.
pub const VK_F11: u16 = 0x7A;
/// Virtual-key code mapped to `KeyId::F12`.
pub const VK_F12: u16 = 0x7B;
/// Virtual-key code mapped to `KeyId::BackTick`.
pub const VK_OEM_8: u16 = 0xDF;

/// One raw keyboard report: its flags and virtual-key code.
#[derive(PartialEq, Eq, Structural, Clone, Copy, Debug)]
pub struct KeyboardReport {
    pub flags: u16,
    pub vkey: u16,
}

/// The key a virtual-key code stands for; `extended` tells the right-hand
/// Ctrl and Alt from the left-hand ones. Digits and letters use their ASCII
/// codes. Codes outside the table stand for no key.
pub open spec fn key_of(vkey: u16, extended: bool) -> Option<KeyId> {
    if vkey == VK_CONTROL {
        if extended {
            Some(KeyId::RightCtrl)
        } else {
            Some(KeyId::LeftCtrl)
        }
    } else if vkey == VK_MENU {
        if extended {
            Some(KeyId::RightAlt)
        } else {
            Some(KeyId::LeftAlt)
        }
    } else if vkey == VK_SHIFT {
        Some(KeyId::Shift)
    } else if vkey == VK_ESCAPE {
        Some(KeyId::Escape)
    } else if vkey == VK_RETURN {
        Some(KeyId::Return)
    } else if vkey == VK_BACK {
        Some(KeyId::Backspace)
    } else if vkey == VK_LEFT {
        Some(KeyId::Left)
    } else if vkey == VK_RIGHT {
        Some(KeyId::Right)
    } else if vkey == VK_UP {
        Some(KeyId::Up)
    } else if vkey == VK_DOWN {
        Some(KeyId::Down)
    } else if vkey == VK_SPACE {
        Some(KeyId::Space)
    } else if vkey == VK_LCONTROL {
        Some(KeyId::LeftCtrl)
    } else if vkey == VK_RCONTROL {
        Some(KeyId::RightCtrl)
    } else if vkey == VK_LMENU {
        Some(KeyId::LeftAlt)
    } else if vkey == VK_RMENU {
        Some(KeyId::RightAlt)
    } else if vkey == 0x30 {
        Some(KeyId::Zero)
    } else if vkey == 0x31 {
        Some(KeyId::One)
    } else if vkey == 0x32 {
        Some(KeyId::Two)
    } else if vkey == 0x33 {
        Some(KeyId::Three)
    } else if vkey == 0x34 {
        Some(KeyId::Four)
    } else if vkey == 0x35 {
        Some(KeyId::Five)
    } else if vkey == 0x36 {
        Some(KeyId::Six)
    } else if vkey == 0x37 {
        Some(KeyId::Seven)
    } else if vkey == 0x38 {
        Some(KeyId::Eight)
    } else if vkey == 0x39 {
        Some(KeyId::Nine)
    } else if vkey == 0x41 {
        Some(KeyId::A)
    } else if vkey == 0x42 {
        Some(KeyId::B)
    } else if vkey == 0x43 {
        Some(KeyId::C)
    } else if vkey == 0x44 {
        Some(KeyId::D)
    } else if vkey == 0x45 {
        Some(KeyId::E)
    } else if vkey == 0x46 {
        Some(KeyId::F)
    } else if vkey == 0x47 {
        Some(KeyId::G)
    } else if vkey == 0x48 {
        Some(KeyId::H)
    } else if vkey == 0x49 {
        Some(KeyId::I)
    } else if vkey == 0x4A {
        Some(KeyId::J)
    } else if vkey == 0x4B {
        Some(KeyId::K)
    } else if vkey == 0x4C {
        Some(KeyId::L)
    } else if vkey == 0x4D {
        Some(KeyId::M)
    } else if vkey == 0x4E {
        Some(KeyId::N)
    } else if vkey == 0x4F {
        Some(KeyId::O)
    } else if vkey == 0x50 {
        Some(KeyId::P)
    } else if vkey == 0x51 {
        Some(KeyId::Q)
    } else if vkey == 0x52 {
        Some(KeyId::R)
    } else if vkey == 0x53 {
        Some(KeyId::S)
    } else if vkey == 0x54 {
        Some(KeyId::T)
    } else if vkey == 0x55 {
        Some(KeyId::U)
    } else if vkey == 0x56 {
        Some(KeyId::V)
    } else if vkey == 0x57 {
        Some(KeyId::W)
    } else if vkey == 0x58 {
        Some(KeyId::X)
    } else if vkey == 0x59 {
        Some(KeyId::Y)
    } else if vkey == 0x5A {
        Some(KeyId::Z)
    } else if vkey == VK_CAPITAL {
        Some(KeyId::CapsLock)
    } else if vkey == VK_PAUSE {
        Some(KeyId::Pause)
    } else if vkey == VK_NEXT {
        Some(KeyId::PageDown)
    } else if vkey == VK_PRIOR {
        Some(KeyId::PageUp)
    } else if vkey == VK_SNAPSHOT {
        Some(KeyId::PrintScreen)
    } else if vkey == VK_INSERT {
        Some(KeyId::Insert)
    } else if vkey == VK_END {
        Some(KeyId::End)
    } else if vkey == VK_HOME {
        Some(KeyId::Home)
    } else if vkey == VK_DELETE {
        Some(KeyId::Delete)
    } else if vkey == VK_ADD {
        Some(KeyId::Add)
    } else if vkey == VK_SUBTRACT {
        Some(KeyId::Subtract)
    } else if vkey == VK_MULTIPLY {
        Some(KeyId::Multiply)
    } else if vkey == VK_DIVIDE {
        Some(KeyId::Divide)
    } else if vkey == VK_SEPARATOR {
        Some(KeyId::Separator)
    } else if vkey == VK_DECIMAL {
        Some(KeyId::Decimal)
    } else if vkey == VK_F1 {
        Some(KeyId::F1)
    } else if vkey == VK_F2 {
        Some(KeyId::F2)
    } else if vkey == VK_F3 {
        Some(KeyId::F3)
    } else if vkey == VK_F4 {
        Some(KeyId::F4)
    } else if vkey == VK_F5 {
        Some(KeyId::F5)
    } else if vkey == VK_F6 {
        Some(KeyId::F6)
    } else if vkey == VK_F7 {
        Some(KeyId::F7)
    } else if vkey == VK_F8 {
        Some(KeyId::F8)
    } else if vkey == VK_F9 {
        Some(KeyId::F9)
    } else if vkey == VK_F10 {
        Some(KeyId::F10)
    } else if vkey == VK_F11 {
        Some(KeyId::F11)
    } else if vkey == VK_F12 {
        Some(KeyId::F12)
    } else if vkey == VK_OEM_8 {
        Some(KeyId::BackTick)
    } else {
        None
    }
}

/// The key for a virtual-key code; see `key_of`.
pub fn key_id(vkey: u16, extended: bool) -> (r: Option<KeyId>)
    ensures
        r == key_of(vkey, extended),
{
    if vkey == VK_CONTROL {
        if extended {
            Some(KeyId::RightCtrl)
        } else {
            Some(KeyId::LeftCtrl)
        }
    } else if vkey == VK_MENU {
        if extended {
            Some(KeyId::RightAlt)
        } else {
            Some(KeyId::LeftAlt)
        }
    } else if vkey == VK_SHIFT {
        Some(KeyId::Shift)
    } else if vkey == VK_ESCAPE {
        Some(KeyId::Escape)
    } else if vkey == VK_RETURN {
        Some(KeyId::Return)
    } else if vkey == VK_BACK {
        Some(KeyId::Backspace)
    } else if vkey == VK_LEFT {
        Some(KeyId::Left)
    } else if vkey == VK_RIGHT {
        Some(KeyId::Right)
    } else if vkey == VK_UP {
        Some(KeyId::Up)
    } else if vkey == VK_DOWN {
        Some(KeyId::Down)
    } else if vkey == VK_SPACE {
        Some(KeyId::Space)
    } else if vkey == VK_LCONTROL {
        Some(KeyId::LeftCtrl)
    } else if vkey == VK_RCONTROL {
        Some(KeyId::RightCtrl)
    } else if vkey == VK_LMENU {
        Some(KeyId::LeftAlt)
    } else if vkey == VK_RMENU {
        Some(KeyId::RightAlt)
    } else if vkey == 0x30 {
        Some(KeyId::Zero)
    } else if vkey == 0x31 {
        Some(KeyId::One)
    } else if vkey == 0x32 {
        Some(KeyId::Two)
    } else if vkey == 0x33 {
        Some(KeyId::Three)
    } else if vkey == 0x34 {
        Some(KeyId::Four)
    } else if vkey == 0x35 {
        Some(KeyId::Five)
    } else if vkey == 0x36 {
        Some(KeyId::Six)
    } else if vkey == 0x37 {
        Some(KeyId::Seven)
    } else if vkey == 0x38 {
        Some(KeyId::Eight)
    } else if vkey == 0x39 {
        Some(KeyId::Nine)
    } else if vkey == 0x41 {
        Some(KeyId::A)
    } else if vkey == 0x42 {
        Some(KeyId::B)
    } else if vkey == 0x43 {
        Some(KeyId::C)
    } else if vkey == 0x44 {
        Some(KeyId::D)
    } else if vkey == 0x45 {
        Some(KeyId::E)
    } else if vkey == 0x46 {
        Some(KeyId::F)
    } else if vkey == 0x47 {
        Some(KeyId::G)
    } else if vkey == 0x48 {
        Some(KeyId::H)
    } else if vkey == 0x49 {
        Some(KeyId::I)
    } else if vkey == 0x4A {
        Some(KeyId::J)
    } else if vkey == 0x4B {
        Some(KeyId::K)
    } else if vkey == 0x4C {
        Some(KeyId::L)
    } else if vkey == 0x4D {
        Some(KeyId::M)
    } else if vkey == 0x4E {
        Some(KeyId::N)
    } else if vkey == 0x4F {
        Some(KeyId::O)
    } else if vkey == 0x50 {
        Some(KeyId::P)
    } else if vkey == 0x51 {
        Some(KeyId::Q)
    } else if vkey == 0x52 {
        Some(KeyId::R)
    } else if vkey == 0x53 {
        Some(KeyId::S)
    } else if vkey == 0x54 {
        Some(KeyId::T)
    } else if vkey == 0x55 {
        Some(KeyId::U)
    } else if vkey == 0x56 {
        Some(KeyId::V)
    } else if vkey == 0x57 {
        Some(KeyId::W)
    } else if vkey == 0x58 {
        Some(KeyId::X)
    } else if vkey == 0x59 {
        Some(KeyId::Y)
    } else if vkey == 0x5A {
        Some(KeyId::Z)
    } else if vkey == VK_CAPITAL {
        Some(KeyId::CapsLock)
    } else if vkey == VK_PAUSE {
        Some(KeyId::Pause)
    } else if vkey == VK_NEXT {
        Some(KeyId::PageDown)
    } else if vkey == VK_PRIOR {
        Some(KeyId::PageUp)
    } else if vkey == VK_SNAPSHOT {
        Some(KeyId::PrintScreen)
    } else if vkey == VK_INSERT {
        Some(KeyId::Insert)
    } else if vkey == VK_END {
        Some(KeyId::End)
    } else if vkey == VK_HOME {
        Some(KeyId::Home)
    } else if vkey == VK_DELETE {
        Some(KeyId::Delete)
    } else if vkey == VK_ADD {
        Some(KeyId::Add)
    } else if vkey == VK_SUBTRACT {
        Some(KeyId::Subtract)
    } else if vkey == VK_MULTIPLY {
        Some(KeyId::Multiply)
    } else if vkey == VK_DIVIDE {
        Some(KeyId::Divide)
    } else if vkey == VK_SEPARATOR {
        Some(KeyId::Separator)
    } else if vkey == VK_DECIMAL {
        Some(KeyId::Decimal)
    } else if vkey == VK_F1 {
        Some(KeyId::F1)
    } else if vkey == VK_F2 {
        Some(KeyId::F2)
    } else if vkey == VK_F3 {
        Some(KeyId::F3)
    } else if vkey == VK_F4 {
        Some(KeyId::F4)
    } else if vkey == VK_F5 {
        Some(KeyId::F5)
    } else if vkey == VK_F6 {
        Some(KeyId::F6)
    } else if vkey == VK_F7 {
        Some(KeyId::F7)
    } else if vkey == VK_F8 {
        Some(KeyId::F8)
    } else if vkey == VK_F9 {
        Some(KeyId::F9)
    } else if vkey == VK_F10 {
        Some(KeyId::F10)
    } else if vkey == VK_F11 {
        Some(KeyId::F11)
    } else if vkey == VK_F12 {
        Some(KeyId::F12)
    } else if vkey == VK_OEM_8 {
        Some(KeyId::BackTick)
    } else {
        None
    }
}

/// The events of one keyboard report: one event for a key in the table,
/// released when the break flag is set and pressed otherwise; none for any
/// other key.
pub open spec fn keyboard_events(r: KeyboardReport, id: usize) -> Seq<RawEvent> {
    match key_of(r.vkey, r.flags & RI_KEY_E0 != 0) {
        Some(k) => seq![
            RawEvent::KeyboardEvent(
                id,
                k,
                if r.flags & RI_KEY_BREAK != 0 {
                    State::Released
                } else {
                    State::Pressed
                },
            ),
        ],
        None => Seq::empty(),
    }
}

/// The events of one keyboard report for keyboard `id`.
pub fn process_keyboard_data(raw_data: &KeyboardReport, id: usize) -> (r: Vec<RawEvent>)
    ensures
        r@ == keyboard_events(*raw_data, id),
{
    let mut output: Vec<RawEvent> = Vec::new();
    let key_state = if raw_data.flags & RI_KEY_BREAK != 0 {
        State::Released
    } else {
        State::Pressed
    };
    let extended = raw_data.flags & RI_KEY_E0 != 0;
    if let Some(key) = key_id(raw_data.vkey, extended) {
        output.push(RawEvent::KeyboardEvent(id, key, key_state));
    }
    assert(output@ =~= keyboard_events(*raw_data, id));
    output
}

} // verus!
