use vstd::prelude::*;

use crate::devices::{
    button_count, first_range_button_count, has_usage, ButtonCaps, HatSwitch, JoystickInfo, JoystickState,
    JoystickStateView, RawAxes, Axes, ValueCaps, USAGE_HAT_SWITCH, USAGE_RX, USAGE_RY, USAGE_RZ,
    USAGE_SLIDER, USAGE_X, USAGE_Y, USAGE_Z,
};
use crate::event::{state_changes, AxisValue, RawEvent};

verus! {

/// Outcome of a report query to the system's HID parser.
#[derive(PartialEq, Eq, Structural, Clone, Copy, Debug)]
pub enum HidStatus {
    Success,
    /// The report does not carry the requested usage.
    IncompatibleReportId,
    InvalidReportLength,
    InvalidReportType,
    BufferTooSmall,
    InvalidPreparsedData,
    UsageNotFound,
    Other,
}

/// What the parser returned for one value capability.
#[derive(PartialEq, Eq, Structural, Clone, Copy, Debug)]
pub struct UsageValue {
    pub status: HidStatus,
    pub value: u32,
}

/// One HID input report as read through the parser: the status of the
/// button query, the usages it listed as held, and one reading per value
/// capability, in the order of the device's value capabilities.
#[derive(Clone, Debug)]
pub struct JoystickReport {
    pub usages_status: HidStatus,
    pub pressed_usages: Vec<u16>,
    pub values: Vec<UsageValue>,
}

/// Why a report could not be decoded.
#[derive(PartialEq, Eq, Structural, Clone, Copy, Debug)]
pub enum DecodeError {
    /// The query for held buttons failed.
    ButtonQuery(HidStatus),
    /// The query for the value capability at this position failed.
    ValueQuery(usize, HidStatus),
}

/// `vector[i]` is set exactly when usage `usage_min + i` is listed.
pub open spec fn button_vector(count: nat, usage_min: u16, usages: Seq<u16>) -> Seq<bool> {
    Seq::new(count, |i: int| exists|j: int| 0 <= j < usages.len() && usages[j] == usage_min + i)
}

/// The logical range used to normalise a value capability: a gamepad-class
/// controller that reports `[0, -1]` means the full unsigned 16-bit range.
pub open spec fn effective_range(caps: ValueCaps, is_360: bool) -> (i32, i32) {
    if is_360 && caps.logical_max == -1 && caps.logical_min == 0 {
        (0, 65535)
    } else {
        (caps.logical_min, caps.logical_max)
    }
}

/// A raw value above the logical maximum wraps around to a negative one.
pub open spec fn signed_value(raw: int, min: int, max: int) -> int {
    if raw > max {
        raw - (max - min + 1)
    } else {
        raw
    }
}

/// `2 * (signed - min) / (max - min) - 1`, kept as an exact fraction.
pub open spec fn normalized(raw: u32, min: i32, max: i32) -> AxisValue {
    AxisValue {
        num: (2 * (signed_value(raw as int, min as int, max as int) - min) - (max - min)) as i64,
        den: (max - min) as i64,
    }
}

/// The same fraction with its sign flipped.
pub open spec fn negated(v: AxisValue) -> AxisValue {
    AxisValue { num: (-v.num) as i64, den: v.den }
}

/// The normalised reading of an axis: Y and Z are inverted, the others are not.
pub open spec fn axis_reading(usage: u16, raw: u32, min: i32, max: i32) -> AxisValue {
    if usage == USAGE_Y || usage == USAGE_Z {
        negated(normalized(raw, min, max))
    } else {
        normalized(raw, min, max)
    }
}

/// The hat direction for an offset from the logical minimum: clockwise from
/// Up, and Center for anything outside `0..8`.
pub open spec fn hat_of(offset: int) -> HatSwitch {
    if offset == 0 {
        HatSwitch::Up
    } else if offset == 1 {
        HatSwitch::UpRight
    } else if offset == 2 {
        HatSwitch::Right
    } else if offset == 3 {
        HatSwitch::DownRight
    } else if offset == 4 {
        HatSwitch::Down
    } else if offset == 5 {
        HatSwitch::DownLeft
    } else if offset == 6 {
        HatSwitch::Left
    } else if offset == 7 {
        HatSwitch::UpLeft
    } else {
        HatSwitch::Center
    }
}

/// The eight compass directions, clockwise from Up.
pub open spec fn compass() -> Seq<HatSwitch> {
    seq![
        HatSwitch::Up,
        HatSwitch::UpRight,
        HatSwitch::Right,
        HatSwitch::DownRight,
        HatSwitch::Down,
        HatSwitch::DownLeft,
        HatSwitch::Left,
        HatSwitch::UpLeft,
    ]
}

/// A status after which the report cannot be read further.
pub open spec fn is_fatal_value_status(s: HidStatus) -> bool {
    s != HidStatus::Success && s != HidStatus::IncompatibleReportId
}

/// The reading for value capability `i`, when the report delivered one.
pub open spec fn reading(values: Seq<UsageValue>, i: int) -> Option<u32> {
    if 0 <= i < values.len() && values[i].status == HidStatus::Success {
        Some(values[i].value)
    } else {
        None
    }
}

/// Axes, raw axis values and hat switch as decoding goes along.
pub struct Decoding {
    pub axes: Axes,
    pub raw: RawAxes,
    pub hat: Option<HatSwitch>,
}

/// Takes in one value capability's reading.
pub open spec fn apply_value(acc: Decoding, caps: ValueCaps, value: Option<u32>, is_360: bool) -> Decoding {
    match value {
        None => acc,
        Some(v) => {
            if caps.usage == USAGE_HAT_SWITCH {
                Decoding { hat: Some(hat_of(v - caps.logical_min)), ..acc }
            } else {
                let (min, max) = effective_range(caps, is_360);
                let r = axis_reading(caps.usage, v, min, max);
                if min >= max {
                    acc
                } else if caps.usage == USAGE_X {
                    Decoding { axes: Axes { x: Some(r), ..acc.axes }, raw: RawAxes { x: v, ..acc.raw }, ..acc }
                } else if caps.usage == USAGE_Y {
                    Decoding { axes: Axes { y: Some(r), ..acc.axes }, raw: RawAxes { y: v, ..acc.raw }, ..acc }
                } else if caps.usage == USAGE_Z {
                    Decoding { axes: Axes { z: Some(r), ..acc.axes }, raw: RawAxes { z: v, ..acc.raw }, ..acc }
                } else if caps.usage == USAGE_RX {
                    Decoding { axes: Axes { rx: Some(r), ..acc.axes }, raw: RawAxes { rx: v, ..acc.raw }, ..acc }
                } else if caps.usage == USAGE_RY {
                    Decoding { axes: Axes { ry: Some(r), ..acc.axes }, raw: RawAxes { ry: v, ..acc.raw }, ..acc }
                } else if caps.usage == USAGE_RZ {
                    Decoding { axes: Axes { rz: Some(r), ..acc.axes }, raw: RawAxes { rz: v, ..acc.raw }, ..acc }
                } else if caps.usage == USAGE_SLIDER {
                    Decoding {
                        axes: Axes { slider: Some(r), ..acc.axes },
                        raw: RawAxes { slider: v, ..acc.raw },
                        ..acc
                    }
                } else {
                    acc
                }
            }
        },
    }
}

/// Takes in the readings of the first `n` value capabilities, in order.
pub open spec fn apply_values(
    init: Decoding,
    caps: Seq<ValueCaps>,
    values: Seq<UsageValue>,
    is_360: bool,
    n: nat,
) -> Decoding
    decreases n,
{
    if n == 0 {
        init
    } else {
        apply_value(
            apply_values(init, caps, values, is_360, (n - 1) as nat),
            caps[n - 1],
            reading(values, n - 1),
            is_360,
        )
    }
}

/// The first failed value query among the first `n` capabilities.
pub open spec fn value_error(values: Seq<UsageValue>, n: nat) -> Option<DecodeError>
    decreases n,
{
    if n == 0 {
        None
    } else if value_error(values, (n - 1) as nat) is Some {
        value_error(values, (n - 1) as nat)
    } else if n - 1 < values.len() && is_fatal_value_status(values[n - 1].status) {
        Some(DecodeError::ValueQuery((n - 1) as usize, values[n - 1].status))
    } else {
        None
    }
}

/// The hat direction a report starts from: the stored one on a device with a
/// hat switch, none on any other. A hat reading, when there is one, replaces it.
pub open spec fn initial_hat(value_caps: Seq<ValueCaps>, stored: Option<HatSwitch>) -> Option<HatSwitch> {
    if has_usage(value_caps, USAGE_HAT_SWITCH) {
        stored
    } else {
        None
    }
}

/// Whether some value capability carries usage `u`.
pub fn declares_usage(caps: &Vec<ValueCaps>, u: u16) -> (r: bool)
    ensures
        r == has_usage(caps@, u),
{
    let mut i: usize = 0;
    while i < caps.len()
        invariant
            i <= caps.len(),
            forall|j: int| 0 <= j < i ==> caps@[j].usage != u,
        decreases caps.len() - i,
    {
        if caps[i].usage == u {
            assert(caps@[i as int].usage == u);
            return true;
        }
        i = i + 1;
    }
    false
}

/// The state a report decodes to, given the device's capabilities and its
/// previous state; or why it cannot be decoded.
pub open spec fn decode_report(
    button_caps: Seq<ButtonCaps>,
    value_caps: Seq<ValueCaps>,
    is_360: bool,
    prev: JoystickStateView,
    report: JoystickReport,
) -> Result<JoystickStateView, DecodeError> {
    if button_caps.len() > 0 && report.usages_status != HidStatus::Success {
        Err(DecodeError::ButtonQuery(report.usages_status))
    } else if value_error(report.values@, value_caps.len()) is Some {
        Err(value_error(report.values@, value_caps.len())->0)
    } else {
        let d = apply_values(
            Decoding { axes: prev.axes, raw: prev.raw, hat: initial_hat(value_caps, prev.hatswitch) },
            value_caps,
            report.values@,
            is_360,
            value_caps.len(),
        );
        Ok(
            JoystickStateView {
                buttons: if button_caps.len() > 0 {
                    button_vector(button_count(button_caps), button_caps[0].usage_min, report.pressed_usages@)
                } else {
                    Seq::empty()
                },
                axes: d.axes,
                hatswitch: d.hat,
                raw: d.raw,
            },
        )
    }
}

/// The button vector of a report: `count` buttons, set where the parser
/// listed usage `usage_min + i`. Listed usages outside the range are ignored.
pub fn decode_buttons(count: usize, usage_min: u16, usages: &Vec<u16>) -> (r: Vec<bool>)
    ensures
        r@ == button_vector(count as nat, usage_min, usages@),
{
    let mut states: Vec<bool> = Vec::new();
    let mut k: usize = 0;
    while k < count
        invariant
            k <= count,
            states@ == Seq::new(k as nat, |i: int| false),
        decreases count - k,
    {
        states.push(false);
        k = k + 1;
    }
    let mut j: usize = 0;
    while j < usages.len()
        invariant
            j <= usages.len(),
            states@ == Seq::new(
                count as nat,
                |i: int| exists|t: int| 0 <= t < j && usages@[t] == usage_min + i,
            ),
        decreases usages.len() - j,
    {
        let u = usages[j];
        let ghost prev = states@;
        if u >= usage_min && ((u - usage_min) as usize) < count {
            let idx = (u - usage_min) as usize;
            states.set(idx, true);
        }
        assert forall|i: int| 0 <= i < count implies states@[i] == (exists|t: int|
            0 <= t < j + 1 && usages@[t] == usage_min + i) by {
            if usages@[j as int] == usage_min + i {
                assert(0 <= j < j + 1 && usages@[j as int] == usage_min + i);
            }
            if exists|t: int| 0 <= t < j + 1 && usages@[t] == usage_min + i {
                let t = choose|t: int| 0 <= t < j + 1 && usages@[t] == usage_min + i;
                if t < j {
                    assert(prev[i]);
                }
            }
        }
        j = j + 1;
        assert(states@ =~= Seq::new(
            count as nat,
            |i: int| exists|t: int| 0 <= t < j && usages@[t] == usage_min + i,
        ));
    }
    states
}

/// The logical range to normalise with; see `effective_range`.
pub fn effective_logical_range(caps: &ValueCaps, is_360: bool) -> (r: (i32, i32))
    ensures
        r == effective_range(*caps, is_360),
{
    if is_360 && caps.logical_max == -1 && caps.logical_min == 0 {
        (0, 65535)
    } else {
        (caps.logical_min, caps.logical_max)
    }
}

/// Normalises a raw reading into `[-1, 1]` over the logical range
/// `[logical_min, logical_max]`; `None` when that range is empty.
pub fn normalize_axis(raw: u32, logical_min: i32, logical_max: i32) -> (r: Option<AxisValue>)
    ensures
        logical_min < logical_max ==> r == Some(normalized(raw, logical_min, logical_max)),
        logical_min >= logical_max ==> r is None,
{
    if logical_min >= logical_max {
        return None;
    }
    let raw_i = raw as i64;
    let min = logical_min as i64;
    let max = logical_max as i64;
    let signed = if raw_i > max {
        raw_i - (max - min + 1)
    } else {
        raw_i
    };
    Some(AxisValue { num: 2 * (signed - min) - (max - min), den: max - min })
}

/// The hat direction for a raw reading and the capability's logical minimum.
pub fn hat_direction(raw: u32, logical_min: i32) -> (r: HatSwitch)
    ensures
        r == hat_of(raw - logical_min),
{
    let offset = raw as i64 - logical_min as i64;
    if offset == 0 {
        HatSwitch::Up
    } else if offset == 1 {
        HatSwitch::UpRight
    } else if offset == 2 {
        HatSwitch::Right
    } else if offset == 3 {
        HatSwitch::DownRight
    } else if offset == 4 {
        HatSwitch::Down
    } else if offset == 5 {
        HatSwitch::DownLeft
    } else if offset == 6 {
        HatSwitch::Left
    } else if offset == 7 {
        HatSwitch::UpLeft
    } else {
        HatSwitch::Center
    }
}

/// Takes one reading into the axes, raw values and hat switch being built.
fn apply_reading(
    axes: &mut Axes,
    raw: &mut RawAxes,
    hat: &mut Option<HatSwitch>,
    caps: &ValueCaps,
    value: Option<u32>,
    is_360: bool,
)
    ensures
        apply_value(Decoding { axes: *old(axes), raw: *old(raw), hat: *old(hat) }, *caps, value, is_360)
            == (Decoding { axes: *final(axes), raw: *final(raw), hat: *final(hat) }),
{
    if let Some(v) = value {
        if caps.usage == USAGE_HAT_SWITCH {
            *hat = Some(hat_direction(v, caps.logical_min));
        } else {
            let (min, max) = effective_logical_range(caps, is_360);
            if let Some(n) = normalize_axis(v, min, max) {
                let u = caps.usage;
                let oriented = if u == USAGE_Y || u == USAGE_Z {
                    AxisValue { num: -n.num, den: n.den }
                } else {
                    n
                };
                if u == USAGE_X {
                    axes.x = Some(oriented);
                    raw.x = v;
                } else if u == USAGE_Y {
                    axes.y = Some(oriented);
                    raw.y = v;
                } else if u == USAGE_Z {
                    axes.z = Some(oriented);
                    raw.z = v;
                } else if u == USAGE_RX {
                    axes.rx = Some(oriented);
                    raw.rx = v;
                } else if u == USAGE_RY {
                    axes.ry = Some(oriented);
                    raw.ry = v;
                } else if u == USAGE_RZ {
                    axes.rz = Some(oriented);
                    raw.rz = v;
                } else if u == USAGE_SLIDER {
                    axes.slider = Some(oriented);
                    raw.slider = v;
                }
            }
        }
    }
}

/// A copy of a state, equal to it in every field.
pub fn copy_state(s: &JoystickState) -> (r: JoystickState)
    ensures
        r@ == s@,
{
    let buttons = s.button_states.clone();
    assert(buttons@ =~= s.button_states@);
    JoystickState {
        button_states: buttons,
        axis_states: s.axis_states,
        hatswitch: s.hatswitch,
        raw_axis_states: s.raw_axis_states,
    }
}

/// Decodes one report of a joystick, stores the new state and returns the
/// events that explain the change from the previous one. When the report
/// cannot be decoded the stored state is left as it was.
pub fn process_joystick_data(
    raw_data: &JoystickReport,
    id: usize,
    hid_info: &mut JoystickInfo,
) -> (r: Result<Vec<RawEvent>, DecodeError>)
    ensures
        ({
            let decoded = decode_report(
                old(hid_info).button_caps@,
                old(hid_info).value_caps@,
                old(hid_info).is_360_controller,
                old(hid_info).state@,
                *raw_data,
            );
            &&& r is Ok <==> decoded is Ok
            &&& decoded is Ok ==> r->Ok_0@ == state_changes(old(hid_info).state@, decoded->Ok_0, id)
                && final(hid_info).state@ == decoded->Ok_0
            &&& decoded is Err ==> r->Err_0 == decoded->Err_0 && final(hid_info).state@ == old(
                hid_info,
            ).state@
        }),
        final(hid_info).names == old(hid_info).names,
        final(hid_info).handles == old(hid_info).handles,
        final(hid_info).serial == old(hid_info).serial,
        final(hid_info).button_caps == old(hid_info).button_caps,
        final(hid_info).value_caps == old(hid_info).value_caps,
        final(hid_info).preparsed_data == old(hid_info).preparsed_data,
        final(hid_info).is_360_controller == old(hid_info).is_360_controller,
{
    let mut button_states: Vec<bool> = Vec::new();
    if hid_info.button_caps.len() > 0 {
        if raw_data.usages_status != HidStatus::Success {
            return Err(DecodeError::ButtonQuery(raw_data.usages_status));
        }
        let count = first_range_button_count(&hid_info.button_caps);
        button_states = decode_buttons(count, hid_info.button_caps[0].usage_min, &raw_data.pressed_usages);
    }
    let is_360 = hid_info.is_360_controller;
    let mut axes = hid_info.state.axis_states;
    let mut raw = hid_info.state.raw_axis_states;
    let mut hat = if declares_usage(&hid_info.value_caps, USAGE_HAT_SWITCH) {
        hid_info.state.hatswitch
    } else {
        None
    };
    let ghost init = Decoding { axes, raw, hat };
    let mut i: usize = 0;
    while i < hid_info.value_caps.len()
        invariant
            i <= hid_info.value_caps.len(),
            init == (Decoding {
                axes: hid_info.state.axis_states,
                raw: hid_info.state.raw_axis_states,
                hat: initial_hat(hid_info.value_caps@, hid_info.state.hatswitch),
            }),
            is_360 == hid_info.is_360_controller,
            !(hid_info.button_caps.len() > 0 && raw_data.usages_status != HidStatus::Success),
            button_states@ == (if hid_info.button_caps.len() > 0 {
                button_vector(
                    button_count(hid_info.button_caps@),
                    hid_info.button_caps@[0].usage_min,
                    raw_data.pressed_usages@,
                )
            } else {
                Seq::empty()
            }),
            value_error(raw_data.values@, i as nat) is None,
            (Decoding { axes, raw, hat }) == apply_values(
                init,
                hid_info.value_caps@,
                raw_data.values@,
                is_360,
                i as nat,
            ),
        decreases hid_info.value_caps.len() - i,
    {
        let value = if i < raw_data.values.len() {
            let v = raw_data.values[i];
            if v.status == HidStatus::Success {
                Some(v.value)
            } else if v.status == HidStatus::IncompatibleReportId {
                None
            } else {
                proof {
                    lemma_value_error_grows(raw_data.values@, (i + 1) as nat, hid_info.value_caps.len() as nat);
                }
                return Err(DecodeError::ValueQuery(i, v.status));
            }
        } else {
            None
        };
        assert(value == reading(raw_data.values@, i as int));
        apply_reading(&mut axes, &mut raw, &mut hat, &hid_info.value_caps[i], value, is_360);
        i = i + 1;
    }
    let new_state = JoystickState {
        button_states,
        axis_states: axes,
        hatswitch: hat,
        raw_axis_states: raw,
    };
    let events = hid_info.state.compare_states(copy_state(&new_state), id);
    hid_info.state = new_state;
    Ok(events)
}

/// Once a failed value query is found among the first `m` capabilities, it
/// stays the reported failure for any longer prefix.
proof fn lemma_value_error_grows(values: Seq<UsageValue>, m: nat, n: nat)
    requires
        m <= n,
        value_error(values, m) is Some,
    ensures
        value_error(values, n) == value_error(values, m),
    decreases n - m,
{
    if m < n {
        lemma_value_error_grows(values, m, (n - 1) as nat);
    }
}

/// Decoding the buttons of a report that lists usages all inside the
/// device's button range sets exactly the positions of those usages, and
/// leaves every other button released.
pub proof fn lemma_buttons_round_trip(count: nat, usage_min: u16, usages: Seq<u16>)
    requires
        forall|j: int| 0 <= j < usages.len() ==> usage_min <= #[trigger] usages[j] < usage_min + count,
    ensures
        button_vector(count, usage_min, usages).len() == count,
        Set::new(|i: int| 0 <= i < count && button_vector(count, usage_min, usages)[i])
            == usages.to_set().map(|k: u16| k - usage_min),
{
    let v = button_vector(count, usage_min, usages);
    let held = Set::new(|i: int| 0 <= i < count && v[i]);
    let listed = usages.to_set().map(|k: u16| k - usage_min);
    assert forall|i: int| held.contains(i) implies listed.contains(i) by {
        let j = choose|j: int| 0 <= j < usages.len() && usages[j] == usage_min + i;
        assert(usages.to_set().contains(usages[j]));
        assert(usages[j] - usage_min == i);
    }
    assert forall|i: int| listed.contains(i) implies held.contains(i) by {
        let k = choose|k: u16| usages.to_set().contains(k) && k - usage_min == i;
        let j = choose|j: int| 0 <= j < usages.len() && usages[j] == k;
        assert(usage_min <= usages[j] < usage_min + count);
    }
    assert(held =~= listed);
}

/// Normalisation maps the logical range onto `[-1, 1]`: the minimum to -1,
/// the maximum to +1, and every value in between into the interval.
pub proof fn lemma_normalized_bounds(raw: u32, min: i32, max: i32)
    requires
        min < max,
        min <= raw <= max,
    ensures
        normalized(raw, min, max).well_formed(),
        normalized(raw, min, max).in_unit_range(),
        raw == min ==> normalized(raw, min, max).num == -normalized(raw, min, max).den,
        raw == max ==> normalized(raw, min, max).num == normalized(raw, min, max).den,
{
}

/// Y and Z readings are the negation of what the same raw value gives on X;
/// RX, RY, RZ and the slider read exactly as X does.
pub proof fn lemma_sign_convention(raw: u32, min: i32, max: i32)
    requires
        min < max,
        0 <= raw <= 0xffff_ffffu32,
    ensures
        axis_reading(USAGE_X, raw, min, max) == normalized(raw, min, max),
        axis_reading(USAGE_Y, raw, min, max) == negated(axis_reading(USAGE_X, raw, min, max)),
        axis_reading(USAGE_Z, raw, min, max) == negated(axis_reading(USAGE_X, raw, min, max)),
        axis_reading(USAGE_RX, raw, min, max) == axis_reading(USAGE_X, raw, min, max),
        axis_reading(USAGE_RY, raw, min, max) == axis_reading(USAGE_X, raw, min, max),
        axis_reading(USAGE_RZ, raw, min, max) == axis_reading(USAGE_X, raw, min, max),
        axis_reading(USAGE_SLIDER, raw, min, max) == axis_reading(USAGE_X, raw, min, max),
{
}

/// Offsets 0 to 7 map one to one onto the eight compass directions,
/// clockwise from Up; every other offset maps to Center.
pub proof fn lemma_hat_mapping()
    ensures
        forall|i: int| 0 <= i < 8 ==> #[trigger] hat_of(i) == compass()[i],
        forall|i: int, j: int| 0 <= i < 8 && 0 <= j < 8 && i != j ==> hat_of(i) != hat_of(j),
        forall|h: HatSwitch| h != HatSwitch::Center ==> #[trigger] compass().contains(h),
        forall|i: int| (i < 0 || i >= 8) ==> #[trigger] hat_of(i) == HatSwitch::Center,
{
    assert forall|h: HatSwitch| h != HatSwitch::Center implies #[trigger] compass().contains(h) by {
        match h {
            HatSwitch::Up => assert(compass()[0] == h),
            HatSwitch::UpRight => assert(compass()[1] == h),
            HatSwitch::Right => assert(compass()[2] == h),
            HatSwitch::DownRight => assert(compass()[3] == h),
            HatSwitch::Down => assert(compass()[4] == h),
            HatSwitch::DownLeft => assert(compass()[5] == h),
            HatSwitch::Left => assert(compass()[6] == h),
            HatSwitch::UpLeft => assert(compass()[7] == h),
            HatSwitch::Center => {},
        }
    }
}

/// The axis that a usage names, read from a set of axes; `None` for a usage
/// that names no axis.
pub open spec fn axis_of(axes: Axes, usage: u16) -> Option<AxisValue> {
    if usage == USAGE_X {
        axes.x
    } else if usage == USAGE_Y {
        axes.y
    } else if usage == USAGE_Z {
        axes.z
    } else if usage == USAGE_RX {
        axes.rx
    } else if usage == USAGE_RY {
        axes.ry
    } else if usage == USAGE_RZ {
        axes.rz
    } else if usage == USAGE_SLIDER {
        axes.slider
    } else {
        None
    }
}

/// A report that the button query accepted and whose one value reading
/// succeeded with `v`.
pub open spec fn clean_single_reading(
    button_caps: Seq<ButtonCaps>,
    report: JoystickReport,
    v: u32,
) -> bool {
    &&& (button_caps.len() == 0 || report.usages_status == HidStatus::Success)
    &&& report.values@ == seq![UsageValue { status: HidStatus::Success, value: v }]
}

/// Decoding a report whose button query succeeded, on a device whose button
/// range holds every listed usage, sets exactly the listed buttons.
pub proof fn lemma_decoded_buttons(
    button_caps: Seq<ButtonCaps>,
    value_caps: Seq<ValueCaps>,
    is_360: bool,
    prev: JoystickStateView,
    report: JoystickReport,
)
    requires
        button_caps.len() > 0,
        button_caps[0].usage_min <= button_caps[0].usage_max,
        report.usages_status == HidStatus::Success,
        forall|i: int| 0 <= i < report.values@.len() ==> !is_fatal_value_status(#[trigger] report.values@[i].status),
        forall|j: int|
            0 <= j < report.pressed_usages@.len() ==> button_caps[0].usage_min <= #[trigger] report.pressed_usages@[j]
                <= button_caps[0].usage_max,
    ensures
        decode_report(button_caps, value_caps, is_360, prev, report) is Ok,
        ({
            let new = decode_report(button_caps, value_caps, is_360, prev, report)->Ok_0;
            let n = button_count(button_caps);
            &&& new.buttons.len() == n
            &&& Set::new(|i: int| 0 <= i < n && new.buttons[i]) == report.pressed_usages@.to_set().map(
                |k: u16| k - button_caps[0].usage_min,
            )
        }),
{
    lemma_no_value_error(report.values@, value_caps.len());
    lemma_buttons_round_trip(button_count(button_caps), button_caps[0].usage_min, report.pressed_usages@);
}

proof fn lemma_no_value_error(values: Seq<UsageValue>, n: nat)
    requires
        forall|i: int| 0 <= i < values.len() ==> !is_fatal_value_status(#[trigger] values[i].status),
    ensures
        value_error(values, n) is None,
    decreases n,
{
    if n > 0 {
        lemma_no_value_error(values, (n - 1) as nat);
    }
}

/// On a device with one axis capability and no range correction, a clean
/// reading inside the logical range decodes to a value in `[-1, 1]`: the
/// minimum reads -1 and the maximum +1 on X, RX, RY, RZ and the slider, and
/// the other way round on the inverted Y and Z.
pub proof fn lemma_decoded_axis(
    button_caps: Seq<ButtonCaps>,
    caps: ValueCaps,
    is_360: bool,
    prev: JoystickStateView,
    report: JoystickReport,
    v: u32,
)
    requires
        clean_single_reading(button_caps, report, v),
        USAGE_X <= caps.usage <= USAGE_SLIDER,
        caps.logical_min < caps.logical_max,
        !(is_360 && caps.logical_max == -1 && caps.logical_min == 0),
        caps.logical_min <= v <= caps.logical_max,
    ensures
        decode_report(button_caps, seq![caps], is_360, prev, report) is Ok,
        ({
            let new = decode_report(button_caps, seq![caps], is_360, prev, report)->Ok_0;
            let r = axis_reading(caps.usage, v, caps.logical_min, caps.logical_max);
            &&& axis_of(new.axes, caps.usage) == Some(r)
            &&& r.well_formed()
            &&& r.in_unit_range()
            &&& (v == caps.logical_min ==> if caps.usage == USAGE_Y || caps.usage == USAGE_Z {
                r.num == r.den
            } else {
                r.num == -r.den
            })
            &&& (v == caps.logical_max ==> if caps.usage == USAGE_Y || caps.usage == USAGE_Z {
                r.num == -r.den
            } else {
                r.num == r.den
            })
        }),
{
    lemma_no_value_error(report.values@, 1);
    lemma_normalized_bounds(v, caps.logical_min, caps.logical_max);
    assert(reading(report.values@, 0) == Some(v));
}

/// On a device with one hat-switch capability, a clean reading decodes to
/// the direction of its offset from the logical minimum.
pub proof fn lemma_decoded_hat(
    button_caps: Seq<ButtonCaps>,
    caps: ValueCaps,
    is_360: bool,
    prev: JoystickStateView,
    report: JoystickReport,
    v: u32,
)
    requires
        clean_single_reading(button_caps, report, v),
        caps.usage == USAGE_HAT_SWITCH,
    ensures
        decode_report(button_caps, seq![caps], is_360, prev, report) is Ok,
        decode_report(button_caps, seq![caps], is_360, prev, report)->Ok_0.hatswitch == Some(
            hat_of(v - caps.logical_min),
        ),
        0 <= v - caps.logical_min < 8 ==> decode_report(button_caps, seq![caps], is_360, prev, report)->Ok_0.hatswitch
            == Some(compass()[v - caps.logical_min]),
{
    lemma_no_value_error(report.values@, 1);
    lemma_hat_mapping();
    assert(reading(report.values@, 0) == Some(v));
}

} // verus!
