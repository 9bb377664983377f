use vstd::prelude::*;

use crate::event::AxisValue;
use std::collections::{HashMap, HashSet};

verus! {

broadcast use vstd::std_specs::hash::group_hash_axioms;

/// HID usage of the X axis on the generic desktop page.
pub const USAGE_X: u16 = 0x30;
/// HID usage of the Y axis.
pub const USAGE_Y: u16 = 0x31;
/// HID usage of the Z axis.
pub const USAGE_Z: u16 = 0x32;
/// HID usage of the X rotation axis.
pub const USAGE_RX: u16 = 0x33;
/// HID usage of the Y rotation axis.
pub const USAGE_RY: u16 = 0x34;
/// HID usage of the Z rotation axis.
pub const USAGE_RZ: u16 = 0x35;
/// HID usage of the slider.
pub const USAGE_SLIDER: u16 = 0x36;
/// HID usage of the hat switch.
pub const USAGE_HAT_SWITCH: u16 = 0x39;

/// A button-range capability: the buttons with usages
/// `usage_min ..= usage_max` on `usage_page`.
#[derive(PartialEq, Eq, Structural, Clone, Copy, Debug)]
pub struct ButtonCaps {
    pub usage_page: u16,
    pub usage_min: u16,
    pub usage_max: u16,
}

/// A value capability: one usage on `usage_page` with its logical range.
#[derive(PartialEq, Eq, Structural, Clone, Copy, Debug)]
pub struct ValueCaps {
    pub usage_page: u16,
    pub usage: u16,
    pub logical_min: i32,
    pub logical_max: i32,
}

/// Direction of a hat switch.
#[derive(PartialEq, Eq, Structural, Clone, Copy, Debug, Hash)]
pub enum HatSwitch {
    Center,
    Up,
    UpRight,
    Right,
    DownRight,
    Down,
    DownLeft,
    Left,
    UpLeft,
}

/// Normalised axis positions; `None` where the device has no such axis.
#[derive(PartialEq, Eq, Structural, Clone, Copy, Debug)]
pub struct Axes {
    pub x: Option<AxisValue>,
    pub y: Option<AxisValue>,
    pub z: Option<AxisValue>,
    pub rx: Option<AxisValue>,
    pub ry: Option<AxisValue>,
    pub rz: Option<AxisValue>,
    pub slider: Option<AxisValue>,
}

impl Axes {
    pub fn new() -> (r: Axes)
        ensures
            r == Axes::empty(),
    {
        Axes { x: None, y: None, z: None, rx: None, ry: None, rz: None, slider: None }
    }

    pub open spec fn empty() -> Axes {
        Axes { x: None, y: None, z: None, rx: None, ry: None, rz: None, slider: None }
    }
}

/// Last raw value seen on each axis, used to tell whether an axis moved.
#[derive(PartialEq, Eq, Structural, Clone, Copy, Debug)]
pub struct RawAxes {
    pub x: u32,
    pub y: u32,
    pub z: u32,
    pub rx: u32,
    pub ry: u32,
    pub rz: u32,
    pub slider: u32,
}

impl RawAxes {
    pub fn new() -> (r: RawAxes)
        ensures
            r == RawAxes::zero(),
    {
        RawAxes { x: 0u32, y: 0u32, z: 0u32, rx: 0u32, ry: 0u32, rz: 0u32, slider: 0u32 }
    }

    pub open spec fn zero() -> RawAxes {
        RawAxes { x: 0, y: 0, z: 0, rx: 0, ry: 0, rz: 0, slider: 0 }
    }
}

/// A mouse: its names and handles (more than one where several interfaces
/// of one device were merged) and its serial number, if it has one.
#[derive(Clone, Debug)]
pub struct MouseInfo {
    pub names: Vec<String>,
    pub handles: Vec<usize>,
    pub serial: Option<String>,
}

/// A keyboard: its names, handles and serial number.
#[derive(Clone, Debug)]
pub struct KeyboardInfo {
    pub names: Vec<String>,
    pub handles: Vec<usize>,
    pub serial: Option<String>,
}

/// A device found at enumeration, by class.
#[derive(Clone, Debug)]
pub enum DeviceInfo {
    Mouse(MouseInfo),
    Keyboard(KeyboardInfo),
    Joystick(JoystickInfo),
}

/// A joystick or gamepad: its names and handles (more than one where
/// several interfaces of one device were merged), its capabilities, the
/// descriptor data the system needs to read its reports, and its state.
#[derive(Clone, Debug)]
pub struct JoystickInfo {
    pub names: Vec<String>,
    pub handles: Vec<usize>,
    pub serial: Option<String>,
    pub button_caps: Vec<ButtonCaps>,
    pub value_caps: Vec<ValueCaps>,
    pub preparsed_data: Vec<u8>,
    pub state: JoystickState,
    pub is_360_controller: bool,
}

/// The state of a joystick: buttons, axes and hat switch.
#[derive(Clone, Debug)]
pub struct JoystickState {
    pub button_states: Vec<bool>,
    pub axis_states: Axes,
    pub hatswitch: Option<HatSwitch>,
    pub raw_axis_states: RawAxes,
}

/// The mathematical model of a `JoystickState`.
pub struct JoystickStateView {
    pub buttons: Seq<bool>,
    pub axes: Axes,
    pub hatswitch: Option<HatSwitch>,
    pub raw: RawAxes,
}

impl View for JoystickState {
    type V = JoystickStateView;

    open spec fn view(&self) -> JoystickStateView {
        JoystickStateView {
            buttons: self.button_states@,
            axes: self.axis_states,
            hatswitch: self.hatswitch,
            raw: self.raw_axis_states,
        }
    }
}

/// The neutral normalised value, `0 / 1`.
pub open spec fn neutral() -> AxisValue {
    AxisValue { num: 0, den: 1 }
}

/// Number of buttons that the first button range declares; zero when there
/// is none or the range is empty.
pub open spec fn button_count(caps: Seq<ButtonCaps>) -> nat {
    if caps.len() > 0 && caps[0].usage_min <= caps[0].usage_max {
        (caps[0].usage_max - caps[0].usage_min + 1) as nat
    } else {
        0
    }
}

/// Some value capability carries usage `u`.
pub open spec fn has_usage(caps: Seq<ValueCaps>, u: u16) -> bool {
    exists|i: int| 0 <= i < caps.len() && caps[i].usage == u
}

/// `Some(neutral)` where the capabilities declare usage `u`.
pub open spec fn declared(caps: Seq<ValueCaps>, u: u16) -> Option<AxisValue> {
    if has_usage(caps, u) {
        Some(neutral())
    } else {
        None
    }
}

/// The axes a device declares, each at its neutral position.
pub open spec fn declared_axes(caps: Seq<ValueCaps>) -> Axes {
    Axes {
        x: declared(caps, USAGE_X),
        y: declared(caps, USAGE_Y),
        z: declared(caps, USAGE_Z),
        rx: declared(caps, USAGE_RX),
        ry: declared(caps, USAGE_RY),
        rz: declared(caps, USAGE_RZ),
        slider: declared(caps, USAGE_SLIDER),
    }
}

/// The state a device starts in: no button held, declared axes neutral,
/// the hat switch centred if the device has one.
pub open spec fn initial_state(
    button_caps: Seq<ButtonCaps>,
    value_caps: Seq<ValueCaps>,
) -> JoystickStateView {
    JoystickStateView {
        buttons: Seq::new(button_count(button_caps), |i: int| false),
        axes: declared_axes(value_caps),
        hatswitch: if has_usage(value_caps, USAGE_HAT_SWITCH) {
            Some(HatSwitch::Center)
        } else {
            None
        },
        raw: RawAxes::zero(),
    }
}

proof fn lemma_has_usage_extend(caps: Seq<ValueCaps>, i: int, w: u16)
    requires
        0 <= i < caps.len(),
    ensures
        has_usage(caps.take(i + 1), w) == (has_usage(caps.take(i), w) || caps[i].usage == w),
{
    let before = caps.take(i);
    let after = caps.take(i + 1);
    if has_usage(after, w) {
        let j = choose|j: int| 0 <= j < after.len() && after[j].usage == w;
        if j < i {
            assert(before[j] == after[j]);
        }
    }
    if has_usage(before, w) {
        let j = choose|j: int| 0 <= j < before.len() && before[j].usage == w;
        assert(before[j] == after[j]);
    }
    if caps[i].usage == w {
        assert(after[i] == caps[i]);
    }
}

/// Number of buttons in the first button range, computed without overflow.
pub fn first_range_button_count(caps: &Vec<ButtonCaps>) -> (r: usize)
    ensures
        r == button_count(caps@),
{
    if caps.len() > 0 && caps[0].usage_min <= caps[0].usage_max {
        (caps[0].usage_max - caps[0].usage_min) as usize + 1
    } else {
        0
    }
}

impl JoystickState {
    /// Builds the initial state of a device from its capabilities.
    pub fn new(p_button_caps: Vec<ButtonCaps>, p_value_caps: Vec<ValueCaps>) -> (r: JoystickState)
        ensures
            r@ == initial_state(p_button_caps@, p_value_caps@),
    {
        let n = first_range_button_count(&p_button_caps);
        let mut button_states: Vec<bool> = Vec::new();
        let mut k: usize = 0;
        while k < n
            invariant
                k <= n,
                button_states@ == Seq::new(k as nat, |i: int| false),
            decreases n - k,
        {
            button_states.push(false);
            k = k + 1;
        }
        let mut axis_states = Axes::new();
        let mut hatswitch: Option<HatSwitch> = None;
        let zero = AxisValue { num: 0, den: 1 };
        let mut i: usize = 0;
        while i < p_value_caps.len()
            invariant
                i <= p_value_caps.len(),
                zero == neutral(),
                axis_states == declared_axes(p_value_caps@.take(i as int)),
                hatswitch == (if has_usage(p_value_caps@.take(i as int), USAGE_HAT_SWITCH) {
                    Some(HatSwitch::Center)
                } else {
                    None
                }),
            decreases p_value_caps.len() - i,
        {
            let u = p_value_caps[i].usage;
            proof {
                lemma_has_usage_extend(p_value_caps@, i as int, USAGE_X);
                lemma_has_usage_extend(p_value_caps@, i as int, USAGE_Y);
                lemma_has_usage_extend(p_value_caps@, i as int, USAGE_Z);
                lemma_has_usage_extend(p_value_caps@, i as int, USAGE_RX);
                lemma_has_usage_extend(p_value_caps@, i as int, USAGE_RY);
                lemma_has_usage_extend(p_value_caps@, i as int, USAGE_RZ);
                lemma_has_usage_extend(p_value_caps@, i as int, USAGE_SLIDER);
                lemma_has_usage_extend(p_value_caps@, i as int, USAGE_HAT_SWITCH);
            }
            if u == USAGE_X {
                axis_states.x = Some(zero);
            }
            if u == USAGE_Y {
                axis_states.y = Some(zero);
            }
            if u == USAGE_Z {
                axis_states.z = Some(zero);
            }
            if u == USAGE_RX {
                axis_states.rx = Some(zero);
            }
            if u == USAGE_RY {
                axis_states.ry = Some(zero);
            }
            if u == USAGE_RZ {
                axis_states.rz = Some(zero);
            }
            if u == USAGE_SLIDER {
                axis_states.slider = Some(zero);
            }
            if u == USAGE_HAT_SWITCH {
                hatswitch = Some(HatSwitch::Center);
            }
            i = i + 1;
        }
        assert(p_value_caps@.take(p_value_caps.len() as int) =~= p_value_caps@);
        JoystickState {
            button_states,
            axis_states,
            hatswitch,
            raw_axis_states: RawAxes::new(),
        }
    }
}

/// What the catalog knows of one device entry: its names, its handles and
/// its serial number.
pub struct EntryView {
    pub names: Seq<Seq<char>>,
    pub handles: Seq<usize>,
    pub serial: Option<Seq<char>>,
}

/// The view of an optional string.
pub open spec fn opt_view(s: Option<String>) -> Option<Seq<char>> {
    match s {
        Some(t) => Some(t@),
        None => None,
    }
}

/// The entry view of a list of names, a list of handles and a serial number.
pub open spec fn entry_of(names: Seq<String>, handles: Seq<usize>, serial: Option<String>) -> EntryView {
    EntryView { names: names.map_values(|n: String| n@), handles, serial: opt_view(serial) }
}

/// An entry with the names and handles of `b` appended to those of `a`.
pub open spec fn merged(a: EntryView, b: EntryView) -> EntryView {
    EntryView { names: a.names + b.names, handles: a.handles + b.handles, serial: a.serial }
}

/// A catalog entry of any class: names, handles and a serial number, and
/// whatever else its class keeps.
pub trait CatalogEntry: Sized {
    /// What the catalog knows of the entry.
    spec fn entry(&self) -> EntryView;

    /// Everything outside names and handles is as in `other`.
    spec fn keeps(&self, other: Self) -> bool;

    /// What can be shown of an entry of this class.
    type Shown;

    /// The displayable form of the entry.
    spec fn shown(self) -> Self::Shown;

    /// Turns the entry into its displayable form.
    fn into_shown(self) -> (r: Self::Shown)
        ensures
            r == self.shown();

    /// An entry keeps what it has.
    proof fn lemma_keeps_itself(&self)
        ensures
            self.keeps(*self);

    fn names(&self) -> (r: &Vec<String>)
        ensures
            entry_of(r@, Seq::empty(), None).names == self.entry().names;

    fn handles(&self) -> (r: &Vec<usize>)
        ensures
            r@ == self.entry().handles;

    fn serial(&self) -> (r: &Option<String>)
        ensures
            opt_view(*r) == self.entry().serial;

    /// Appends the names and handles of `other`.
    fn absorb(&mut self, other: Self)
        ensures
            final(self).entry() == merged(old(self).entry(), other.entry()),
            final(self).keeps(*old(self));
}

/// The entry views of a list of entries.
pub open spec fn entries_view<T: CatalogEntry>(v: Seq<T>) -> Seq<EntryView> {
    v.map_values(|e: T| e.entry())
}

impl CatalogEntry for MouseInfo {
    type Shown = MouseDisplayInfo;

    open spec fn shown(self) -> MouseDisplayInfo {
        mouse_display(self)
    }

    fn into_shown(self) -> (r: MouseDisplayInfo) {
        MouseDisplayInfo { names: self.names, serial: self.serial }
    }

    open spec fn entry(&self) -> EntryView {
        entry_of(self.names@, self.handles@, self.serial)
    }

    open spec fn keeps(&self, other: Self) -> bool {
        self.serial == other.serial
    }

    proof fn lemma_keeps_itself(&self) {
    }

    fn names(&self) -> (r: &Vec<String>) {
        &self.names
    }

    fn handles(&self) -> (r: &Vec<usize>) {
        &self.handles
    }

    fn serial(&self) -> (r: &Option<String>) {
        &self.serial
    }

    fn absorb(&mut self, other: Self) {
        let ghost before = *self;
        let ghost o = other;
        let mut other = other;
        self.names.append(&mut other.names);
        self.handles.append(&mut other.handles);
        assert(self.entry().names =~= merged(before.entry(), o.entry()).names);
        assert(self.entry().handles =~= merged(before.entry(), o.entry()).handles);
    }
}

impl CatalogEntry for KeyboardInfo {
    type Shown = KeyboardDisplayInfo;

    open spec fn shown(self) -> KeyboardDisplayInfo {
        keyboard_display(self)
    }

    fn into_shown(self) -> (r: KeyboardDisplayInfo) {
        KeyboardDisplayInfo { names: self.names, serial: self.serial }
    }

    open spec fn entry(&self) -> EntryView {
        entry_of(self.names@, self.handles@, self.serial)
    }

    open spec fn keeps(&self, other: Self) -> bool {
        self.serial == other.serial
    }

    proof fn lemma_keeps_itself(&self) {
    }

    fn names(&self) -> (r: &Vec<String>) {
        &self.names
    }

    fn handles(&self) -> (r: &Vec<usize>) {
        &self.handles
    }

    fn serial(&self) -> (r: &Option<String>) {
        &self.serial
    }

    fn absorb(&mut self, other: Self) {
        let ghost before = *self;
        let ghost o = other;
        let mut other = other;
        self.names.append(&mut other.names);
        self.handles.append(&mut other.handles);
        assert(self.entry().names =~= merged(before.entry(), o.entry()).names);
        assert(self.entry().handles =~= merged(before.entry(), o.entry()).handles);
    }
}

impl CatalogEntry for JoystickInfo {
    type Shown = JoystickDisplayInfo;

    open spec fn shown(self) -> JoystickDisplayInfo {
        joystick_display(self)
    }

    fn into_shown(self) -> (r: JoystickDisplayInfo) {
        JoystickDisplayInfo { names: self.names, serial: self.serial }
    }

    open spec fn entry(&self) -> EntryView {
        entry_of(self.names@, self.handles@, self.serial)
    }

    open spec fn keeps(&self, other: Self) -> bool {
        self.serial == other.serial && self.same_device(other)
    }

    proof fn lemma_keeps_itself(&self) {
    }

    fn names(&self) -> (r: &Vec<String>) {
        &self.names
    }

    fn handles(&self) -> (r: &Vec<usize>) {
        &self.handles
    }

    fn serial(&self) -> (r: &Option<String>) {
        &self.serial
    }

    fn absorb(&mut self, other: Self) {
        let ghost before = *self;
        let ghost o = other;
        let mut other = other;
        self.names.append(&mut other.names);
        self.handles.append(&mut other.handles);
        assert(self.entry().names =~= merged(before.entry(), o.entry()).names);
        assert(self.entry().handles =~= merged(before.entry(), o.entry()).handles);
    }
}

impl JoystickInfo {
    /// Everything but the state is the same.
    pub open spec fn same_but_state(&self, other: JoystickInfo) -> bool {
        &&& self.names == other.names
        &&& self.handles == other.handles
        &&& self.serial == other.serial
        &&& self.button_caps == other.button_caps
        &&& self.value_caps == other.value_caps
        &&& self.preparsed_data == other.preparsed_data
        &&& self.is_360_controller == other.is_360_controller
    }

    /// Same capabilities, descriptor data, state and controller class.
    pub open spec fn same_device(&self, other: JoystickInfo) -> bool {
        &&& self.button_caps == other.button_caps
        &&& self.value_caps == other.value_caps
        &&& self.preparsed_data == other.preparsed_data
        &&& self.state == other.state
        &&& self.is_360_controller == other.is_360_controller
    }
}

/// An entry passes a filter when one of its names is in it.
pub open spec fn entry_passes(e: EntryView, filter: Set<Seq<char>>) -> bool {
    exists|k: int| 0 <= k < e.names.len() && filter.contains(e.names[k])
}

/// The handles of the entries that pass a filter.
pub open spec fn passing_handles(entries: Seq<EntryView>, filter: Set<Seq<char>>) -> Set<usize> {
    Set::new(
        |h: usize|
            exists|p: int|
                0 <= p < entries.len() && entry_passes(entries[p], filter)
                    && entries[p].handles.contains(h),
    )
}

/// Every handle of every entry maps to that entry's position.
pub open spec fn consistent(entries: Seq<EntryView>, m: Map<usize, usize>) -> bool {
    forall|p: int, k: int|
        0 <= p < entries.len() && 0 <= k < entries[p].handles.len() ==> m.contains_key(
            #[trigger] entries[p].handles[k],
        ) && m[entries[p].handles[k]] == p
}

/// Some entry holds handle `h`.
pub open spec fn holds_handle(entries: Seq<EntryView>, h: usize) -> bool {
    exists|p: int| 0 <= p < entries.len() && entries[p].handles.contains(h)
}

/// The names of a set of strings.
pub open spec fn names_of(set: Set<String>) -> Set<Seq<char>> {
    set.map(|s: String| s@)
}

/// The model of a device catalog: the entries of each class, the map from
/// handles to positions that dispatch uses, and the full map built when the
/// catalog was enumerated.
pub struct CatalogView {
    pub mice: Seq<EntryView>,
    pub keyboards: Seq<EntryView>,
    pub joysticks: Seq<EntryView>,
    pub device_map: Map<usize, usize>,
    pub original_device_map: Map<usize, usize>,
}

impl CatalogView {
    /// The full map is consistent with the entries, and holds no other handle.
    pub open spec fn well_formed(self) -> bool {
        &&& consistent(self.mice, self.original_device_map)
        &&& consistent(self.keyboards, self.original_device_map)
        &&& consistent(self.joysticks, self.original_device_map)
        &&& forall|h: usize|
            #[trigger] self.original_device_map.contains_key(h) ==> holds_handle(self.mice, h)
                || holds_handle(self.keyboards, h) || holds_handle(self.joysticks, h)
    }

    /// The handles of the entries, of any class, that pass a filter.
    pub open spec fn passing(self, filter: Set<Seq<char>>) -> Set<usize> {
        passing_handles(self.mice, filter).union(passing_handles(self.keyboards, filter)).union(
            passing_handles(self.joysticks, filter),
        )
    }

    /// The catalog with dispatch restricted to entries named in `filter`.
    pub open spec fn filtered(self, filter: Set<Seq<char>>) -> CatalogView {
        CatalogView { device_map: self.original_device_map.restrict(self.passing(filter)), ..self }
    }

    /// The catalog with dispatch restored to the full map.
    pub open spec fn unfiltered(self) -> CatalogView {
        CatalogView { device_map: self.original_device_map, ..self }
    }
}

/// Applies a sequence of filters, first to last.
pub open spec fn filter_all(v: CatalogView, filters: Seq<Set<Seq<char>>>) -> CatalogView
    decreases filters.len(),
{
    if filters.len() == 0 {
        v
    } else {
        filter_all(v, filters.drop_last()).filtered(filters.last())
    }
}

/// The devices found at enumeration, by class, with the handle maps.
#[derive(Clone, Debug)]
pub struct Devices {
    pub mice: Vec<MouseInfo>,
    pub keyboards: Vec<KeyboardInfo>,
    pub joysticks: Vec<JoystickInfo>,
    pub device_map: HashMap<usize, usize>,
    pub original_device_map: HashMap<usize, usize>,
}

impl View for Devices {
    type V = CatalogView;

    open spec fn view(&self) -> CatalogView {
        CatalogView {
            mice: entries_view(self.mice@),
            keyboards: entries_view(self.keyboards@),
            joysticks: entries_view(self.joysticks@),
            device_map: self.device_map@,
            original_device_map: self.original_device_map@,
        }
    }
}

/// Relies on `HashSet::contains` for `String`: true exactly when the set
/// holds a string equal to `name`.
#[verifier::external_body]
fn filter_contains(filter: &HashSet<String>, name: &String) -> (r: bool)
    ensures
        r == names_of(filter@).contains(name@),
{
    filter.contains(name)
}

/// Whether one of `names` is in the filter.
fn names_pass(names: &Vec<String>, filter: &HashSet<String>) -> (r: bool)
    ensures
        r == entry_passes(entry_of(names@, Seq::empty(), None), names_of(filter@)),
{
    let ghost e = entry_of(names@, Seq::empty(), None);
    let mut k: usize = 0;
    while k < names.len()
        invariant
            k <= names.len(),
            e == entry_of(names@, Seq::empty(), None),
            forall|t: int| 0 <= t < k ==> !names_of(filter@).contains(#[trigger] e.names[t]),
        decreases names.len() - k,
    {
        if filter_contains(filter, &names[k]) {
            assert(e.names[k as int] == names@[k as int]@);
            return true;
        }
        k = k + 1;
    }
    false
}

/// Maps every handle in `handles` to `pos`, where the full map already does.
fn insert_handles(
    map: &mut HashMap<usize, usize>,
    handles: &Vec<usize>,
    pos: usize,
    Ghost(full): Ghost<Map<usize, usize>>,
    Ghost(done): Ghost<Set<usize>>,
)
    requires
        old(map)@ == full.restrict(done),
        forall|k: int|
            0 <= k < handles.len() ==> full.contains_key(#[trigger] handles@[k]) && full[handles@[k]]
                == pos,
    ensures
        final(map)@ == full.restrict(done.union(handles@.to_set())),
{
    let mut k: usize = 0;
    while k < handles.len()
        invariant
            k <= handles.len(),
            forall|t: int|
                0 <= t < handles.len() ==> full.contains_key(#[trigger] handles@[t])
                    && full[handles@[t]] == pos,
            map@ == full.restrict(done.union(handles@.take(k as int).to_set())),
        decreases handles.len() - k,
    {
        let h = handles[k];
        map.insert(h, pos);
        assert(handles@.take(k + 1).to_set() =~= handles@.take(k as int).to_set().insert(h)) by {
            assert(handles@.take(k + 1) =~= handles@.take(k as int).push(h));
            vstd::seq_lib::lemma_seq_contains_after_push(handles@.take(k as int), h, h);
            assert forall|x: usize| handles@.take(k + 1).contains(x) <==> (handles@.take(k as int).contains(x) || x == h) by {
                vstd::seq_lib::lemma_seq_contains_after_push(handles@.take(k as int), h, x);
            }
        }
        assert(map@ =~= full.restrict(done.union(handles@.take(k + 1).to_set())));
        k = k + 1;
    }
    assert(handles@.take(handles.len() as int) =~= handles@);
}

proof fn lemma_passing_extend(entries: Seq<EntryView>, p: int, filter: Set<Seq<char>>)
    requires
        0 <= p < entries.len(),
    ensures
        passing_handles(entries.take(p + 1), filter) == passing_handles(entries.take(p), filter).union(
            if entry_passes(entries[p], filter) {
                entries[p].handles.to_set()
            } else {
                Set::empty()
            },
        ),
{
    let a = entries.take(p + 1);
    let b = entries.take(p);
    assert forall|h: usize| passing_handles(a, filter).contains(h) implies passing_handles(b, filter).union(
        if entry_passes(entries[p], filter) {
            entries[p].handles.to_set()
        } else {
            Set::empty()
        },
    ).contains(h) by {
        let q = choose|q: int| 0 <= q < a.len() && entry_passes(a[q], filter) && a[q].handles.contains(h);
        if q < p {
            assert(b[q] == a[q]);
        }
    }
    assert forall|h: usize| passing_handles(b, filter).union(
        if entry_passes(entries[p], filter) {
            entries[p].handles.to_set()
        } else {
            Set::empty()
        },
    ).contains(h) implies passing_handles(a, filter).contains(h) by {
        if passing_handles(b, filter).contains(h) {
            let q = choose|q: int| 0 <= q < b.len() && entry_passes(b[q], filter) && b[q].handles.contains(h);
            assert(a[q] == b[q]);
        } else {
            assert(a[p] == entries[p]);
        }
    }
    assert(passing_handles(a, filter) =~= passing_handles(b, filter).union(
        if entry_passes(entries[p], filter) {
            entries[p].handles.to_set()
        } else {
            Set::empty()
        },
    ));
}

/// Adds to `map` the handles of the entries that pass the filter, each sent
/// where the full map sends it.
fn add_passing<T: CatalogEntry>(
    map: &mut HashMap<usize, usize>,
    entries: &Vec<T>,
    filter: &HashSet<String>,
    Ghost(full): Ghost<Map<usize, usize>>,
    Ghost(done): Ghost<Set<usize>>,
)
    requires
        old(map)@ == full.restrict(done),
        consistent(entries_view(entries@), full),
    ensures
        final(map)@ == full.restrict(done.union(passing_handles(entries_view(entries@), names_of(filter@)))),
{
    let ghost v = entries_view(entries@);
    let ghost f = names_of(filter@);
    assert(done.union(passing_handles(v.take(0), f)) =~= done);
    let mut p: usize = 0;
    while p < entries.len()
        invariant
            p <= entries.len(),
            v == entries_view(entries@),
            f == names_of(filter@),
            consistent(v, full),
            map@ == full.restrict(done.union(passing_handles(v.take(p as int), f))),
        decreases entries.len() - p,
    {
        proof {
            lemma_passing_extend(v, p as int, f);
        }
        let ghost so_far = done.union(passing_handles(v.take(p as int), f));
        assert(v[p as int] == entries@[p as int].entry());
        let ghost step = if entry_passes(v[p as int], f) {
            v[p as int].handles.to_set()
        } else {
            Set::empty()
        };
        assert(done.union(passing_handles(v.take(p + 1), f)) =~= so_far.union(step));
        let names = entries[p].names();
        let handles = entries[p].handles();
        if names_pass(names, filter) {
            assert forall|k: int| 0 <= k < handles@.len() implies full.contains_key(#[trigger] handles@[k])
                && full[handles@[k]] == p by {
                assert(v[p as int].handles[k] == handles@[k]);
            }
            insert_handles(map, handles, p, Ghost(full), Ghost(so_far));
            assert(entry_passes(v[p as int], f));
        } else {
            assert(!entry_passes(v[p as int], f));
            assert(so_far.union(step) =~= so_far);
        }
        assert(map@ =~= full.restrict(done.union(passing_handles(v.take(p + 1), f))));
        p = p + 1;
    }
    assert(v.take(v.len() as int) =~= v);
}

impl Devices {
    /// An empty catalog.
    pub fn new() -> (r: Devices)
        ensures
            r@.mice.len() == 0,
            r@.keyboards.len() == 0,
            r@.joysticks.len() == 0,
            r@.device_map == Map::<usize, usize>::empty(),
            r@.original_device_map == Map::<usize, usize>::empty(),
            r@.well_formed(),
    {
        Devices {
            mice: Vec::new(),
            keyboards: Vec::new(),
            joysticks: Vec::new(),
            device_map: HashMap::new(),
            original_device_map: HashMap::new(),
        }
    }

    /// Restricts dispatch to the devices one of whose names is in
    /// `device_filter`. The entries and the full map are left as they are.
    pub fn filter_device_map(&mut self, device_filter: HashSet<String>)
        requires
            old(self)@.well_formed(),
        ensures
            final(self)@ == old(self)@.filtered(names_of(device_filter@)),
            final(self).mice == old(self).mice,
            final(self).keyboards == old(self).keyboards,
            final(self).joysticks == old(self).joysticks,
    {
        let ghost v = self@;
        let ghost f = names_of(device_filter@);
        let ghost full = self.original_device_map@;
        let ghost pm = passing_handles(v.mice, f);
        let ghost pk = passing_handles(v.keyboards, f);
        let mut map: HashMap<usize, usize> = HashMap::new();
        assert(map@ =~= full.restrict(Set::empty()));
        add_passing(&mut map, &self.mice, &device_filter, Ghost(full), Ghost(Set::empty()));
        assert(Set::<usize>::empty().union(pm) =~= pm);
        add_passing(&mut map, &self.keyboards, &device_filter, Ghost(full), Ghost(pm));
        add_passing(&mut map, &self.joysticks, &device_filter, Ghost(full), Ghost(pm.union(pk)));
        self.device_map = map;
    }

    /// Restores dispatch to every device found at enumeration.
    pub fn reset_device_map(&mut self)
        ensures
            final(self)@ == old(self)@.unfiltered(),
            final(self).mice == old(self).mice,
            final(self).keyboards == old(self).keyboards,
            final(self).joysticks == old(self).joysticks,
    {
        self.device_map = self.original_device_map.clone();
    }
}

/// However many filters were applied since enumeration, unfiltering restores
/// exactly the full map built at enumeration; the entries never change.
pub proof fn lemma_unfilter_restores(v: CatalogView, filters: Seq<Set<Seq<char>>>)
    ensures
        filter_all(v, filters).unfiltered() == v.unfiltered(),
        filter_all(v, filters).unfiltered().device_map == v.original_device_map,
    decreases filters.len(),
{
    if filters.len() > 0 {
        lemma_unfilter_restores(v, filters.drop_last());
    }
}

/// What can be shown of a mouse: its names and serial number.
#[derive(Clone, Debug)]
pub struct MouseDisplayInfo {
    pub names: Vec<String>,
    pub serial: Option<String>,
}

impl From<MouseInfo> for MouseDisplayInfo {
    fn from(mouse: MouseInfo) -> (r: Self) {
        Self { names: mouse.names, serial: mouse.serial }
    }
}

/// The displayable form of a mouse.
pub open spec fn mouse_display(mouse: MouseInfo) -> MouseDisplayInfo {
    MouseDisplayInfo { names: mouse.names, serial: mouse.serial }
}

impl vstd::std_specs::convert::FromSpecImpl<MouseInfo> for MouseDisplayInfo {
    open spec fn obeys_from_spec() -> bool {
        true
    }

    open spec fn from_spec(mouse: MouseInfo) -> Self {
        mouse_display(mouse)
    }
}

/// What can be shown of a keyboard: its names and serial number.
#[derive(Clone, Debug)]
pub struct KeyboardDisplayInfo {
    pub names: Vec<String>,
    pub serial: Option<String>,
}

impl From<KeyboardInfo> for KeyboardDisplayInfo {
    fn from(keyboard: KeyboardInfo) -> (r: Self) {
        Self { names: keyboard.names, serial: keyboard.serial }
    }
}

/// The displayable form of a keyboard.
pub open spec fn keyboard_display(keyboard: KeyboardInfo) -> KeyboardDisplayInfo {
    KeyboardDisplayInfo { names: keyboard.names, serial: keyboard.serial }
}

impl vstd::std_specs::convert::FromSpecImpl<KeyboardInfo> for KeyboardDisplayInfo {
    open spec fn obeys_from_spec() -> bool {
        true
    }

    open spec fn from_spec(keyboard: KeyboardInfo) -> Self {
        keyboard_display(keyboard)
    }
}

/// What can be shown of a joystick: its names and serial number.
#[derive(Clone, Debug)]
pub struct JoystickDisplayInfo {
    pub names: Vec<String>,
    pub serial: Option<String>,
}

impl From<JoystickInfo> for JoystickDisplayInfo {
    fn from(joystick: JoystickInfo) -> (r: Self) {
        Self { names: joystick.names, serial: joystick.serial }
    }
}

/// The displayable form of a joystick.
pub open spec fn joystick_display(joystick: JoystickInfo) -> JoystickDisplayInfo {
    JoystickDisplayInfo { names: joystick.names, serial: joystick.serial }
}

impl vstd::std_specs::convert::FromSpecImpl<JoystickInfo> for JoystickDisplayInfo {
    open spec fn obeys_from_spec() -> bool {
        true
    }

    open spec fn from_spec(joystick: JoystickInfo) -> Self {
        joystick_display(joystick)
    }
}

/// What can be shown of a catalog, fit for handing to another thread.
#[derive(Clone, Debug)]
pub struct DevicesDisplayInfo {
    pub mice: Vec<MouseDisplayInfo>,
    pub keyboards: Vec<KeyboardDisplayInfo>,
    pub joysticks: Vec<JoystickDisplayInfo>,
}

/// The displayable form of each device of a catalog, in catalog order.
pub open spec fn display_of(d: Devices) -> (Seq<MouseDisplayInfo>, Seq<KeyboardDisplayInfo>, Seq<JoystickDisplayInfo>) {
    (
        d.mice@.map_values(|x: MouseInfo| x.shown()),
        d.keyboards@.map_values(|x: KeyboardInfo| x.shown()),
        d.joysticks@.map_values(|x: JoystickInfo| x.shown()),
    )
}

impl From<Devices> for DevicesDisplayInfo {
    fn from(devices: Devices) -> (r: Self) {
        DevicesDisplayInfo::of(devices)
    }
}

/// The displayable form of each entry, in order.
fn shown_list<T: CatalogEntry>(list: Vec<T>) -> (r: Vec<T::Shown>)
    ensures
        r@ == list@.map_values(|x: T| x.shown()),
{
    let ghost all = list@;
    let mut list = list;
    let mut out: Vec<T::Shown> = Vec::new();
    let ghost mut i: int = 0;
    while list.len() > 0
        invariant
            0 <= i <= all.len(),
            list@ == all.subrange(i, all.len() as int),
            out@ == all.take(i).map_values(|x: T| x.shown()),
        decreases list.len(),
    {
        let x = list.remove(0);
        assert(x == all[i]);
        out.push(x.into_shown());
        assert(all.take(i + 1) =~= all.take(i).push(x));
        assert(out@ =~= all.take(i + 1).map_values(|x: T| x.shown()));
        proof {
            i = i + 1;
        }
    }
    assert(all.take(i) =~= all);
    out
}

impl DevicesDisplayInfo {
    /// The displayable form of every device of a catalog, in catalog order.
    pub fn of(devices: Devices) -> (r: DevicesDisplayInfo)
        ensures
            (r.mice@, r.keyboards@, r.joysticks@) == display_of(devices),
    {
        DevicesDisplayInfo {
            mice: shown_list(devices.mice),
            keyboards: shown_list(devices.keyboards),
            joysticks: shown_list(devices.joysticks),
        }
    }
}

/// A catalog's displayable form is described by `display_of`, over the
/// views of the three lists; `DevicesDisplayInfo::of` states it.
impl vstd::std_specs::convert::FromSpecImpl<Devices> for DevicesDisplayInfo {
    open spec fn obeys_from_spec() -> bool {
        false
    }

    open spec fn from_spec(devices: Devices) -> Self {
        arbitrary()
    }
}

} // verus!
