use vstd::prelude::*;

use crate::devices::{
    consistent, entries_view, entry_of, holds_handle, merged, opt_view, ButtonCaps, CatalogEntry,
    CatalogView, DeviceInfo, Devices, EntryView, JoystickInfo, JoystickState, KeyboardInfo,
    MouseInfo, ValueCaps, initial_state,
};
use crate::event::{event_class, state_changes, DeviceClass, RawEvent};
use crate::joystick::{copy_state, decode_report, process_joystick_data, JoystickReport};
use crate::keyboard::{keyboard_events, process_keyboard_data, KeyboardReport};
use crate::mouse::{mouse_events, process_mouse_data, MouseReport};
use crate::registrar::RawInputRegistrar;
use std::collections::{HashMap, VecDeque};

verus! {

broadcast use vstd::std_specs::hash::group_hash_axioms;

/// The first entry among the first `n` whose serial number is `serial`;
/// a device without a serial number is never merged.
pub open spec fn serial_target(entries: Seq<EntryView>, serial: Option<Seq<char>>, n: nat) -> Option<int>
    decreases n,
{
    if n == 0 {
        None
    } else if serial_target(entries, serial, (n - 1) as nat) is Some {
        serial_target(entries, serial, (n - 1) as nat)
    } else if serial is Some && entries[n - 1].serial == serial {
        Some(n - 1)
    } else {
        None
    }
}

/// None of the handles is in the map yet.
pub open spec fn handles_free(map: Map<usize, usize>, handles: Seq<usize>) -> bool {
    forall|k: int| 0 <= k < handles.len() ==> !map.contains_key(#[trigger] handles[k])
}

/// The map with every handle in `handles` sent to position `p`.
pub open spec fn map_handles(map: Map<usize, usize>, handles: Seq<usize>, p: usize) -> Map<usize, usize> {
    map.union_prefer_right(Map::new(|h: usize| handles.contains(h), |h: usize| p))
}


/// Adds one device to the entries of its class: merged into the entry with
/// the same serial number if there is one, appended otherwise. A device
/// whose handle is already catalogued is left out.
pub open spec fn add_entry(entries: Seq<EntryView>, map: Map<usize, usize>, e: EntryView) -> (
    Seq<EntryView>,
    Map<usize, usize>,
) {
    if !handles_free(map, e.handles) {
        (entries, map)
    } else {
        match serial_target(entries, e.serial, entries.len()) {
            Some(p) => (entries.update(p, merged(entries[p], e)), map_handles(map, e.handles, p as usize)),
            None => (entries.push(e), map_handles(map, e.handles, entries.len() as usize)),
        }
    }
}

/// A name that marks a remote-desktop or virtual input adapter.
pub open spec fn is_remote_name(name: Seq<char>) -> bool {
    occurs_in("RDP_MOU"@, name) || occurs_in("RDP_KBD"@, name)
}

/// One of the entry's names marks a remote-desktop or virtual adapter.
pub open spec fn entry_marked(e: EntryView) -> bool {
    exists|k: int| 0 <= k < e.names.len() && is_remote_name(e.names[k])
}

/// No entry has a name that marks a remote-desktop or virtual adapter.
pub open spec fn marker_free(entries: Seq<EntryView>) -> bool {
    forall|p: int, k: int|
        0 <= p < entries.len() && 0 <= k < entries[p].names.len() ==> !is_remote_name(
            #[trigger] entries[p].names[k],
        )
}

/// The entry view of a device found at enumeration.
pub open spec fn found_entry(d: DeviceInfo) -> EntryView {
    match d {
        DeviceInfo::Mouse(m) => m.entry(),
        DeviceInfo::Keyboard(k) => k.entry(),
        DeviceInfo::Joystick(j) => j.entry(),
    }
}

/// Whether a device found at enumeration enters the catalog: its class is
/// registered, none of its names marks a remote-desktop or virtual adapter,
/// and an XInput gamepad only when those are included.
pub open spec fn admitted(d: DeviceInfo, reg: RawInputRegistrar) -> bool {
    !entry_marked(found_entry(d)) && match d {
        DeviceInfo::Mouse(_) => reg.mice,
        DeviceInfo::Keyboard(_) => reg.keyboards,
        DeviceInfo::Joystick(j) => reg.joysticks && (reg.include_xinput || !j.is_360_controller),
    }
}

/// The catalog after one more device found at enumeration.
pub open spec fn catalog_step(c: CatalogView, d: DeviceInfo, reg: RawInputRegistrar) -> CatalogView {
    if !admitted(d, reg) {
        c
    } else {
        match d {
            DeviceInfo::Mouse(m) => {
                let (es, map) = add_entry(c.mice, c.original_device_map, m.entry());
                CatalogView { mice: es, device_map: map, original_device_map: map, ..c }
            },
            DeviceInfo::Keyboard(k) => {
                let (es, map) = add_entry(c.keyboards, c.original_device_map, k.entry());
                CatalogView { keyboards: es, device_map: map, original_device_map: map, ..c }
            },
            DeviceInfo::Joystick(j) => {
                let (es, map) = add_entry(c.joysticks, c.original_device_map, j.entry());
                CatalogView { joysticks: es, device_map: map, original_device_map: map, ..c }
            },
        }
    }
}

/// The empty catalog.
pub open spec fn empty_catalog() -> CatalogView {
    CatalogView {
        mice: Seq::empty(),
        keyboards: Seq::empty(),
        joysticks: Seq::empty(),
        device_map: Map::empty(),
        original_device_map: Map::empty(),
    }
}

/// The catalog built from the first `n` devices found at enumeration.
pub open spec fn catalog_of(found: Seq<DeviceInfo>, reg: RawInputRegistrar, n: nat) -> CatalogView
    decreases n,
{
    if n == 0 {
        empty_catalog()
    } else {
        catalog_step(catalog_of(found, reg, (n - 1) as nat), found[n - 1], reg)
    }
}

proof fn lemma_serial_target(entries: Seq<EntryView>, serial: Option<Seq<char>>, n: nat)
    requires
        n <= entries.len(),
    ensures
        serial_target(entries, serial, n) matches Some(p) ==> 0 <= p < n && serial is Some
            && entries[p].serial == serial,
    decreases n,
{
    if n > 0 {
        lemma_serial_target(entries, serial, (n - 1) as nat);
    }
}

/// The entries of classes other than the one that grows stay consistent
/// with a map that only gains handles.
proof fn lemma_consistent_grow(entries: Seq<EntryView>, map: Map<usize, usize>, bigger: Map<usize, usize>)
    requires
        consistent(entries, map),
        map.submap_of(bigger),
    ensures
        consistent(entries, bigger),
{
    assert forall|p: int, k: int|
        0 <= p < entries.len() && 0 <= k < entries[p].handles.len() implies bigger.contains_key(
        #[trigger] entries[p].handles[k],
    ) && bigger[entries[p].handles[k]] == p by {
        assert(map.contains_key(entries[p].handles[k]));
    }
}

proof fn lemma_holds_grow(entries: Seq<EntryView>, bigger: Seq<EntryView>, h: usize)
    requires
        holds_handle(entries, h),
        entries.len() <= bigger.len(),
        forall|q: int| 0 <= q < entries.len() ==> (#[trigger] entries[q].handles).is_prefix_of(bigger[q].handles),
    ensures
        holds_handle(bigger, h),
{
    let q = choose|q: int| 0 <= q < entries.len() && entries[q].handles.contains(h);
    let k = choose|k: int| 0 <= k < entries[q].handles.len() && entries[q].handles[k] == h;
    assert(entries[q].handles.is_prefix_of(bigger[q].handles));
    assert(bigger[q].handles[k] == h);
}

/// Adding a device keeps a class consistent with the map, keeps every
/// handle of the map held by some entry, and only adds handles to the map.
proof fn lemma_add_entry(
    entries: Seq<EntryView>,
    o1: Seq<EntryView>,
    o2: Seq<EntryView>,
    map: Map<usize, usize>,
    e: EntryView,
)
    requires
        consistent(entries, map),
        forall|h: usize| #[trigger] map.contains_key(h) ==> holds_handle(entries, h) || holds_handle(o1, h)
            || holds_handle(o2, h),
        entries.len() < usize::MAX,
    ensures
        ({
            let (es, m) = add_entry(entries, map, e);
            &&& es.len() <= entries.len() + 1
            &&& consistent(es, m)
            &&& map.submap_of(m)
            &&& forall|h: usize| #[trigger] m.contains_key(h) ==> holds_handle(es, h) || holds_handle(o1, h)
                || holds_handle(o2, h)
        }),
{
    let (es, m) = add_entry(entries, map, e);
    if handles_free(map, e.handles) {
        lemma_serial_target(entries, e.serial, entries.len());
        let target = serial_target(entries, e.serial, entries.len());
        let p: int = match target {
            Some(p) => p,
            None => entries.len() as int,
        };
        let new_keys = Map::new(|h: usize| e.handles.contains(h), |h: usize| p as usize);
        assert(m == map.union_prefer_right(new_keys));
        assert forall|h: usize| #[trigger] map.contains_key(h) implies m.contains_key(h) && m[h] == map[h] by {
            if e.handles.contains(h) {
                let k = choose|k: int| 0 <= k < e.handles.len() && e.handles[k] == h;
                assert(!map.contains_key(e.handles[k]));
            }
        }
        assert(map.submap_of(m));
        assert(es.len() >= entries.len());
        assert forall|q: int| 0 <= q < entries.len() implies (#[trigger] entries[q].handles).is_prefix_of(es[q].handles) by {
            if q == p {
                assert(es[q].handles == entries[q].handles + e.handles);
                assert(entries[q].handles =~= es[q].handles.subrange(0, entries[q].handles.len() as int));
            } else {
                assert(es[q] == entries[q]);
            }
        }
        assert forall|q: int, k: int| 0 <= q < es.len() && 0 <= k < es[q].handles.len() implies m.contains_key(
            #[trigger] es[q].handles[k],
        ) && m[es[q].handles[k]] == q by {
            if q == p {
                if q < entries.len() && k < entries[q].handles.len() {
                    assert(es[q].handles[k] == entries[q].handles[k]);
                    assert(map.contains_key(entries[q].handles[k]));
                } else {
                    let off: int = if q < entries.len() { entries[q].handles.len() as int } else { 0 };
                    assert(es[q].handles[k] == e.handles[k - off]);
                    assert(e.handles.contains(e.handles[k - off]));
                }
            } else {
                assert(es[q] == entries[q]);
                assert(map.contains_key(entries[q].handles[k]));
            }
        }
        assert forall|h: usize| #[trigger] m.contains_key(h) implies holds_handle(es, h) || holds_handle(o1, h)
            || holds_handle(o2, h) by {
            if map.contains_key(h) {
                if holds_handle(entries, h) {
                    lemma_holds_grow(entries, es, h);
                }
            } else {
                assert(e.handles.contains(h));
                let k = choose|k: int| 0 <= k < e.handles.len() && e.handles[k] == h;
                let off: int = if p < entries.len() { entries[p].handles.len() as int } else { 0 };
                assert(es[p].handles[off + k] == h);
                assert(es[p].handles.contains(h));
            }
        }
    }
}

/// Whether none of the handles is in the map.
fn handles_unmapped(map: &HashMap<usize, usize>, handles: &Vec<usize>) -> (r: bool)
    ensures
        r == handles_free(map@, handles@),
{
    let mut k: usize = 0;
    while k < handles.len()
        invariant
            k <= handles.len(),
            forall|t: int| 0 <= t < k ==> !map@.contains_key(#[trigger] handles@[t]),
        decreases handles.len() - k,
    {
        if map.contains_key(&handles[k]) {
            return false;
        }
        k = k + 1;
    }
    true
}

/// Sends every handle in `handles` to position `p`.
fn insert_all(map: &mut HashMap<usize, usize>, handles: &Vec<usize>, p: usize)
    ensures
        final(map)@ == map_handles(old(map)@, handles@, p),
{
    let ghost start = map@;
    let mut k: usize = 0;
    assert(map@ =~= map_handles(start, handles@.take(0), p));
    while k < handles.len()
        invariant
            k <= handles.len(),
            map@ == map_handles(start, handles@.take(k as int), p),
        decreases handles.len() - k,
    {
        let h = handles[k];
        map.insert(h, p);
        assert(handles@.take(k + 1) =~= handles@.take(k as int).push(h));
        assert forall|x: usize| handles@.take(k + 1).contains(x) <==> (handles@.take(k as int).contains(x) || x == h) by {
            vstd::seq_lib::lemma_seq_contains_after_push(handles@.take(k as int), h, x);
        }
        assert(map@ =~= map_handles(start, handles@.take(k + 1), p));
        k = k + 1;
    }
    assert(handles@.take(handles.len() as int) =~= handles@);
}

/// Two serial numbers that are both present and equal.
fn same_serial(a: &Option<String>, b: &Option<String>) -> (r: bool)
    ensures
        r == (opt_view(*a) is Some && opt_view(*a) == opt_view(*b)),
{
    match (a, b) {
        (Some(x), Some(y)) => *x == *y,
        _ => false,
    }
}

/// The first entry whose serial number is `serial`, when it has one.
fn find_serial<T: CatalogEntry>(entries: &Vec<T>, serial: &Option<String>) -> (r: Option<usize>)
    ensures
        r matches Some(p) ==> serial_target(entries_view(entries@), opt_view(*serial), entries.len() as nat)
            == Some(p as int),
        r is None ==> serial_target(entries_view(entries@), opt_view(*serial), entries.len() as nat) is None,
{
    let ghost v = entries_view(entries@);
    let mut q: usize = 0;
    while q < entries.len()
        invariant
            q <= entries.len(),
            v == entries_view(entries@),
            serial_target(v, opt_view(*serial), q as nat) is None,
        decreases entries.len() - q,
    {
        assert(v[q as int] == entries@[q as int].entry());
        if same_serial(serial, entries[q].serial()) {
            proof {
                lemma_serial_target_stays(v, opt_view(*serial), (q + 1) as nat, entries.len() as nat);
            }
            return Some(q);
        }
        q = q + 1;
    }
    None
}

/// Whether one of the names marks a remote-desktop or virtual adapter.
fn names_marked(names: &Vec<String>) -> (r: bool)
    ensures
        r == entry_marked(entry_of(names@, Seq::empty(), None)),
{
    let ghost e = entry_of(names@, Seq::empty(), None);
    let mut k: usize = 0;
    while k < names.len()
        invariant
            k <= names.len(),
            e == entry_of(names@, Seq::empty(), None),
            forall|t: int| 0 <= t < k ==> !is_remote_name(#[trigger] e.names[t]),
        decreases names.len() - k,
    {
        assert(e.names[k as int] == names@[k as int]@);
        if str_contains(names[k].as_str(), "RDP_MOU") || str_contains(names[k].as_str(), "RDP_KBD") {
            return true;
        }
        k = k + 1;
    }
    false
}

/// Adds one device to the entries of its class; see `add_entry`. A new entry
/// is the device itself; a merged one keeps what it had besides names and
/// handles, and its earlier handles come first.
fn add_device<T: CatalogEntry>(entries: &mut Vec<T>, map: &mut HashMap<usize, usize>, info: T)
    ensures
        (entries_view(final(entries)@), final(map)@) == add_entry(
            entries_view(old(entries)@),
            old(map)@,
            info.entry(),
        ),
        final(entries).len() >= old(entries).len(),
        forall|p: int|
            0 <= p < final(entries).len() ==> (p < old(entries).len() && #[trigger] final(entries)@[p].keeps(
                old(entries)@[p],
            ) && old(entries)@[p].entry().handles.is_prefix_of(final(entries)@[p].entry().handles)) || (p
                == old(entries).len() && final(entries)@[p] == info),
{
    let ghost v = entries_view(entries@);
    let ghost olds = entries@;
    if !handles_unmapped(map, info.handles()) {
        assert forall|q: int| 0 <= q < entries.len() implies #[trigger] entries@[q].keeps(olds[q])
            && olds[q].entry().handles.is_prefix_of(entries@[q].entry().handles) by {
            entries@[q].lemma_keeps_itself();
            assert(olds[q].entry().handles =~= entries@[q].entry().handles.subrange(
                0,
                olds[q].entry().handles.len() as int,
            ));
        }
        return;
    }
    match find_serial(entries, info.serial()) {
        Some(p) => {
            proof {
                lemma_serial_target(v, info.entry().serial, v.len());
            }
            insert_all(map, info.handles(), p);
            let mut e = entries.remove(p);
            let ghost before = e;
            assert(v[p as int] == before.entry());
            e.absorb(info);
            entries.insert(p, e);
            assert(entries_view(entries@) =~= v.update(p as int, merged(v[p as int], info.entry())));
            assert forall|q: int| 0 <= q < entries.len() implies (q < olds.len() && #[trigger] entries@[q].keeps(
                olds[q],
            ) && olds[q].entry().handles.is_prefix_of(entries@[q].entry().handles)) || (q == olds.len()
                && entries@[q] == info) by {
                if q == p {
                    assert(entries@[q].entry().handles == olds[q].entry().handles + info.entry().handles);
                    assert(olds[q].entry().handles =~= entries@[q].entry().handles.subrange(
                        0,
                        olds[q].entry().handles.len() as int,
                    ));
                } else {
                    assert(entries@[q] == olds[q]);
                    entries@[q].lemma_keeps_itself();
                    assert(olds[q].entry().handles =~= entries@[q].entry().handles.subrange(
                        0,
                        olds[q].entry().handles.len() as int,
                    ));
                }
            }
        },
        None => {
            let n = entries.len();
            insert_all(map, info.handles(), n);
            entries.push(info);
            assert(entries_view(entries@) =~= v.push(info.entry()));
            assert forall|q: int| 0 <= q < olds.len() implies #[trigger] entries@[q].keeps(olds[q])
                && olds[q].entry().handles.is_prefix_of(entries@[q].entry().handles) by {
                assert(entries@[q] == olds[q]);
                entries@[q].lemma_keeps_itself();
                assert(olds[q].entry().handles =~= entries@[q].entry().handles.subrange(
                    0,
                    olds[q].entry().handles.len() as int,
                ));
            }
        },
    }
}

proof fn lemma_serial_target_stays(entries: Seq<EntryView>, serial: Option<Seq<char>>, m: nat, n: nat)
    requires
        m <= n,
        serial_target(entries, serial, m) is Some,
    ensures
        serial_target(entries, serial, n) == serial_target(entries, serial, m),
    decreases n - m,
{
    if m < n {
        lemma_serial_target_stays(entries, serial, m, (n - 1) as nat);
    }
}

/// The catalog view of three entry lists with one full map.
pub open spec fn catalog_from(
    mice: Seq<MouseInfo>,
    keyboards: Seq<KeyboardInfo>,
    joysticks: Seq<JoystickInfo>,
    map: Map<usize, usize>,
) -> CatalogView {
    CatalogView {
        mice: entries_view(mice),
        keyboards: entries_view(keyboards),
        joysticks: entries_view(joysticks),
        device_map: map,
        original_device_map: map,
    }
}

proof fn lemma_add_entry_marker_free(entries: Seq<EntryView>, map: Map<usize, usize>, e: EntryView)
    requires
        marker_free(entries),
        !entry_marked(e),
    ensures
        marker_free(add_entry(entries, map, e).0),
{
    let es = add_entry(entries, map, e).0;
    if handles_free(map, e.handles) {
        lemma_serial_target(entries, e.serial, entries.len());
        assert forall|p: int, k: int| 0 <= p < es.len() && 0 <= k < es[p].names.len() implies !is_remote_name(
            #[trigger] es[p].names[k],
        ) by {
            if p < entries.len() && es[p] != entries[p] {
                if k < entries[p].names.len() {
                    assert(es[p].names[k] == entries[p].names[k]);
                } else {
                    assert(es[p].names[k] == e.names[k - entries[p].names.len()]);
                }
            } else if p == entries.len() {
                assert(es[p] == e);
            }
        }
    }
}

proof fn lemma_prefix_trans(a: Seq<usize>, b: Seq<usize>, c: Seq<usize>)
    requires
        a.is_prefix_of(b),
        b.is_prefix_of(c),
    ensures
        a.is_prefix_of(c),
{
    assert(a =~= c.subrange(0, a.len() as int)) by {
        assert forall|k: int| 0 <= k < a.len() implies a[k] == c[k] by {
            assert(a[k] == b.subrange(0, a.len() as int)[k]);
            assert(b[k] == c.subrange(0, b.len() as int)[k]);
        }
    }
}

/// Builds the catalog from the devices found at enumeration, in the order
/// found: each admitted device is merged into the entry of its class with
/// the same serial number, or appended with the next position of its class.
/// Dispatch starts unfiltered. Every catalogued joystick carries the
/// capabilities, state and controller class of an admitted joystick that
/// was found, whose handles come first in its entry.
pub fn produce_raw_device_list(found: Vec<DeviceInfo>, registrar: &RawInputRegistrar) -> (r: Devices)
    ensures
        r@ == catalog_of(found@, *registrar, found.len() as nat),
        r@.well_formed(),
        marker_free(r@.mice),
        marker_free(r@.keyboards),
        marker_free(r@.joysticks),
        forall|p: int|
            0 <= p < r.joysticks.len() ==> exists|i: int|
                0 <= i < found.len() && found@[i] is Joystick && admitted(found@[i], *registrar)
                    && (#[trigger] r.joysticks@[p]).same_device(found@[i]->Joystick_0)
                    && found@[i]->Joystick_0.handles@.is_prefix_of(r.joysticks@[p].handles@),
        !registrar.include_xinput ==> forall|p: int|
            0 <= p < r.joysticks.len() ==> !(#[trigger] r.joysticks@[p]).is_360_controller,
{
    let ghost all = found@;
    let total = found.len();
    let mut found = found;
    let mut mice: Vec<MouseInfo> = Vec::new();
    let mut keyboards: Vec<KeyboardInfo> = Vec::new();
    let mut joysticks: Vec<JoystickInfo> = Vec::new();
    let mut map: HashMap<usize, usize> = HashMap::new();
    assert(entries_view(mice@) =~= Seq::<EntryView>::empty());
    assert(entries_view(keyboards@) =~= Seq::<EntryView>::empty());
    assert(entries_view(joysticks@) =~= Seq::<EntryView>::empty());
    let ghost mut i: int = 0;
    while found.len() > 0
        invariant
            0 <= i <= all.len(),
            all.len() == total,
            found@ == all.subrange(i, all.len() as int),
            catalog_from(mice@, keyboards@, joysticks@, map@) == catalog_of(all, *registrar, i as nat),
            catalog_from(mice@, keyboards@, joysticks@, map@).well_formed(),
            marker_free(entries_view(mice@)),
            marker_free(entries_view(keyboards@)),
            marker_free(entries_view(joysticks@)),
            mice.len() <= i,
            keyboards.len() <= i,
            joysticks.len() <= i,
            forall|p: int|
                0 <= p < joysticks.len() ==> exists|j: int|
                    0 <= j < i && all[j] is Joystick && admitted(all[j], *registrar)
                        && (#[trigger] joysticks@[p]).same_device(all[j]->Joystick_0)
                        && all[j]->Joystick_0.handles@.is_prefix_of(joysticks@[p].handles@),
        decreases found.len(),
    {
        let d = found.remove(0);
        assert(d == all[i]);
        let ghost v = catalog_from(mice@, keyboards@, joysticks@, map@);
        let ghost old_joy = joysticks@;
        match d {
            DeviceInfo::Mouse(m) => {
                assert(entry_of(m.names@, Seq::empty(), None).names == m.entry().names);
                if registrar.mice && !names_marked(&m.names) {
                    proof {
                        lemma_add_entry(v.mice, v.keyboards, v.joysticks, map@, m.entry());
                        lemma_add_entry_marker_free(v.mice, map@, m.entry());
                        let (es, nm) = add_entry(v.mice, map@, m.entry());
                        lemma_consistent_grow(v.keyboards, map@, nm);
                        lemma_consistent_grow(v.joysticks, map@, nm);
                    }
                    add_device(&mut mice, &mut map, m);
                }
            },
            DeviceInfo::Keyboard(k) => {
                assert(entry_of(k.names@, Seq::empty(), None).names == k.entry().names);
                if registrar.keyboards && !names_marked(&k.names) {
                    proof {
                        lemma_add_entry(v.keyboards, v.mice, v.joysticks, map@, k.entry());
                        lemma_add_entry_marker_free(v.keyboards, map@, k.entry());
                        let (es, nm) = add_entry(v.keyboards, map@, k.entry());
                        lemma_consistent_grow(v.mice, map@, nm);
                        lemma_consistent_grow(v.joysticks, map@, nm);
                    }
                    add_device(&mut keyboards, &mut map, k);
                }
            },
            DeviceInfo::Joystick(j) => {
                assert(entry_of(j.names@, Seq::empty(), None).names == j.entry().names);
                if registrar.joysticks && (registrar.include_xinput || !j.is_360_controller) && !names_marked(
                    &j.names,
                ) {
                    proof {
                        lemma_add_entry(v.joysticks, v.mice, v.keyboards, map@, j.entry());
                        lemma_add_entry_marker_free(v.joysticks, map@, j.entry());
                        let (es, nm) = add_entry(v.joysticks, map@, j.entry());
                        lemma_consistent_grow(v.mice, map@, nm);
                        lemma_consistent_grow(v.keyboards, map@, nm);
                    }
                    let ghost jj = j;
                    add_device(&mut joysticks, &mut map, j);
                    assert forall|p: int| 0 <= p < joysticks.len() implies exists|t: int|
                        0 <= t < i + 1 && all[t] is Joystick && admitted(all[t], *registrar)
                            && (#[trigger] joysticks@[p]).same_device(all[t]->Joystick_0)
                            && all[t]->Joystick_0.handles@.is_prefix_of(joysticks@[p].handles@) by {
                        if p < old_joy.len() {
                            assert(joysticks@[p].keeps(old_joy[p]));
                            let t = choose|t: int|
                                0 <= t < i && all[t] is Joystick && admitted(all[t], *registrar)
                                    && old_joy[p].same_device(all[t]->Joystick_0)
                                    && all[t]->Joystick_0.handles@.is_prefix_of(old_joy[p].handles@);
                            lemma_prefix_trans(
                                all[t]->Joystick_0.handles@,
                                old_joy[p].handles@,
                                joysticks@[p].handles@,
                            );
                            assert(joysticks@[p].same_device(all[t]->Joystick_0));
                        } else {
                            assert(joysticks@[p].keeps(old_joy[p]) || joysticks@[p] == jj);
                            assert(joysticks@[p] == jj);
                            assert(all[i]->Joystick_0 == jj);
                            assert(jj.handles@ =~= joysticks@[p].handles@.subrange(0, jj.handles@.len() as int));
                        }
                    }
                }
            },
        }
        proof {
            i = i + 1;
        }
    }
    assert forall|p: int| 0 <= p < joysticks.len() && !registrar.include_xinput implies !(
    #[trigger] joysticks@[p]).is_360_controller by {
        let t = choose|t: int|
            0 <= t < all.len() && all[t] is Joystick && admitted(all[t], *registrar)
                && joysticks@[p].same_device(all[t]->Joystick_0)
                && all[t]->Joystick_0.handles@.is_prefix_of(joysticks@[p].handles@);
    }
    let full = map.clone();
    Devices { mice, keyboards, joysticks, device_map: full, original_device_map: map }
}

/// One report delivered by the system, tagged with the handle of the device
/// that sent it.
#[derive(Clone, Debug)]
pub enum RawReport {
    Mouse(usize, MouseReport),
    Keyboard(usize, KeyboardReport),
    Hid(usize, JoystickReport),
}

/// The position a handle dispatches to within a class: the map must send
/// it to an entry of that class that holds the handle.
pub open spec fn resolve(map: Map<usize, usize>, entries: Seq<EntryView>, h: usize) -> Option<usize> {
    if map.contains_key(h) && map[h] < entries.len() && entries[map[h] as int].handles.contains(h) {
        Some(map[h])
    } else {
        None
    }
}

/// The states of the catalogued joysticks.
pub open spec fn joystick_states(joys: Seq<JoystickInfo>) -> Seq<crate::devices::JoystickStateView> {
    joys.map_values(|j: JoystickInfo| j.state@)
}

/// The joystick states and events after one report. Reports from handles
/// that do not dispatch, and reports that cannot be decoded, are dropped.
pub open spec fn report_effect(
    v: CatalogView,
    joys: Seq<JoystickInfo>,
    states: Seq<crate::devices::JoystickStateView>,
    r: RawReport,
) -> (Seq<crate::devices::JoystickStateView>, Seq<RawEvent>) {
    match r {
        RawReport::Mouse(h, data) => match resolve(v.device_map, v.mice, h) {
            Some(p) => (states, mouse_events(data, p)),
            None => (states, Seq::empty()),
        },
        RawReport::Keyboard(h, data) => match resolve(v.device_map, v.keyboards, h) {
            Some(p) => (states, keyboard_events(data, p)),
            None => (states, Seq::empty()),
        },
        RawReport::Hid(h, data) => match resolve(v.device_map, v.joysticks, h) {
            Some(p) => if p < joys.len() && p < states.len() {
                match decode_report(
                    joys[p as int].button_caps@,
                    joys[p as int].value_caps@,
                    joys[p as int].is_360_controller,
                    states[p as int],
                    data,
                ) {
                    Ok(new) => (states.update(p as int, new), state_changes(states[p as int], new, p)),
                    Err(_) => (states, Seq::empty()),
                }
            } else {
                (states, Seq::empty())
            },
            None => (states, Seq::empty()),
        },
    }
}

/// The joystick states and the events after the first `n` reports of a
/// batch, in delivery order.
pub open spec fn batch_effect(
    v: CatalogView,
    joys: Seq<JoystickInfo>,
    states: Seq<crate::devices::JoystickStateView>,
    reports: Seq<RawReport>,
    n: nat,
) -> (Seq<crate::devices::JoystickStateView>, Seq<RawEvent>)
    decreases n,
{
    if n == 0 {
        (states, Seq::empty())
    } else {
        let (st, evs) = batch_effect(v, joys, states, reports, (n - 1) as nat);
        let (st2, more) = report_effect(v, joys, st, reports[n - 1]);
        (st2, evs + more)
    }
}

/// Where handle `h` dispatches among `entries`; see `resolve`.
fn resolve_in<T: CatalogEntry>(map: &HashMap<usize, usize>, entries: &Vec<T>, h: usize) -> (r: Option<
    usize,
>)
    ensures
        r == resolve(map@, entries_view(entries@), h),
{
    match map.get(&h) {
        Some(p) => {
            let p = *p;
            if p < entries.len() {
                let hs = entries[p].handles();
                assert(entries_view(entries@)[p as int].handles == hs@);
                let mut k: usize = 0;
                while k < hs.len()
                    invariant
                        k <= hs.len(),
                        p < entries.len(),
                        map@.contains_key(h),
                        map@[h] == p,
                        entries_view(entries@)[p as int].handles == hs@,
                        forall|t: int| 0 <= t < k ==> hs@[t] != h,
                    decreases hs.len() - k,
                {
                    if hs[k] == h {
                        assert(hs@[k as int] == h);
                        return Some(p);
                    }
                    k = k + 1;
                }
            }
            None
        },
        None => None,
    }
}

/// Appends events to the queue, in order.
fn enqueue(queue: &mut VecDeque<RawEvent>, events: Vec<RawEvent>)
    ensures
        final(queue)@ == old(queue)@ + events@,
{
    let mut k: usize = 0;
    while k < events.len()
        invariant
            k <= events.len(),
            queue@ == old(queue)@ + events@.take(k as int),
        decreases events.len() - k,
    {
        queue.push_back(events[k]);
        assert(events@.take(k + 1) =~= events@.take(k as int).push(events@[k as int]));
        k = k + 1;
    }
    assert(events@.take(events.len() as int) =~= events@);
}

/// Decodes a batch of reports, in delivery order, and appends the events to
/// the queue. Joystick states are updated as their reports are decoded; the
/// catalog is otherwise left as it is.
pub fn read_input_buffer(
    event_queue: &mut VecDeque<RawEvent>,
    devices: &mut Devices,
    reports: &Vec<RawReport>,
)
    ensures
        ({
            let (st, evs) = batch_effect(
                old(devices)@,
                old(devices).joysticks@,
                joystick_states(old(devices).joysticks@),
                reports@,
                reports.len() as nat,
            );
            &&& final(event_queue)@ == old(event_queue)@ + evs
            &&& joystick_states(final(devices).joysticks@) == st
        }),
        final(devices)@ == old(devices)@,
        final(devices).mice == old(devices).mice,
        final(devices).keyboards == old(devices).keyboards,
        final(devices).joysticks.len() == old(devices).joysticks.len(),
        forall|p: int|
            0 <= p < final(devices).joysticks.len() ==> (#[trigger] final(devices).joysticks@[p]).same_but_state(
                old(devices).joysticks@[p],
            ),
{
    let ghost v = devices@;
    let ghost joys = devices.joysticks@;
    let ghost q0 = event_queue@;
    let mut i: usize = 0;
    while i < reports.len()
        invariant
            i <= reports.len(),
            devices@ == v,
            devices.mice == old(devices).mice,
            devices.keyboards == old(devices).keyboards,
            devices.joysticks.len() == joys.len(),
            joys == old(devices).joysticks@,
            forall|p: int|
                0 <= p < devices.joysticks.len() ==> (#[trigger] devices.joysticks@[p]).same_but_state(joys[p]),
            ({
                let (st, evs) = batch_effect(v, joys, joystick_states(joys), reports@, i as nat);
                &&& event_queue@ == q0 + evs
                &&& joystick_states(devices.joysticks@) == st
            }),
        decreases reports.len() - i,
    {
        let ghost (st, evs) = batch_effect(v, joys, joystick_states(joys), reports@, i as nat);
        let ghost (st2, more) = report_effect(v, joys, st, reports@[i as int]);
        let ghost q_before = event_queue@;
        match &reports[i] {
            RawReport::Mouse(h, data) => {
                if let Some(pos) = resolve_in(&devices.device_map, &devices.mice, *h) {
                    enqueue(event_queue, process_mouse_data(data, pos));
                }
                assert(event_queue@ =~= q_before + more);
            },
            RawReport::Keyboard(h, data) => {
                if let Some(pos) = resolve_in(&devices.device_map, &devices.keyboards, *h) {
                    enqueue(event_queue, process_keyboard_data(data, pos));
                }
                assert(event_queue@ =~= q_before + more);
            },
            RawReport::Hid(h, data) => {
                if let Some(pos) = resolve_in(&devices.device_map, &devices.joysticks, *h) {
                    let ghost states_before = joystick_states(devices.joysticks@);
                    let ghost joys_before = devices.joysticks@;
                    let mut joystick = devices.joysticks.remove(pos);
                    assert(joystick == joys_before[pos as int]);
                    assert(joystick.same_but_state(joys[pos as int]));
                    assert(states_before[pos as int] == joystick.state@);
                    let result = process_joystick_data(data, pos, &mut joystick);
                    devices.joysticks.insert(pos, joystick);
                    assert forall|p: int|
                        0 <= p < devices.joysticks.len() implies (#[trigger] devices.joysticks@[p]).same_but_state(joys[p]) by {
                        if p != pos {
                            assert(devices.joysticks@[p] == joys_before[p]);
                        }
                    }
                    match result {
                        Ok(events) => {
                            enqueue(event_queue, events);
                            assert(joystick_states(devices.joysticks@) =~= st2);
                        },
                        Err(_) => {
                            assert(joystick_states(devices.joysticks@) =~= st2);
                        },
                    }
                    assert(devices@.joysticks =~= v.joysticks);
                    assert(devices@ =~~= v);
                }
                assert(event_queue@ =~= q_before + more);
            },
        }
        i = i + 1;
    }
}

/// The next event: from the queue if it holds any, else from decoding the
/// batch `reports`, which is only read when the queue is empty.
pub fn get_event(
    event_queue: &mut VecDeque<RawEvent>,
    devices: &mut Devices,
    reports: &Vec<RawReport>,
) -> (r: Option<RawEvent>)
    ensures
        ({
            let (st, evs) = batch_effect(
                old(devices)@,
                old(devices).joysticks@,
                joystick_states(old(devices).joysticks@),
                reports@,
                reports.len() as nat,
            );
            let refill = old(event_queue)@.len() == 0;
            let q = if refill {
                evs
            } else {
                old(event_queue)@
            };
            &&& r == (if q.len() > 0 {
                Some(q[0])
            } else {
                None
            })
            &&& final(event_queue)@ == (if q.len() > 0 {
                q.drop_first()
            } else {
                q
            })
            &&& joystick_states(final(devices).joysticks@) == (if refill {
                st
            } else {
                joystick_states(old(devices).joysticks@)
            })
        }),
        final(devices)@ == old(devices)@,
        final(devices).mice == old(devices).mice,
        final(devices).keyboards == old(devices).keyboards,
        final(devices).joysticks.len() == old(devices).joysticks.len(),
        forall|p: int|
            0 <= p < final(devices).joysticks.len() ==> (#[trigger] final(devices).joysticks@[p]).same_but_state(
                old(devices).joysticks@[p],
            ),
{
    if event_queue.len() == 0 {
        read_input_buffer(event_queue, devices, reports);
        assert(event_queue@ =~= batch_effect(
            old(devices)@,
            old(devices).joysticks@,
            joystick_states(old(devices).joysticks@),
            reports@,
            reports.len() as nat,
        ).1);
    }
    event_queue.pop_front()
}

/// A copy of the state of joystick `id`, if there is such a joystick.
pub fn get_joystick_state(devices: &Devices, id: usize) -> (r: Option<JoystickState>)
    ensures
        r is Some <==> id < devices.joysticks.len(),
        r matches Some(s) ==> s@ == devices.joysticks@[id as int].state@,
{
    if id < devices.joysticks.len() {
        Some(copy_state(&devices.joysticks[id].state))
    } else {
        None
    }
}

/// Every event in `s` is of class `c`.
pub open spec fn all_of_class(s: Seq<RawEvent>, c: DeviceClass) -> bool {
    forall|i: int| 0 <= i < s.len() ==> event_class(#[trigger] s[i]) == c
}

/// The catalogued entries of one class.
pub open spec fn class_entries(v: CatalogView, c: DeviceClass) -> Seq<EntryView> {
    match c {
        DeviceClass::Mouse => v.mice,
        DeviceClass::Keyboard => v.keyboards,
        DeviceClass::Joystick => v.joysticks,
    }
}

broadcast proof fn lemma_all_of_class_concat(a: Seq<RawEvent>, b: Seq<RawEvent>, c: DeviceClass)
    requires
        all_of_class(a, c),
        all_of_class(b, c),
    ensures
        #[trigger] all_of_class(a + b, c),
{
    assert forall|i: int| 0 <= i < (a + b).len() implies event_class(#[trigger] (a + b)[i]) == c by {
        if i < a.len() {
            assert((a + b)[i] == a[i]);
        } else {
            assert((a + b)[i] == b[i - a.len()]);
        }
    }
}

proof fn lemma_button_events_of_joystick(old: Seq<bool>, new: Seq<bool>, id: usize, m: nat)
    ensures
        all_of_class(crate::event::button_events(old, new, id, m), DeviceClass::Joystick),
    decreases m,
{
    if m > 0 {
        lemma_button_events_of_joystick(old, new, id, (m - 1) as nat);
    }
}

proof fn lemma_mouse_events_class(data: MouseReport, id: usize)
    ensures
        all_of_class(mouse_events(data, id), DeviceClass::Mouse),
{
    broadcast use lemma_all_of_class_concat;

}

proof fn lemma_keyboard_events_class(data: KeyboardReport, id: usize)
    ensures
        all_of_class(keyboard_events(data, id), DeviceClass::Keyboard),
{
}

proof fn lemma_state_changes_class(
    old: crate::devices::JoystickStateView,
    new: crate::devices::JoystickStateView,
    id: usize,
)
    ensures
        all_of_class(state_changes(old, new, id), DeviceClass::Joystick),
{
    broadcast use lemma_all_of_class_concat;

    lemma_button_events_of_joystick(old.buttons, new.buttons, id, crate::event::common_buttons(old, new));
}

/// Every event decoded from a batch belongs to a class that has at least
/// one catalogued device.
pub proof fn lemma_batch_classes(
    v: CatalogView,
    joys: Seq<JoystickInfo>,
    states: Seq<crate::devices::JoystickStateView>,
    reports: Seq<RawReport>,
    n: nat,
)
    ensures
        forall|i: int|
            0 <= i < batch_effect(v, joys, states, reports, n).1.len() ==> class_entries(
                v,
                event_class(#[trigger] batch_effect(v, joys, states, reports, n).1[i]),
            ).len() > 0,
    decreases n,
{
    if n > 0 {
        lemma_batch_classes(v, joys, states, reports, (n - 1) as nat);
        let (st, evs) = batch_effect(v, joys, states, reports, (n - 1) as nat);
        let (st2, more) = report_effect(v, joys, st, reports[n - 1]);
        let all = evs + more;
        match reports[n - 1] {
            RawReport::Mouse(h, data) => {
                if let Some(p) = resolve(v.device_map, v.mice, h) {
                    lemma_mouse_events_class(data, p);
                }
            },
            RawReport::Keyboard(h, data) => {
                if let Some(p) = resolve(v.device_map, v.keyboards, h) {
                    lemma_keyboard_events_class(data, p);
                }
            },
            RawReport::Hid(h, data) => {
                if let Some(p) = resolve(v.device_map, v.joysticks, h) {
                    if p < joys.len() && p < st.len() {
                        if let Ok(new) = decode_report(
                            joys[p as int].button_caps@,
                            joys[p as int].value_caps@,
                            joys[p as int].is_360_controller,
                            st[p as int],
                            data,
                        ) {
                            lemma_state_changes_class(st[p as int], new, p);
                        }
                    }
                }
            },
        }
        assert forall|i: int| 0 <= i < all.len() implies class_entries(v, event_class(#[trigger] all[i])).len() > 0 by {
            if i < evs.len() {
                assert(all[i] == evs[i]);
            } else {
                assert(all[i] == more[i - evs.len()]);
            }
        }
    }
}

/// `pattern` occurs in `s` as a contiguous run of characters.
pub open spec fn occurs_in(pattern: Seq<char>, s: Seq<char>) -> bool {
    exists|i: int| 0 <= i && i + pattern.len() <= s.len() && #[trigger] s.subrange(i, i + pattern.len()) == pattern
}

/// Relies on `str::contains` with a `&str` pattern: true exactly when
/// `pattern` occurs in `s` as a contiguous run of characters.
#[verifier::external_body]
fn str_contains(s: &str, pattern: &str) -> (r: bool)
    ensures
        r == occurs_in(pattern@, s@),
{
    s.contains(pattern)
}

/// The name of an XInput-class gamepad carries the marker `IG_`.
pub open spec fn is_xinput_name(name: Seq<char>) -> bool {
    occurs_in("IG_"@, name)
}

impl MouseInfo {
    /// A mouse with one name and one handle.
    pub fn new(handle: usize, name: String, serial: Option<String>) -> (r: MouseInfo)
        ensures
            r.names@ == seq![name],
            r.handles@ == seq![handle],
            r.serial == serial,
    {
        let mut names: Vec<String> = Vec::new();
        names.push(name);
        let mut handles: Vec<usize> = Vec::new();
        handles.push(handle);
        MouseInfo { names, handles, serial }
    }
}

impl KeyboardInfo {
    /// A keyboard with one name and one handle.
    pub fn new(handle: usize, name: String, serial: Option<String>) -> (r: KeyboardInfo)
        ensures
            r.names@ == seq![name],
            r.handles@ == seq![handle],
            r.serial == serial,
    {
        let mut names: Vec<String> = Vec::new();
        names.push(name);
        let mut handles: Vec<usize> = Vec::new();
        handles.push(handle);
        KeyboardInfo { names, handles, serial }
    }
}

impl JoystickInfo {
    /// A joystick with one name and one handle, in its initial state; it
    /// counts as an XInput gamepad when its name carries the marker.
    pub fn new(
        handle: usize,
        name: String,
        serial: Option<String>,
        button_caps: Vec<ButtonCaps>,
        value_caps: Vec<ValueCaps>,
        preparsed_data: Vec<u8>,
    ) -> (r: JoystickInfo)
        ensures
            r.names@ == seq![name],
            r.handles@ == seq![handle],
            r.serial == serial,
            r.button_caps == button_caps,
            r.value_caps == value_caps,
            r.preparsed_data == preparsed_data,
            r.state@ == initial_state(button_caps@, value_caps@),
            r.is_360_controller == is_xinput_name(name@),
    {
        let is_360_controller = str_contains(name.as_str(), "IG_");
        let bc = button_caps.clone();
        let vc = value_caps.clone();
        assert(bc@ =~= button_caps@);
        assert(vc@ =~= value_caps@);
        let state = JoystickState::new(bc, vc);
        let mut names: Vec<String> = Vec::new();
        names.push(name);
        let mut handles: Vec<usize> = Vec::new();
        handles.push(handle);
        JoystickInfo {
            names,
            handles,
            serial,
            button_caps,
            value_caps,
            preparsed_data,
            state,
            is_360_controller,
        }
    }
}

/// The index of the first zero among the first `n` units.
pub open spec fn first_zero(units: Seq<u16>, n: nat) -> Option<int>
    decreases n,
{
    if n == 0 {
        None
    } else if first_zero(units, (n - 1) as nat) is Some {
        first_zero(units, (n - 1) as nat)
    } else if units[n - 1] == 0 {
        Some(n - 1)
    } else {
        None
    }
}

/// The length of a serial number in a zero-terminated buffer of UTF-16
/// units: present only when the query succeeded and the terminator comes
/// after more than ten units.
pub open spec fn serial_length_spec(units: Seq<u16>, query_succeeded: bool) -> Option<int> {
    match first_zero(units, units.len()) {
        Some(z) => if query_succeeded && z > 10 {
            Some(z)
        } else {
            None
        },
        None => None,
    }
}

/// The length of the serial number in a buffer filled by the system; see
/// `serial_length_spec`.
pub fn get_serial_number(units: &Vec<u16>, query_succeeded: bool) -> (r: Option<usize>)
    ensures
        r matches Some(z) ==> serial_length_spec(units@, query_succeeded) == Some(z as int),
        r is None ==> serial_length_spec(units@, query_succeeded) is None,
{
    if !query_succeeded {
        return None;
    }
    let mut k: usize = 0;
    while k < units.len()
        invariant
            k <= units.len(),
            query_succeeded,
            first_zero(units@, k as nat) is None,
        decreases units.len() - k,
    {
        if units[k] == 0 {
            proof {
                lemma_first_zero_stays(units@, (k + 1) as nat, units.len() as nat);
            }
            if k > 10 {
                return Some(k);
            } else {
                return None;
            }
        }
        k = k + 1;
    }
    None
}

proof fn lemma_first_zero_stays(units: Seq<u16>, m: nat, n: nat)
    requires
        m <= n,
        first_zero(units, m) is Some,
    ensures
        first_zero(units, n) == first_zero(units, m),
    decreases n - m,
{
    if m < n {
        lemma_first_zero_stays(units, m, (n - 1) as nat);
    }
}

} // verus!
