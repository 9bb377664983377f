use vstd::prelude::*;

use crate::devices::{names_of, CatalogEntry, CatalogView, DeviceInfo, Devices, JoystickInfo, JoystickState};
use crate::event::{event_class, DeviceClass, RawEvent};
use crate::rawinput::{
    admitted, batch_effect, catalog_of, class_entries, get_event,
    get_joystick_state, joystick_states, lemma_batch_classes, produce_raw_device_list, RawReport,
};
use crate::registrar::{requests_for, DeviceType, RawInputDeviceRequest, RawInputRegistrar};
use std::collections::{HashSet, VecDeque};

verus! {

/// Number of catalogued devices of each class.
#[derive(PartialEq, Eq, Structural, Clone, Copy, Debug)]
pub struct DeviceStats {
    pub number_of_mice: usize,
    pub number_of_keyboards: usize,
    pub number_of_joysticks: usize,
}

impl Default for DeviceStats {
    fn default() -> (r: Self)
        ensures
            r.number_of_mice == 0,
            r.number_of_keyboards == 0,
            r.number_of_joysticks == 0,
    {
        DeviceStats { number_of_mice: 0, number_of_keyboards: 0, number_of_joysticks: 0 }
    }
}

/// The number of catalogued devices of each class.
pub fn get_device_stats(devices: &Devices) -> (r: DeviceStats)
    ensures
        r.number_of_mice == devices.mice.len(),
        r.number_of_keyboards == devices.keyboards.len(),
        r.number_of_joysticks == devices.joysticks.len(),
{
    DeviceStats {
        number_of_mice: devices.mice.len(),
        number_of_keyboards: devices.keyboards.len(),
        number_of_joysticks: devices.joysticks.len(),
    }
}

/// A catalog built at enumeration holds no device of a class that is not
/// registered.
pub proof fn lemma_catalog_registered_only(found: Seq<DeviceInfo>, reg: RawInputRegistrar, n: nat)
    requires
        n <= found.len(),
    ensures
        forall|c: DeviceClass|
            !reg.has_class(c) ==> #[trigger] class_entries(catalog_of(found, reg, n), c).len() == 0,
    decreases n,
{
    if n > 0 {
        lemma_catalog_registered_only(found, reg, (n - 1) as nat);
        let prev = catalog_of(found, reg, (n - 1) as nat);
        let next = catalog_of(found, reg, n);
        assert forall|c: DeviceClass| !reg.has_class(c) implies #[trigger] class_entries(next, c).len() == 0 by {
            assert(class_entries(prev, c).len() == 0);
            if admitted(found[n - 1], reg) {
                match found[n - 1] {
                    DeviceInfo::Mouse(_) => assert(c != DeviceClass::Mouse),
                    DeviceInfo::Keyboard(_) => assert(c != DeviceClass::Keyboard),
                    DeviceInfo::Joystick(_) => assert(c != DeviceClass::Joystick),
                }
            }
        }
    }
}

/// The state that the worker owning the system's input resources keeps:
/// the registered classes, the device catalog and the queue of events not
/// yet handed out. The system calls themselves are made by its owner, which
/// hands their results in.
pub struct ManagerState {
    registrar: RawInputRegistrar,
    devices: Devices,
    event_queue: VecDeque<RawEvent>,
}

impl ManagerState {
    /// The registered classes.
    pub closed spec fn registrar(&self) -> RawInputRegistrar {
        self.registrar
    }

    /// The catalog.
    pub closed spec fn catalog(&self) -> CatalogView {
        self.devices@
    }

    /// The catalogued joysticks.
    pub closed spec fn joysticks(&self) -> Seq<JoystickInfo> {
        self.devices.joysticks@
    }

    /// The number of catalogued mice, keyboards and joysticks.
    pub open spec fn counts(&self) -> (nat, nat, nat) {
        (self.catalog().mice.len(), self.catalog().keyboards.len(), self.catalog().joysticks.len())
    }

    /// The catalogued joysticks are the joystick entries of the catalog.
    pub proof fn lemma_joysticks_match_catalog(&self)
        ensures
            self.joysticks().len() == self.catalog().joysticks.len(),
            forall|p: int|
                0 <= p < self.joysticks().len() ==> #[trigger] self.joysticks()[p].entry()
                    == self.catalog().joysticks[p],
    {
    }

    /// The events waiting to be handed out.
    pub closed spec fn queue(&self) -> Seq<RawEvent> {
        self.event_queue@
    }

    /// The catalog is well formed, holds only devices of registered classes,
    /// and the queue holds only events of registered classes.
    pub closed spec fn inv(&self) -> bool {
        &&& self.devices@.well_formed()
        &&& forall|c: DeviceClass|
            !self.registrar.has_class(c) ==> #[trigger] class_entries(self.devices@, c).len() == 0
        &&& forall|i: int|
            0 <= i < self.event_queue@.len() ==> self.registrar.has_class(
                event_class(#[trigger] self.event_queue@[i]),
            )
    }

    /// Nothing registered, nothing catalogued, nothing queued.
    pub fn new() -> (r: ManagerState)
        ensures
            r.inv(),
            r.registrar() == RawInputRegistrar::new_spec(),
            r.counts() == (0nat, 0nat, 0nat),
            r.joysticks().len() == 0,
            r.queue().len() == 0,
    {
        ManagerState { registrar: RawInputRegistrar::new(), devices: Devices::new(), event_queue: VecDeque::new() }
    }

    /// The usages to ask the system for when registering `device_type`.
    /// Nothing is recorded until the system has accepted them.
    pub fn begin_registration(&self, device_type: DeviceType) -> (r: Vec<RawInputDeviceRequest>)
        ensures
            r@ == requests_for(device_type),
    {
        let mut registrar = self.registrar;
        registrar.register_devices(device_type)
    }

    /// Records the registration of `device_type`, which the system has
    /// accepted, and replaces the catalog with one built from the devices
    /// found at a fresh enumeration, keeping the registered classes only.
    pub fn complete_registration(&mut self, device_type: DeviceType, found: Vec<DeviceInfo>)
        requires
            old(self).inv(),
        ensures
            final(self).inv(),
            final(self).registrar() == old(self).registrar().registered(device_type),
            final(self).catalog() == catalog_of(found@, final(self).registrar(), found.len() as nat),
            final(self).queue() == old(self).queue(),
    {
        let _ = self.registrar.register_devices(device_type);
        proof {
            lemma_catalog_registered_only(found@, self.registrar, found.len() as nat);
            assert forall|i: int| 0 <= i < self.event_queue@.len() implies self.registrar.has_class(
                event_class(#[trigger] self.event_queue@[i]),
            ) by {
                assert(old(self).registrar.has_class(event_class(self.event_queue@[i])));
            }
        }
        self.devices = produce_raw_device_list(found, &self.registrar);
    }

    /// Whether the next `get_event` reads a batch of reports.
    pub fn needs_reports(&self) -> (r: bool)
        ensures
            r == (self.queue().len() == 0),
    {
        self.event_queue.len() == 0
    }

    /// The next event, from the queue if it holds one, else from decoding
    /// `reports`; `None` when there is none. An event is only ever of a
    /// registered class.
    pub fn get_event(&mut self, reports: &Vec<RawReport>) -> (r: Option<RawEvent>)
        requires
            old(self).inv(),
        ensures
            final(self).inv(),
            ({
                let (st, evs) = batch_effect(
                    old(self).catalog(),
                    old(self).joysticks(),
                    joystick_states(old(self).joysticks()),
                    reports@,
                    reports.len() as nat,
                );
                let q = if old(self).queue().len() == 0 {
                    evs
                } else {
                    old(self).queue()
                };
                &&& r == (if q.len() > 0 {
                    Some(q[0])
                } else {
                    None
                })
                &&& final(self).queue() == (if q.len() > 0 {
                    q.drop_first()
                } else {
                    q
                })
                &&& joystick_states(final(self).joysticks()) == (if old(self).queue().len() == 0 {
                    st
                } else {
                    joystick_states(old(self).joysticks())
                })
            }),
            r matches Some(e) ==> old(self).registrar().has_class(event_class(e)),
            final(self).catalog() == old(self).catalog(),
            final(self).registrar() == old(self).registrar(),
    {
        let ghost v = self.devices@;
        let ghost joys = self.devices.joysticks@;
        proof {
            lemma_batch_classes(v, joys, joystick_states(joys), reports@, reports.len() as nat);
        }
        let r = get_event(&mut self.event_queue, &mut self.devices, reports);
        let ghost evs = batch_effect(v, joys, joystick_states(joys), reports@, reports.len() as nat).1;
        assert forall|i: int| 0 <= i < self.event_queue@.len() implies self.registrar.has_class(
            event_class(#[trigger] self.event_queue@[i]),
        ) by {
            if old(self).event_queue@.len() == 0 {
                assert(self.event_queue@[i] == evs[i + 1]);
                assert(class_entries(v, event_class(evs[i + 1])).len() > 0);
            } else {
                assert(self.event_queue@[i] == old(self).event_queue@[i + 1]);
            }
        }
        proof {
            if r is Some && old(self).event_queue@.len() == 0 {
                assert(class_entries(v, event_class(evs[0])).len() > 0);
            }
        }
        r
    }

    /// A copy of the state of joystick `id`; `None` if there is no such joystick.
    pub fn get_joystick_state(&self, id: usize) -> (r: Option<JoystickState>)
        ensures
            r is Some <==> id < self.joysticks().len(),
            r matches Some(s) ==> s@ == self.joysticks()[id as int].state@,
    {
        get_joystick_state(&self.devices, id)
    }

    /// The number of catalogued devices of each class.
    pub fn get_device_stats(&self) -> (r: DeviceStats)
        ensures
            (r.number_of_mice as nat, r.number_of_keyboards as nat, r.number_of_joysticks as nat) == self.counts(),
    {
        get_device_stats(&self.devices)
    }

    /// Restricts dispatch to the devices one of whose names is in `names`.
    pub fn filter_devices(&mut self, names: HashSet<String>)
        requires
            old(self).inv(),
        ensures
            final(self).inv(),
            final(self).catalog() == old(self).catalog().filtered(names_of(names@)),
            final(self).registrar() == old(self).registrar(),
            final(self).queue() == old(self).queue(),
    {
        let ghost before = self.devices@;
        self.devices.filter_device_map(names);
        assert forall|c: DeviceClass| !self.registrar.has_class(c) implies #[trigger] class_entries(self.devices@, c).len() == 0 by {
            assert(class_entries(self.devices@, c) == class_entries(before, c));
        }
    }

    /// Restores dispatch to every device found at the last enumeration.
    pub fn unfilter_devices(&mut self)
        requires
            old(self).inv(),
        ensures
            final(self).inv(),
            final(self).catalog() == old(self).catalog().unfiltered(),
            final(self).registrar() == old(self).registrar(),
            final(self).queue() == old(self).queue(),
    {
        let ghost before = self.devices@;
        self.devices.reset_device_map();
        assert forall|c: DeviceClass| !self.registrar.has_class(c) implies #[trigger] class_entries(self.devices@, c).len() == 0 by {
            assert(class_entries(self.devices@, c) == class_entries(before, c));
        }
    }

    /// The catalog, for reading the system's reports and for listing devices.
    pub fn devices(&self) -> (r: &Devices)
        ensures
            r@ == self.catalog(),
            r.joysticks@ == self.joysticks(),
    {
        &self.devices
    }
}

/// From a fresh start, registering mice and then keyboards registers
/// exactly those two classes; since `get_event` only hands out events of
/// registered classes, no joystick event can come after these two steps.
pub proof fn lemma_mice_then_keyboards(c: DeviceClass)
    ensures
        RawInputRegistrar::new_spec().registered(DeviceType::Mice).registered(
            DeviceType::Keyboards,
        ).has_class(c) <==> (c == DeviceClass::Mouse || c == DeviceClass::Keyboard),
        !RawInputRegistrar::new_spec().registered(DeviceType::Mice).has_class(DeviceClass::Keyboard),
{
}

} // verus!
