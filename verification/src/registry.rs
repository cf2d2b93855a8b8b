//! The registry of discovered peers: a set of device records keyed by
//! device id, in which the first sighting of an id wins.

use vstd::prelude::*;
use crate::keyed::{
    contains_id, distinct_ids, lemma_removal_keeps_distinct, lemma_removed_id_is_gone,
    position_of, remove_all, without_id, Identified,
};

verus! {

/// Identity record of a discovered peer.
#[derive(Debug)]
pub struct DeviceInfo {
    pub id: String,
    pub name: String,
    pub device_type: String,
    pub ip: String,
    pub port: u16,
    pub version: String,
    pub protocol_version: String,
    pub announcement_id: String,
    pub uses_password: bool,
}

impl Clone for DeviceInfo {
    fn clone(&self) -> (copy: Self)
        ensures
            copy == *self,
    {
        DeviceInfo {
            id: self.id.clone(),
            name: self.name.clone(),
            device_type: self.device_type.clone(),
            ip: self.ip.clone(),
            port: self.port,
            version: self.version.clone(),
            protocol_version: self.protocol_version.clone(),
            announcement_id: self.announcement_id.clone(),
            uses_password: self.uses_password,
        }
    }
}

impl Identified for DeviceInfo {
    open spec fn ident(&self) -> Seq<char> {
        self.id@
    }

    fn has_ident(&self, id: &str) -> (same: bool) {
        str::eq(self.id.as_str(), id)
    }
}

/// The registry after a sighting of `device`: unchanged when its id is
/// already known, else with `device` at the end.
pub open spec fn with_device(devices: Seq<DeviceInfo>, device: DeviceInfo) -> Seq<DeviceInfo> {
    if contains_id(devices, device.id@) {
        devices
    } else {
        devices.push(device)
    }
}

/// The set of discovered peers. No two of its records share an id.
#[derive(Debug)]
pub struct DiscoveryManager {
    devices: Vec<DeviceInfo>,
}

impl DiscoveryManager {
    /// The records, in the order in which their ids were first seen.
    pub closed spec fn view(&self) -> Seq<DeviceInfo> {
        self.devices@
    }

    /// The invariant of the registry: ids are pairwise distinct.
    pub open spec fn well_formed(&self) -> bool {
        distinct_ids(self@)
    }

    /// An empty registry.
    pub fn new() -> (manager: Self)
        ensures
            manager@ == Seq::<DeviceInfo>::empty(),
            manager.well_formed(),
    {
        DiscoveryManager { devices: Vec::new() }
    }

    /// Records a sighting of `device`. A device whose id is already known is
    /// ignored, so the first record seen under an id stays.
    pub fn add_device(&mut self, device: DeviceInfo)
        ensures
            final(self)@ == with_device(old(self)@, device),
            contains_id(final(self)@, device.id@),
            old(self).well_formed() ==> final(self).well_formed(),
    {
        proof {
            lemma_with_device(self@, device);
        }
        if position_of(&self.devices, device.id.as_str()).is_none() {
            self.devices.push(device);
        }
    }

    /// Removes the device with id `id`, if there is one.
    pub fn remove_device(&mut self, id: &str)
        ensures
            final(self)@ == without_id(old(self)@, id@),
            !contains_id(final(self)@, id@),
            old(self).well_formed() ==> final(self).well_formed(),
    {
        proof {
            lemma_removed_id_is_gone(self@, id@);
            if self.well_formed() {
                lemma_removal_keeps_distinct(self@, id@);
            }
        }
        remove_all(&mut self.devices, id);
    }

    /// A snapshot copy of the records.
    pub fn get_devices(&self) -> (devices: Vec<DeviceInfo>)
        ensures
            devices@ == self@,
    {
        let mut devices: Vec<DeviceInfo> = Vec::new();
        let mut i: usize = 0;
        while i < self.devices.len()
            invariant
                i <= self.devices@.len(),
                devices@ == self.devices@.subrange(0, i as int),
            decreases self.devices@.len() - i,
        {
            devices.push(self.devices[i].clone());
            proof {
                assert(devices@ =~= self.devices@.subrange(0, i + 1));
            }
            i = i + 1;
        }
        proof {
            assert(devices@ =~= self.devices@);
        }
        devices
    }

    /// Forgets every device.
    pub fn clear(&mut self)
        ensures
            final(self)@ == Seq::<DeviceInfo>::empty(),
            final(self).well_formed(),
    {
        self.devices.clear();
    }

    /// The number of known devices.
    pub fn len(&self) -> (n: usize)
        ensures
            n == self@.len(),
    {
        self.devices.len()
    }
}

/// A sighting leaves the device's id in the registry and keeps ids distinct.
pub proof fn lemma_with_device(devices: Seq<DeviceInfo>, device: DeviceInfo)
    ensures
        contains_id(with_device(devices, device), device.id@),
        distinct_ids(devices) ==> distinct_ids(with_device(devices, device)),
{
    let after = with_device(devices, device);
    if !contains_id(devices, device.id@) {
        assert(after[devices.len() as int].ident() == device.id@);
        if distinct_ids(devices) {
            assert forall|i: int, j: int|
                0 <= i < after.len() && 0 <= j < after.len() && i != j implies (
            #[trigger] after[i]).ident() != (#[trigger] after[j]).ident() by {
                if i < devices.len() && j < devices.len() {
                    assert(devices[i].ident() != devices[j].ident());
                } else if i < devices.len() {
                    assert(devices[i].ident() != device.id@);
                } else {
                    assert(devices[j].ident() != device.id@);
                }
            }
        }
    }
}

/// Adding two devices with the same id leaves the registry as it is after
/// the first: the second sighting is ignored, so the first-seen record stays
/// and it is the only one under that id.
pub proof fn lemma_first_sighting_wins(
    devices: Seq<DeviceInfo>,
    first: DeviceInfo,
    second: DeviceInfo,
)
    requires
        first.id@ == second.id@,
    ensures
        with_device(with_device(devices, first), second) == with_device(devices, first),
{
    lemma_with_device(devices, first);
}

/// In a registry with distinct ids, at most one record carries a given id.
pub proof fn lemma_one_entry_per_id(devices: Seq<DeviceInfo>, i: int, j: int)
    requires
        distinct_ids(devices),
        0 <= i < devices.len(),
        0 <= j < devices.len(),
        devices[i].id@ == devices[j].id@,
    ensures
        i == j,
{
    if i != j {
        assert(devices[i].ident() != devices[j].ident());
    }
}

} // verus!
