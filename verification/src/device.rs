//! The device record that the monitor lists, and the map from device names
//! to the identifiers used for Bluetooth connection requests.

use vstd::prelude::*;
use crate::collections::StringMap;
use crate::text::str_eq;

verus! {

/// The group a device is shown in.
#[derive(Debug, Clone, Copy, PartialEq, Eq, Structural, PartialOrd, Ord, Hash)]
pub enum DevType {
    Audio,
    Battery,
    Bluetooth,
    Monitor,
    Other,
    Usb,
}

/// A device as listed to the user.
#[derive(Debug, Clone, PartialEq)]
pub struct Device {
    pub name: String,
    pub dt: DevType,
    pub status: String,
    pub battery: Option<i32>,
    pub device_id: Option<String>,
    pub is_bluetooth: bool,
    pub is_wireless_24g: bool,
}

/// The mathematical content of a [`Device`].
pub struct DeviceView {
    pub name: Seq<char>,
    pub dt: DevType,
    pub status: Seq<char>,
    pub battery: Option<i32>,
    pub device_id: Option<Seq<char>>,
    pub is_bluetooth: bool,
    pub is_wireless_24g: bool,
}

pub open spec fn opt_string_view(o: Option<String>) -> Option<Seq<char>> {
    match o {
        Some(s) => Some(s@),
        None => None,
    }
}

impl View for Device {
    type V = DeviceView;

    open spec fn view(&self) -> DeviceView {
        DeviceView {
            name: self.name@,
            dt: self.dt,
            status: self.status@,
            battery: self.battery,
            device_id: opt_string_view(self.device_id),
            is_bluetooth: self.is_bluetooth,
            is_wireless_24g: self.is_wireless_24g,
        }
    }
}

/// The views of a list of devices.
pub open spec fn devices_view(v: Seq<Device>) -> Seq<DeviceView> {
    v.map_values(|d: Device| d@)
}

/// A copy of an optional string.
pub fn copy_opt_string(o: &Option<String>) -> (r: Option<String>)
    ensures
        opt_string_view(r) == opt_string_view(*o),
{
    match o {
        Some(s) => Some(s.clone()),
        None => None,
    }
}

impl Device {
    /// A copy of the device.
    pub fn copy(&self) -> (r: Device)
        ensures
            r@ == self@,
    {
        Device {
            name: self.name.clone(),
            dt: self.dt,
            status: self.status.clone(),
            battery: self.battery,
            device_id: copy_opt_string(&self.device_id),
            is_bluetooth: self.is_bluetooth,
            is_wireless_24g: self.is_wireless_24g,
        }
    }
}

/// Whether two devices are equal in every field.
pub fn device_eq(a: &Device, b: &Device) -> (r: bool)
    ensures
        r == (a@ == b@),
{
    let ids_eq = match (&a.device_id, &b.device_id) {
        (Some(x), Some(y)) => str_eq(x.as_str(), y.as_str()),
        (None, None) => true,
        _ => false,
    };
    let battery_eq = match (a.battery, b.battery) {
        (Some(x), Some(y)) => x == y,
        (None, None) => true,
        _ => false,
    };
    a.name == b.name && a.dt == b.dt && a.status == b.status && battery_eq && ids_eq
        && a.is_bluetooth == b.is_bluetooth && a.is_wireless_24g == b.is_wireless_24g
}

/// Whether two device lists are equal, device by device.
pub fn devices_eq(a: &Vec<Device>, b: &Vec<Device>) -> (r: bool)
    ensures
        r == (devices_view(a@) == devices_view(b@)),
{
    if a.len() != b.len() {
        assert(devices_view(a@).len() != devices_view(b@).len());
        return false;
    }
    let mut i: usize = 0;
    while i < a.len()
        invariant
            a@.len() == b@.len(),
            i <= a@.len(),
            forall|j: int| 0 <= j < i ==> a@[j]@ == b@[j]@,
        decreases a@.len() - i,
    {
        if !device_eq(&a[i], &b[i]) {
            assert(devices_view(a@)[i as int] != devices_view(b@)[i as int]);
            return false;
        }
        i = i + 1;
    }
    assert(devices_view(a@) =~= devices_view(b@));
    true
}

/// The name-to-identifier map of a device list: each device that has an
/// identifier, a later one winning for the same name.
pub open spec fn device_id_map(devs: Seq<DeviceView>) -> Map<Seq<char>, Seq<char>>
    decreases devs.len(),
{
    if devs.len() == 0 {
        Map::empty()
    } else {
        let rest = device_id_map(devs.drop_last());
        match devs.last().device_id {
            Some(id) => rest.insert(devs.last().name, id),
            None => rest,
        }
    }
}

/// The device carries the name `name` and an id.
pub open spec fn has_id_named(d: DeviceView, name: Seq<char>) -> bool {
    d.name == name && d.device_id is Some
}

/// After the ids of a device list are stored, a name has an id exactly when
/// some device of that name has one, and the id stored is that of the last
/// such device in the list.
pub proof fn law_stored_id_is_last(devs: Seq<DeviceView>, name: Seq<char>)
    ensures
        device_id_map(devs).contains_key(name) <==> exists|j: int|
            0 <= j < devs.len() && #[trigger] has_id_named(devs[j], name),
        forall|j: int|
            0 <= j < devs.len() && #[trigger] has_id_named(devs[j], name) && (forall|k: int|
                j < k < devs.len() ==> !has_id_named(devs[k], name)) ==> device_id_map(devs)[name]
                == devs[j].device_id->0,
    decreases devs.len(),
{
    if devs.len() > 0 {
        let init = devs.drop_last();
        law_stored_id_is_last(init, name);
        let n = devs.len() - 1;
        if has_id_named(devs[n], name) {
            assert(device_id_map(devs)[name] == devs[n].device_id->0);
            assert forall|j: int|
                0 <= j < devs.len() && #[trigger] has_id_named(devs[j], name) && (forall|k: int|
                    j < k < devs.len() ==> !has_id_named(devs[k], name)) implies device_id_map(
                devs,
            )[name] == devs[j].device_id->0 by {
                if j < n {
                    assert(!has_id_named(devs[n], name));
                }
            }
        } else {
            assert forall|j: int| 0 <= j < init.len() implies #[trigger] has_id_named(init[j], name)
                == has_id_named(devs[j], name) by {}
            if device_id_map(devs).contains_key(name) {
                if devs[n].device_id is Some {
                    assert(devs[n].name != name);
                    assert(device_id_map(init).contains_key(name));
                }
                let j = choose|j: int| 0 <= j < init.len() && #[trigger] has_id_named(init[j], name);
                assert(has_id_named(devs[j], name));
            }
            if exists|j: int| 0 <= j < devs.len() && #[trigger] has_id_named(devs[j], name) {
                let j = choose|j: int| 0 <= j < devs.len() && #[trigger] has_id_named(devs[j], name);
                assert(j < n);
                assert(has_id_named(init[j], name));
            }
            assert forall|j: int|
                0 <= j < devs.len() && #[trigger] has_id_named(devs[j], name) && (forall|k: int|
                    j < k < devs.len() ==> !has_id_named(devs[k], name)) implies device_id_map(
                devs,
            )[name] == devs[j].device_id->0 by {
                assert(j < n);
                assert(has_id_named(init[j], name));
                assert forall|k: int| j < k < init.len() implies !has_id_named(init[k], name) by {
                    assert(init[k] == devs[k]);
                }
            }
        }
    }
}

/// Replaces the contents of `ids` by the identifiers of `devices`, keyed by name.
pub fn store_device_ids(ids: &mut StringMap, devices: &[Device])
    ensures
        final(ids)@ == device_id_map(devices@.map_values(|d: Device| d@)),
{
    let ghost dv = devices@.map_values(|d: Device| d@);
    *ids = StringMap::new();
    let mut i: usize = 0;
    while i < devices.len()
        invariant
            i <= devices@.len(),
            dv == devices@.map_values(|d: Device| d@),
            ids@ == device_id_map(dv.subrange(0, i as int)),
        decreases devices@.len() - i,
    {
        assert(dv.subrange(0, i + 1).drop_last() =~= dv.subrange(0, i as int));
        assert(dv.subrange(0, i + 1).last() == devices@[i as int]@);
        match &devices[i].device_id {
            Some(id) => {
                ids.insert(devices[i].name.clone(), id.clone());
            },
            None => {},
        }
        i = i + 1;
    }
    assert(dv.subrange(0, devices@.len() as int) =~= dv);
}

/// The identifier stored for the device named `name`.
pub fn get_device_id_by_name(ids: &StringMap, name: &str) -> (r: Option<String>)
    ensures
        r matches Some(id) ==> ids@.contains_key(name@) && id@ == ids@[name@],
        r is None ==> !ids@.contains_key(name@),
{
    match ids.get(name) {
        Some(id) => Some(id.clone()),
        None => None,
    }
}

} // verus!
