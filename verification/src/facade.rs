//! The enumeration itself: the list of all devices of an attribute tree, and
//! the search for one device by its identification.

use crate::attribute::{
    attribute_value, get_pci_device_attribute_u16, get_pci_device_attribute_u32,
    get_pci_device_attribute_u8,
};
use crate::hex::{MAX_U16, MAX_U32, MAX_U8};
use crate::pci::{device_views, PciDevice, PciDeviceView, PciEnumerationError};
use vstd::prelude::*;

verus! {

/// One device directory of an attribute tree, as it was read: the label of
/// the device and, for each attribute that a device record needs, the
/// outcome of reading its file.
#[derive(Debug)]
pub struct DeviceEntry {
    pub label: String,
    pub domain: Result<String, std::io::Error>,
    pub bus: Result<String, std::io::Error>,
    pub device: Result<String, std::io::Error>,
    pub function: Result<String, std::io::Error>,
    pub vendor: Result<String, std::io::Error>,
    pub device_id: Result<String, std::io::Error>,
    pub subsystem_vendor: Result<String, std::io::Error>,
    pub subsystem_device: Result<String, std::io::Error>,
    pub class: Result<String, std::io::Error>,
    pub subclass: Result<String, std::io::Error>,
    pub programming_interface: Result<String, std::io::Error>,
    pub revision: Result<String, std::io::Error>,
}

/// The device that an entry describes. The attributes count in the order
/// of the fields of [`DeviceEntry`]: the first one that has no value decides
/// the error, and only an entry whose attributes all have a value gives a
/// device.
pub open spec fn entry_device(entry: DeviceEntry) -> Result<PciDeviceView, PciEnumerationError> {
    let domain = attribute_value(entry.domain, MAX_U32 as nat);
    let bus = attribute_value(entry.bus, MAX_U8 as nat);
    let device = attribute_value(entry.device, MAX_U8 as nat);
    let function = attribute_value(entry.function, MAX_U8 as nat);
    let vendor = attribute_value(entry.vendor, MAX_U16 as nat);
    let device_id = attribute_value(entry.device_id, MAX_U16 as nat);
    let subsystem_vendor = attribute_value(entry.subsystem_vendor, MAX_U16 as nat);
    let subsystem_device = attribute_value(entry.subsystem_device, MAX_U16 as nat);
    let class = attribute_value(entry.class, MAX_U8 as nat);
    let subclass = attribute_value(entry.subclass, MAX_U8 as nat);
    let programming_interface = attribute_value(entry.programming_interface, MAX_U8 as nat);
    let revision = attribute_value(entry.revision, MAX_U8 as nat);
    if domain is Err {
        Err(domain->Err_0)
    } else if bus is Err {
        Err(bus->Err_0)
    } else if device is Err {
        Err(device->Err_0)
    } else if function is Err {
        Err(function->Err_0)
    } else if vendor is Err {
        Err(vendor->Err_0)
    } else if device_id is Err {
        Err(device_id->Err_0)
    } else if subsystem_vendor is Err {
        Err(subsystem_vendor->Err_0)
    } else if subsystem_device is Err {
        Err(subsystem_device->Err_0)
    } else if class is Err {
        Err(class->Err_0)
    } else if subclass is Err {
        Err(subclass->Err_0)
    } else if programming_interface is Err {
        Err(programming_interface->Err_0)
    } else if revision is Err {
        Err(revision->Err_0)
    } else {
        Ok(
            PciDeviceView {
                domain: domain->Ok_0 as u32,
                bus: bus->Ok_0 as u8,
                device: device->Ok_0 as u8,
                function: function->Ok_0 as u8,
                label: entry.label@,
                vendor_id: vendor->Ok_0 as u16,
                device_id: device_id->Ok_0 as u16,
                subsys_device_id: subsystem_device->Ok_0 as u16,
                subsys_vendor_id: subsystem_vendor->Ok_0 as u16,
                class: class->Ok_0 as u8,
                subclass: subclass->Ok_0 as u8,
                programming_interface: programming_interface->Ok_0 as u8,
                revision_id: revision->Ok_0 as u8,
            },
        )
    }
}

/// What one directory of the tree gives. A directory whose listing failed
/// gives [`PciEnumerationError::ReadDirectory`], whatever the failure was:
/// it has no attribute that could be looked at.
pub open spec fn listed_device(listed: Result<DeviceEntry, std::io::Error>) -> Result<
    PciDeviceView,
    PciEnumerationError,
> {
    match listed {
        Err(_) => Err(PciEnumerationError::ReadDirectory),
        Ok(entry) => entry_device(entry),
    }
}

/// Assembles the device of one directory of the tree.
pub fn device_from_entry(listed: Result<DeviceEntry, std::io::Error>) -> (result: Result<
    PciDevice,
    PciEnumerationError,
>)
    ensures
        match result {
            Ok(device) => listed_device(listed) == Ok::<PciDeviceView, PciEnumerationError>(
                device@,
            ),
            Err(error) => listed_device(listed) == Err::<PciDeviceView, PciEnumerationError>(
                error,
            ),
        },
{
    let entry = match listed {
        Ok(entry) => entry,
        Err(_) => {
            return Err(PciEnumerationError::ReadDirectory);
        },
    };
    let domain = match get_pci_device_attribute_u32(entry.domain) {
        Ok(value) => value,
        Err(error) => {
            return Err(error);
        },
    };
    let bus = match get_pci_device_attribute_u8(entry.bus) {
        Ok(value) => value,
        Err(error) => {
            return Err(error);
        },
    };
    let device = match get_pci_device_attribute_u8(entry.device) {
        Ok(value) => value,
        Err(error) => {
            return Err(error);
        },
    };
    let function = match get_pci_device_attribute_u8(entry.function) {
        Ok(value) => value,
        Err(error) => {
            return Err(error);
        },
    };
    let vendor_id = match get_pci_device_attribute_u16(entry.vendor) {
        Ok(value) => value,
        Err(error) => {
            return Err(error);
        },
    };
    let device_id = match get_pci_device_attribute_u16(entry.device_id) {
        Ok(value) => value,
        Err(error) => {
            return Err(error);
        },
    };
    let subsys_vendor_id = match get_pci_device_attribute_u16(entry.subsystem_vendor) {
        Ok(value) => value,
        Err(error) => {
            return Err(error);
        },
    };
    let subsys_device_id = match get_pci_device_attribute_u16(entry.subsystem_device) {
        Ok(value) => value,
        Err(error) => {
            return Err(error);
        },
    };
    let class = match get_pci_device_attribute_u8(entry.class) {
        Ok(value) => value,
        Err(error) => {
            return Err(error);
        },
    };
    let subclass = match get_pci_device_attribute_u8(entry.subclass) {
        Ok(value) => value,
        Err(error) => {
            return Err(error);
        },
    };
    let programming_interface = match get_pci_device_attribute_u8(entry.programming_interface) {
        Ok(value) => value,
        Err(error) => {
            return Err(error);
        },
    };
    let revision_id = match get_pci_device_attribute_u8(entry.revision) {
        Ok(value) => value,
        Err(error) => {
            return Err(error);
        },
    };
    Ok(
        PciDevice {
            domain,
            bus,
            device,
            function,
            label: entry.label,
            vendor_id,
            device_id,
            subsys_device_id,
            subsys_vendor_id,
            class,
            subclass,
            programming_interface,
            revision_id,
        },
    )
}

/// Lists the devices of an attribute tree, one for each directory, in the
/// order of the directories.
///
/// The list is all or nothing: it is returned exactly when every directory
/// gives a device, and then holds as many devices as the tree has
/// directories. Otherwise the error of the first directory that gives none is
/// returned, and no list.
pub fn list_devices(tree: Vec<Result<DeviceEntry, std::io::Error>>) -> (result: Result<
    Vec<PciDevice>,
    PciEnumerationError,
>)
    ensures
        match result {
            Ok(devices) => {
                &&& devices@.len() == tree@.len()
                &&& forall|i: int|
                    0 <= i < tree@.len() ==> listed_device(#[trigger] tree@[i]) == Ok::<
                        PciDeviceView,
                        PciEnumerationError,
                    >(devices@[i]@)
            },
            Err(error) => exists|i: int|
                {
                    &&& 0 <= i < tree@.len()
                    &&& listed_device(#[trigger] tree@[i]) == Err::<
                        PciDeviceView,
                        PciEnumerationError,
                    >(error)
                    &&& forall|j: int| 0 <= j < i ==> listed_device(#[trigger] tree@[j]) is Ok
                },
        },
{
    let mut devices: Vec<PciDevice> = Vec::new();
    for listed in it: tree
        invariant
            devices@.len() == it.index(),
            it.seq() == tree@,
            forall|i: int|
                0 <= i < it.index() ==> listed_device(#[trigger] tree@[i]) == Ok::<
                    PciDeviceView,
                    PciEnumerationError,
                >(devices@[i]@),
    {
        match device_from_entry(listed) {
            Ok(device) => {
                devices.push(device);
            },
            Err(error) => {
                return Err(error);
            },
        }
    }
    Ok(devices)
}

/// `device` has the identification `vendor`, `device_id`.
pub open spec fn has_id(device: PciDevice, vendor: u16, device_id: u16) -> bool {
    device.vendor_id == vendor && device.device_id == device_id
}

/// Finds a device by its identification: the first device of `devices`, in
/// their order, whose vendor and device identifiers are the ones asked for.
/// Where several devices match, the first wins; where none does, the answer
/// is [`PciEnumerationError::NotFound`].
pub fn _get_pci_by_id(devices: Vec<PciDevice>, vendor: u16, device: u16) -> (result: Result<
    PciDevice,
    PciEnumerationError,
>)
    ensures
        match result {
            Ok(found) => exists|i: int|
                {
                    &&& 0 <= i < devices@.len()
                    &&& found == #[trigger] devices@[i]
                    &&& has_id(devices@[i], vendor, device)
                    &&& forall|j: int| 0 <= j < i ==> !has_id(#[trigger] devices@[j], vendor, device)
                },
            Err(error) => {
                &&& error == PciEnumerationError::NotFound
                &&& forall|i: int|
                    0 <= i < devices@.len() ==> !has_id(#[trigger] devices@[i], vendor, device)
            },
        },
{
    let mut candidates = devices;
    let mut i: usize = 0;
    while i < candidates.len()
        invariant
            candidates@ == devices@,
            i <= candidates.len(),
            forall|j: int| 0 <= j < i ==> !has_id(#[trigger] devices@[j], vendor, device),
        decreases candidates.len() - i,
    {
        if candidates[i].vendor_id == vendor && candidates[i].device_id == device {
            return Ok(candidates.remove(i));
        }
        i += 1;
    }
    Err(PciEnumerationError::NotFound)
}

/// Two devices sit at the same bus address.
pub open spec fn same_address(a: PciDeviceView, b: PciDeviceView) -> bool {
    a.domain == b.domain && a.bus == b.bus && a.device == b.device && a.function == b.function
}

/// No two devices of the list sit at the same bus address. A snapshot of
/// one enumeration is expected to have this property; the enumeration
/// copies what its source reports and does not enforce it.
pub open spec fn distinct_addresses(devices: Seq<PciDeviceView>) -> bool {
    forall|i: int, j: int|
        0 <= i < j < devices.len() ==> !same_address(#[trigger] devices[i], #[trigger] devices[j])
}

/// Tells whether no two devices of the list sit at the same bus address.
pub fn has_distinct_addresses(devices: &Vec<PciDevice>) -> (distinct: bool)
    ensures
        distinct == distinct_addresses(device_views(devices@)),
{
    let ghost views = device_views(devices@);
    let mut j: usize = 0;
    while j < devices.len()
        invariant
            j <= devices.len(),
            views == device_views(devices@),
            forall|a: int, b: int|
                0 <= a < b < j ==> !same_address(#[trigger] views[a], #[trigger] views[b]),
        decreases devices.len() - j,
    {
        let mut i: usize = 0;
        while i < j
            invariant
                i <= j < devices.len(),
                views == device_views(devices@),
                forall|a: int| 0 <= a < i ==> !same_address(#[trigger] views[a], views[j as int]),
            decreases j - i,
        {
            let first = &devices[i];
            let second = &devices[j];
            if first.domain == second.domain && first.bus == second.bus && first.device
                == second.device && first.function == second.function {
                assert(same_address(views[i as int], views[j as int]));
                return false;
            }
            i += 1;
        }
        j += 1;
    }
    true
}

/// Success is no failure. No directory of a tree, whatever was read in it,
/// gives [`PciEnumerationError::Success`] as its error, so neither does a
/// listing.
pub proof fn lemma_listing_never_fails_with_success(listed: Result<DeviceEntry, std::io::Error>)
    ensures
        listed_device(listed) != Err::<PciDeviceView, PciEnumerationError>(
            PciEnumerationError::Success,
        ),
{
}

} // verus!
