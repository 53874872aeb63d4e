use libpci_rs::backend::{after_populate, conv_c_pci_device, DrainStep, NativeDevice};
use libpci_rs::pci::{PciDevice, PciEnumerationError};

fn record(function: u8, label: &[u8]) -> NativeDevice {
    NativeDevice {
        domain: 0x0001_0000,
        bus: 0x12,
        device: 0x1f,
        function,
        label: label.to_vec(),
        vendor_id: 0x8086,
        device_id: 0x1234,
        subsys_device_id: 0x0042,
        subsys_vendor_id: 0x1ab8,
        dev_class: 0x02,
        subclass: 0x80,
        programming_interface: 0x01,
        revision_id: 0x0a,
    }
}

/// A native collection that counts what is done to it.
struct CountingStack {
    records: Vec<NativeDevice>,
    pops: usize,
    releases: usize,
}

/// Follows the steps of an enumeration against a counting collection, as a
/// caller of the backend would.
fn enumerate(
    status: i32,
    records: Vec<NativeDevice>,
) -> (Result<Vec<PciDevice>, PciEnumerationError>, CountingStack) {
    let mut stack = CountingStack { records, pops: 0, releases: 0 };
    let mut step = after_populate(status, stack.records.len());
    loop {
        match step {
            DrainStep::Pop(draining) => {
                stack.pops += 1;
                let device = stack.records.pop().expect("a record was asked of an empty collection");
                step = draining.after_pop(device, stack.records.len());
            }
            DrainStep::Release(releasing) => {
                stack.releases += 1;
                return (releasing.after_release(), stack);
            }
        }
    }
}

#[test]
fn a_record_is_copied_field_by_field() {
    let device = conv_c_pci_device(record(3, b"Ethernet controller")).unwrap();
    assert_eq!(device.domain, 0x0001_0000);
    assert_eq!(device.bus, 0x12);
    assert_eq!(device.device, 0x1f);
    assert_eq!(device.function, 3);
    assert_eq!(device.label, "Ethernet controller");
    assert_eq!(device.vendor_id, 0x8086);
    assert_eq!(device.device_id, 0x1234);
    assert_eq!(device.subsys_device_id, 0x0042);
    assert_eq!(device.subsys_vendor_id, 0x1ab8);
    assert_eq!(device.class, 0x02);
    assert_eq!(device.subclass, 0x80);
    assert_eq!(device.programming_interface, 0x01);
    assert_eq!(device.revision_id, 0x0a);
}

#[test]
fn a_label_beyond_ascii_is_decoded() {
    let device = conv_c_pci_device(record(0, "Contrôleur réseau \u{2713}".as_bytes())).unwrap();
    assert_eq!(device.label, "Contrôleur réseau \u{2713}");
    let device = conv_c_pci_device(record(0, b"")).unwrap();
    assert_eq!(device.label, "");
}

#[test]
fn a_label_that_is_not_utf8_is_refused() {
    assert!(matches!(
        conv_c_pci_device(record(0, &[0x66, 0x6f, 0xff, 0x6f])),
        Err(PciEnumerationError::ReadError)
    ));
    assert!(matches!(
        conv_c_pci_device(record(0, &[0xc3])),
        Err(PciEnumerationError::ReadError)
    ));
    assert!(matches!(
        conv_c_pci_device(record(0, &[0xed, 0xa0, 0x80])),
        Err(PciEnumerationError::ReadError)
    ));
}

#[test]
fn a_drain_removes_every_record_and_releases_once() {
    for count in 0..6usize {
        let records: Vec<NativeDevice> =
            (0..count).map(|i| record(i as u8, format!("device {}", i).as_bytes())).collect();
        let (outcome, stack) = enumerate(0, records);
        let devices = outcome.unwrap();
        assert_eq!(stack.pops, count);
        assert_eq!(stack.releases, 1);
        assert_eq!(stack.records.len(), 0);
        assert_eq!(devices.len(), count);
    }
}

#[test]
fn an_empty_collection_is_released_without_a_pop() {
    let (outcome, stack) = enumerate(0, Vec::new());
    assert!(outcome.unwrap().is_empty());
    assert_eq!(stack.pops, 0);
    assert_eq!(stack.releases, 1);
}

#[test]
fn a_single_record_is_not_lost() {
    let (outcome, stack) = enumerate(0, vec![record(7, b"only")]);
    let devices = outcome.unwrap();
    assert_eq!(devices.len(), 1);
    assert_eq!(devices[0].function, 7);
    assert_eq!(devices[0].label, "only");
    assert_eq!(stack.pops, 1);
    assert_eq!(stack.releases, 1);
}

#[test]
fn devices_come_in_the_order_of_the_pops() {
    let records = vec![record(0, b"first in"), record(1, b"second in"), record(2, b"last in")];
    let (outcome, _) = enumerate(0, records);
    let devices = outcome.unwrap();
    let functions: Vec<u8> = devices.iter().map(|device| device.function).collect();
    assert_eq!(functions, vec![2, 1, 0]);
    assert_eq!(devices[0].label, "last in");
    assert_eq!(devices[2].label, "first in");
}

#[test]
fn a_failed_populate_is_released_and_mapped() {
    let (outcome, stack) = enumerate(1, vec![record(0, b"partial")]);
    assert!(matches!(outcome, Err(PciEnumerationError::OsError)));
    assert_eq!(stack.pops, 0);
    assert_eq!(stack.releases, 1);
    assert_eq!(stack.records.len(), 1);

    let (outcome, stack) = enumerate(2, Vec::new());
    assert!(matches!(outcome, Err(PciEnumerationError::ReadError)));
    assert_eq!((stack.pops, stack.releases), (0, 1));

    let (outcome, stack) = enumerate(3, Vec::new());
    assert!(matches!(outcome, Err(PciEnumerationError::PermissionDenied)));
    assert_eq!((stack.pops, stack.releases), (0, 1));
}

#[test]
fn an_unknown_status_is_an_os_error() {
    for status in [4, 17, -1, i32::MIN, i32::MAX] {
        let (outcome, stack) = enumerate(status, vec![record(0, b"x"), record(1, b"y")]);
        assert!(matches!(outcome, Err(PciEnumerationError::OsError)));
        assert_eq!((stack.pops, stack.releases), (0, 1));
    }
}

#[test]
fn a_bad_label_fails_the_whole_enumeration() {
    let records = vec![record(0, b"good"), record(1, &[0xff, 0xfe]), record(2, b"good too")];
    let (outcome, stack) = enumerate(0, records);
    assert!(matches!(outcome, Err(PciEnumerationError::ReadError)));
    assert_eq!(stack.pops, 2);
    assert_eq!(stack.releases, 1);
}

#[test]
fn the_first_step_follows_status_and_length() {
    assert!(matches!(after_populate(0, 0), DrainStep::Release(_)));
    assert!(matches!(after_populate(0, 1), DrainStep::Pop(_)));
    assert!(matches!(after_populate(0, usize::MAX), DrainStep::Pop(_)));
    assert!(matches!(after_populate(1, 5), DrainStep::Release(_)));
}

#[test]
fn the_step_after_a_pop_follows_what_is_left() {
    let draining = match after_populate(0, 2) {
        DrainStep::Pop(draining) => draining,
        DrainStep::Release(_) => panic!("a collection of two must be drained"),
    };
    let draining = match draining.after_pop(record(1, b"top"), 1) {
        DrainStep::Pop(draining) => draining,
        DrainStep::Release(_) => panic!("one record is left"),
    };
    match draining.after_pop(record(0, b"bottom"), 0) {
        DrainStep::Pop(_) => panic!("nothing is left"),
        DrainStep::Release(releasing) => {
            let devices = releasing.after_release().unwrap();
            assert_eq!(devices.len(), 2);
            assert_eq!(devices[0].label, "top");
            assert_eq!(devices[1].label, "bottom");
        }
    }
}
