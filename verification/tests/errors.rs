use libpci_rs::hex::HexDecodeError;
use libpci_rs::pci::{
    classified_io_error, error_from_code, i32_to_pci_error, IoErrorClass, NativeStatus, PciEnumerationError,
};
use std::io::{Error, ErrorKind};

#[test]
fn test_i32_to_pci_error() {
    assert_eq!(i32_to_pci_error(0).unwrap(), NativeStatus::Success);
}

#[test]
fn every_known_code_has_its_status() {
    assert_eq!(i32_to_pci_error(1), Some(NativeStatus::OsError));
    assert_eq!(i32_to_pci_error(2), Some(NativeStatus::ReadError));
    assert_eq!(i32_to_pci_error(3), Some(NativeStatus::PermissionError));
}

#[test]
fn unknown_codes_have_no_status() {
    assert_eq!(i32_to_pci_error(4), None);
    assert_eq!(i32_to_pci_error(-1), None);
    assert_eq!(i32_to_pci_error(i32::MAX), None);
    assert_eq!(i32_to_pci_error(i32::MIN), None);
}

#[test]
fn statuses_map_through_the_table() {
    assert!(matches!(
        PciEnumerationError::from(NativeStatus::Success),
        PciEnumerationError::Success
    ));
    assert!(matches!(
        PciEnumerationError::from(NativeStatus::OsError),
        PciEnumerationError::OsError
    ));
    assert!(matches!(
        PciEnumerationError::from(NativeStatus::ReadError),
        PciEnumerationError::ReadError
    ));
    assert!(matches!(
        PciEnumerationError::from(NativeStatus::PermissionError),
        PciEnumerationError::PermissionDenied
    ));
}

#[test]
fn a_missing_file_is_not_found() {
    let failure = Error::new(ErrorKind::NotFound, "no such file");
    assert!(matches!(PciEnumerationError::from(failure), PciEnumerationError::NotFound));
}

#[test]
fn a_refused_access_is_permission_denied() {
    let failure = Error::new(ErrorKind::PermissionDenied, "refused");
    assert!(matches!(
        PciEnumerationError::from(failure),
        PciEnumerationError::PermissionDenied
    ));
}

#[test]
fn any_other_io_failure_is_wrapped_as_it_is() {
    let failure = Error::new(ErrorKind::TimedOut, "too slow");
    match PciEnumerationError::from(failure) {
        PciEnumerationError::GenericIoError(cause) => {
            assert_eq!(cause.kind(), ErrorKind::TimedOut);
            assert_eq!(cause.to_string(), "too slow");
        }
        other => panic!("expected a generic I/O error, got {:?}", other),
    }
    let failure = Error::new(ErrorKind::InvalidData, "garbled");
    match PciEnumerationError::from(failure) {
        PciEnumerationError::GenericIoError(cause) => {
            assert_eq!(cause.kind(), ErrorKind::InvalidData);
        }
        other => panic!("expected a generic I/O error, got {:?}", other),
    }
}

#[test]
fn a_parse_failure_is_wrapped() {
    assert!(matches!(
        PciEnumerationError::from(HexDecodeError::Empty),
        PciEnumerationError::ParseInt(HexDecodeError::Empty)
    ));
    assert!(matches!(
        PciEnumerationError::from(HexDecodeError::InvalidDigit),
        PciEnumerationError::ParseInt(HexDecodeError::InvalidDigit)
    ));
    assert!(matches!(
        PciEnumerationError::from(HexDecodeError::Overflow),
        PciEnumerationError::ParseInt(HexDecodeError::Overflow)
    ));
}

#[test]
fn a_failure_of_known_class_is_reported_by_its_class() {
    let cause = || Error::new(ErrorKind::Other, "cause");
    assert!(matches!(
        classified_io_error(IoErrorClass::NotFound, cause()),
        PciEnumerationError::NotFound
    ));
    assert!(matches!(
        classified_io_error(IoErrorClass::PermissionDenied, cause()),
        PciEnumerationError::PermissionDenied
    ));
    match classified_io_error(IoErrorClass::Other, Error::new(ErrorKind::NotFound, "kept")) {
        PciEnumerationError::GenericIoError(kept) => assert_eq!(kept.to_string(), "kept"),
        other => panic!("expected a generic I/O error, got {:?}", other),
    }
}

#[test]
fn raw_codes_map_through_the_table() {
    assert!(matches!(error_from_code(0), PciEnumerationError::Success));
    assert!(matches!(error_from_code(1), PciEnumerationError::OsError));
    assert!(matches!(error_from_code(2), PciEnumerationError::ReadError));
    assert!(matches!(error_from_code(3), PciEnumerationError::PermissionDenied));
}

#[test]
fn an_unknown_code_falls_back_to_an_os_error() {
    for code in [4, 5, 100, -1, -3, i32::MIN, i32::MAX] {
        assert!(matches!(error_from_code(code), PciEnumerationError::OsError));
    }
}
