//! The device record and the error taxonomy of an enumeration.

use crate::hex::HexDecodeError;
use vstd::prelude::*;

verus! {

/// One PCI device of an enumeration snapshot: its bus address, a label and
/// its identification and classification fields. A record is built once and
/// never changed.
#[derive(Debug, Clone)]
pub struct PciDevice {
    pub domain: u32,
    pub bus: u8,
    pub device: u8,
    pub function: u8,
    pub label: String,
    pub vendor_id: u16,
    pub device_id: u16,
    pub subsys_device_id: u16,
    pub subsys_vendor_id: u16,
    pub class: u8,
    pub subclass: u8,
    pub programming_interface: u8,
    pub revision_id: u8,
}

/// The mathematical content of a [`PciDevice`]: the label is its sequence of
/// characters, every other field is itself.
pub struct PciDeviceView {
    pub domain: u32,
    pub bus: u8,
    pub device: u8,
    pub function: u8,
    pub label: Seq<char>,
    pub vendor_id: u16,
    pub device_id: u16,
    pub subsys_device_id: u16,
    pub subsys_vendor_id: u16,
    pub class: u8,
    pub subclass: u8,
    pub programming_interface: u8,
    pub revision_id: u8,
}

impl View for PciDevice {
    type V = PciDeviceView;

    open spec fn view(&self) -> PciDeviceView {
        PciDeviceView {
            domain: self.domain,
            bus: self.bus,
            device: self.device,
            function: self.function,
            label: self.label@,
            vendor_id: self.vendor_id,
            device_id: self.device_id,
            subsys_device_id: self.subsys_device_id,
            subsys_vendor_id: self.subsys_vendor_id,
            class: self.class,
            subclass: self.subclass,
            programming_interface: self.programming_interface,
            revision_id: self.revision_id,
        }
    }
}

/// The contents of a list of devices, in order.
pub open spec fn device_views(devices: Seq<PciDevice>) -> Seq<PciDeviceView> {
    devices.map_values(|device: PciDevice| device@)
}

/// The status that the native backend reports for a call.
#[derive(Debug, Clone, Copy, PartialEq, Eq, Structural)]
pub enum NativeStatus {
    Success,
    OsError,
    ReadError,
    PermissionError,
}

/// Code of [`NativeStatus::Success`].
pub const STATUS_SUCCESS: i32 = 0;

/// Code of [`NativeStatus::OsError`].
pub const STATUS_OS_ERROR: i32 = 1;

/// Code of [`NativeStatus::ReadError`].
pub const STATUS_READ_ERROR: i32 = 2;

/// Code of [`NativeStatus::PermissionError`].
pub const STATUS_PERMISSION_ERROR: i32 = 3;

/// The status that a raw code stands for, if it is one of the known codes.
pub open spec fn status_of_code(code: int) -> Option<NativeStatus> {
    if code == STATUS_SUCCESS {
        Some(NativeStatus::Success)
    } else if code == STATUS_OS_ERROR {
        Some(NativeStatus::OsError)
    } else if code == STATUS_READ_ERROR {
        Some(NativeStatus::ReadError)
    } else if code == STATUS_PERMISSION_ERROR {
        Some(NativeStatus::PermissionError)
    } else {
        None
    }
}

/// Reads a raw status code through the table of known codes. A code that
/// the table does not hold gives `None`, whatever later versions of the
/// backend may add.
pub fn i32_to_pci_error(num: i32) -> (status: Option<NativeStatus>)
    ensures
        status == status_of_code(num as int),
{
    if num == STATUS_SUCCESS {
        Some(NativeStatus::Success)
    } else if num == STATUS_OS_ERROR {
        Some(NativeStatus::OsError)
    } else if num == STATUS_READ_ERROR {
        Some(NativeStatus::ReadError)
    } else if num == STATUS_PERMISSION_ERROR {
        Some(NativeStatus::PermissionError)
    } else {
        None
    }
}

/// What an I/O failure is taken for: the two kinds that have an error of
/// their own, and all the others.
#[derive(Debug, Clone, Copy, PartialEq, Eq, Structural)]
pub enum IoErrorClass {
    NotFound,
    PermissionDenied,
    Other,
}

/// `std::io::Error`, carried through as a value that is not looked into.
#[verifier::external_type_specification]
#[verifier::external_body]
pub struct ExIoError(std::io::Error);

/// The class of the kind that `std::io::Error::kind` reports for `error`.
pub uninterp spec fn io_error_class(error: std::io::Error) -> IoErrorClass;

/// Calls `std::io::Error::kind` and sorts the kind into its class:
/// `ErrorKind::NotFound` and `ErrorKind::PermissionDenied` each into the class
/// of that name, every other kind into `Other`. The contract only names the
/// outcome; that the kind of an error never changes is what is taken on trust.
#[verifier::external_body]
fn classify_io_error(error: &std::io::Error) -> (class: IoErrorClass)
    ensures
        class == io_error_class(*error),
{
    match error.kind() {
        std::io::ErrorKind::NotFound => IoErrorClass::NotFound,
        std::io::ErrorKind::PermissionDenied => IoErrorClass::PermissionDenied,
        _ => IoErrorClass::Other,
    }
}

/// Every way in which an enumeration can fail.
#[derive(Debug)]
pub enum PciEnumerationError {
    /// The native backend reported success. No enumeration returns this as
    /// its error; it exists so that every status has an image.
    Success,
    /// The native backend met a failure of the operating system that it does
    /// not describe further.
    OsError,
    /// An I/O failure that is neither a missing file nor a refused access.
    GenericIoError(std::io::Error),
    /// The listing of a device directory failed.
    ReadDirectory,
    /// The native backend could not read a source that it needs.
    ReadError,
    /// A file that the enumeration needs does not exist.
    NotFound,
    /// Access to a file that the enumeration needs was refused.
    PermissionDenied,
    /// The text of an attribute is not a number of the attribute's width.
    ParseInt(HexDecodeError),
}

/// The fixed table from a status of the native backend to its error.
pub open spec fn error_of_status(status: NativeStatus) -> PciEnumerationError {
    match status {
        NativeStatus::Success => PciEnumerationError::Success,
        NativeStatus::OsError => PciEnumerationError::OsError,
        NativeStatus::ReadError => PciEnumerationError::ReadError,
        NativeStatus::PermissionError => PciEnumerationError::PermissionDenied,
    }
}

/// The error that an I/O failure of a given class is reported as: a
/// missing file and a refused access each have an error of their own, any
/// other failure is wrapped as it is.
pub open spec fn error_of_class(class: IoErrorClass, err: std::io::Error) -> PciEnumerationError {
    match class {
        IoErrorClass::NotFound => PciEnumerationError::NotFound,
        IoErrorClass::PermissionDenied => PciEnumerationError::PermissionDenied,
        IoErrorClass::Other => PciEnumerationError::GenericIoError(err),
    }
}

/// The error that an I/O failure is reported as.
pub open spec fn error_of_io(err: std::io::Error) -> PciEnumerationError {
    error_of_class(io_error_class(err), err)
}

/// Reports an I/O failure whose class is known.
pub fn classified_io_error(class: IoErrorClass, err: std::io::Error) -> (error:
    PciEnumerationError)
    ensures
        error == error_of_class(class, err),
{
    match class {
        IoErrorClass::NotFound => PciEnumerationError::NotFound,
        IoErrorClass::PermissionDenied => PciEnumerationError::PermissionDenied,
        IoErrorClass::Other => PciEnumerationError::GenericIoError(err),
    }
}

impl From<NativeStatus> for PciEnumerationError {
    fn from(err: NativeStatus) -> (error: Self) {
        match err {
            NativeStatus::Success => PciEnumerationError::Success,
            NativeStatus::OsError => PciEnumerationError::OsError,
            NativeStatus::ReadError => PciEnumerationError::ReadError,
            NativeStatus::PermissionError => PciEnumerationError::PermissionDenied,
        }
    }
}

impl vstd::std_specs::convert::FromSpecImpl<NativeStatus> for PciEnumerationError {
    open spec fn obeys_from_spec() -> bool {
        true
    }

    open spec fn from_spec(err: NativeStatus) -> Self {
        error_of_status(err)
    }
}

impl From<std::io::Error> for PciEnumerationError {
    fn from(err: std::io::Error) -> (error: Self) {
        let class = classify_io_error(&err);
        classified_io_error(class, err)
    }
}

impl vstd::std_specs::convert::FromSpecImpl<std::io::Error> for PciEnumerationError {
    open spec fn obeys_from_spec() -> bool {
        true
    }

    open spec fn from_spec(err: std::io::Error) -> Self {
        error_of_io(err)
    }
}

impl From<HexDecodeError> for PciEnumerationError {
    fn from(err: HexDecodeError) -> (error: Self) {
        PciEnumerationError::ParseInt(err)
    }
}

impl vstd::std_specs::convert::FromSpecImpl<HexDecodeError> for PciEnumerationError {
    open spec fn obeys_from_spec() -> bool {
        true
    }

    open spec fn from_spec(err: HexDecodeError) -> Self {
        PciEnumerationError::ParseInt(err)
    }
}

/// The error that stands for a raw status code of the native backend: the
/// image of its status where the code is known, and the unspecific
/// [`PciEnumerationError::OsError`] where it is not.
pub open spec fn error_of_code(code: int) -> PciEnumerationError {
    match status_of_code(code) {
        Some(status) => error_of_status(status),
        None => PciEnumerationError::OsError,
    }
}

/// Maps a raw status code of the native backend to its error. A code that
/// the table of statuses does not hold is reported as
/// [`PciEnumerationError::OsError`].
pub fn error_from_code(code: i32) -> (error: PciEnumerationError)
    ensures
        error == error_of_code(code as int),
{
    match i32_to_pci_error(code) {
        Some(status) => PciEnumerationError::from(status),
        None => PciEnumerationError::OsError,
    }
}

} // verus!
