//! Reading one attribute of a device from an attribute tree.
//!
//! A device is a directory, an attribute a file in it that holds a
//! hexadecimal number as text. The files are not read here: this module says
//! which file to read, and what the outcome of the read amounts to.

use crate::hex::{
    decode_hex, ox_hex_string_to_u16, ox_hex_string_to_u32, ox_hex_string_to_u8, MAX_U16, MAX_U32,
    MAX_U8,
};
use crate::pci::{error_of_io, PciEnumerationError};
use vstd::prelude::*;
use vstd::string::StringExecFns;

verus! {

/// What the read of an attribute amounts to among the numbers up to `max`:
/// a failed read gives the error of its failure, a text that does not decode
/// gives the reason wrapped as a parse error, any other text gives its
/// number.
pub open spec fn attribute_value(contents: Result<String, std::io::Error>, max: nat) -> Result<
    nat,
    PciEnumerationError,
> {
    match contents {
        Err(failure) => Err(error_of_io(failure)),
        Ok(text) => match decode_hex(text@, max) {
            Ok(value) => Ok(value),
            Err(reason) => Err(PciEnumerationError::ParseInt(reason)),
        },
    }
}

/// The file that holds `attribute` of the device whose directory the
/// listing gave as `dir`. Where the listing of that directory failed there
/// is no file to read, whatever the attribute: the answer is
/// [`PciEnumerationError::ReadDirectory`], and the failure of the listing is
/// not looked at.
pub fn attribute_path(dir: &Result<String, std::io::Error>, attribute: &str) -> (result: Result<
    String,
    PciEnumerationError,
>)
    ensures
        match result {
            Ok(path) => dir matches Ok(directory) && path@ == directory@ + seq!['/'] + attribute@,
            Err(error) => dir is Err && error == PciEnumerationError::ReadDirectory,
        },
{
    match dir {
        Ok(directory) => {
            let mut path = directory.clone();
            proof {
                reveal_strlit("/");
            }
            path.append("/");
            path.append(attribute);
            Ok(path)
        },
        Err(_) => Err(PciEnumerationError::ReadDirectory),
    }
}

/// The value of an 8-bit attribute, given the outcome of reading its file.
pub fn get_pci_device_attribute_u8(contents: Result<String, std::io::Error>) -> (result: Result<
    u8,
    PciEnumerationError,
>)
    ensures
        match result {
            Ok(value) => attribute_value(contents, MAX_U8 as nat) == Ok::<nat, PciEnumerationError>(
                value as nat,
            ),
            Err(error) => attribute_value(contents, MAX_U8 as nat) == Err::<
                nat,
                PciEnumerationError,
            >(error),
        },
{
    match contents {
        Err(failure) => Err(PciEnumerationError::from(failure)),
        Ok(text) => match ox_hex_string_to_u8(text.as_str()) {
            Ok(value) => Ok(value),
            Err(reason) => Err(PciEnumerationError::from(reason)),
        },
    }
}

/// The value of a 16-bit attribute, given the outcome of reading its file.
pub fn get_pci_device_attribute_u16(contents: Result<String, std::io::Error>) -> (result: Result<
    u16,
    PciEnumerationError,
>)
    ensures
        match result {
            Ok(value) => attribute_value(contents, MAX_U16 as nat) == Ok::<
                nat,
                PciEnumerationError,
            >(value as nat),
            Err(error) => attribute_value(contents, MAX_U16 as nat) == Err::<
                nat,
                PciEnumerationError,
            >(error),
        },
{
    match contents {
        Err(failure) => Err(PciEnumerationError::from(failure)),
        Ok(text) => match ox_hex_string_to_u16(text.as_str()) {
            Ok(value) => Ok(value),
            Err(reason) => Err(PciEnumerationError::from(reason)),
        },
    }
}

/// The value of a 32-bit attribute, given the outcome of reading its file.
pub fn get_pci_device_attribute_u32(contents: Result<String, std::io::Error>) -> (result: Result<
    u32,
    PciEnumerationError,
>)
    ensures
        match result {
            Ok(value) => attribute_value(contents, MAX_U32 as nat) == Ok::<
                nat,
                PciEnumerationError,
            >(value as nat),
            Err(error) => attribute_value(contents, MAX_U32 as nat) == Err::<
                nat,
                PciEnumerationError,
            >(error),
        },
{
    match contents {
        Err(failure) => Err(PciEnumerationError::from(failure)),
        Ok(text) => match ox_hex_string_to_u32(text.as_str()) {
            Ok(value) => Ok(value),
            Err(reason) => Err(PciEnumerationError::from(reason)),
        },
    }
}

} // verus!
