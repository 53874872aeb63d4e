//! Enumeration of PCI devices: decoding of device attributes, conversion of
//! the records of a native backend, and the error taxonomy that both share.
//!
//! Nothing here touches the operating system. The callers read the files and
//! make the foreign calls; this crate decides what to read or call next and
//! what the outcome amounts to.

pub mod attribute;
pub mod backend;
pub mod facade;
pub mod hex;
pub mod pci;
pub mod render;
