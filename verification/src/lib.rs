//! Preparation and flash/verify orchestration for a page-oriented USB/HID
//! bootloader: flattening a linked executable's loadable segments into one
//! contiguous binary, padding it to the device's page size, and sequencing the
//! page-write and checksum-verify protocol against a bootloader device.

pub mod checksum;
pub mod flash;
pub mod hex;
pub mod image;
