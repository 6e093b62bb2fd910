//! The firmware archive's manifest, version 0.

use vstd::prelude::*;

verus! {

#[derive(Debug)]
pub struct ManifestV0 {
    pub firmware: Firmware,
}

#[derive(Debug)]
pub struct Firmware {
    pub version: String,
    pub images: Vec<FirmwareImage>,
}

/// An image of the archive and the flash address it is written to.
#[derive(Debug)]
pub struct FirmwareImage {
    pub addr: u32,
    pub name: String,
}

} // verus!
