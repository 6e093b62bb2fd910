//! A firmware archive read into memory: its manifest and its images.

use vstd::prelude::*;
use crate::manifest::ManifestV0;

verus! {

/// Images of this many bytes or more are refused.
pub const MAX_IMAGE_SIZE: usize = 32 * 1024 * 1024;

/// The manifest version this library understands.
pub const MANIFEST_VERSION: usize = 0;

#[derive(Debug)]
pub struct Image {
    pub name: String,
    pub addr: u32,
    pub data: Vec<u8>,
}

pub struct Firmware {
    path: String,
    manifest: ManifestV0,
    images: Vec<Image>,
}

/// Whether a manifest of this version can be read: newer ones cannot.
pub fn supports_manifest_version(version: usize) -> (r: bool)
    ensures
        r == (version <= MANIFEST_VERSION),
{
    version <= MANIFEST_VERSION
}

/// The size to read for an image the archive says has `size` bytes, if it
/// is under the limit.
pub fn image_size(size: u64) -> (r: Option<usize>)
    ensures
        r == (if size < MAX_IMAGE_SIZE {
            Some(size as usize)
        } else {
            None
        }),
{
    if size < MAX_IMAGE_SIZE as u64 {
        Some(size as usize)
    } else {
        None
    }
}

impl Firmware {
    pub closed spec fn path_view(&self) -> Seq<char> {
        self.path@
    }

    pub closed spec fn version_view(&self) -> Seq<char> {
        self.manifest.firmware.version@
    }

    pub closed spec fn images_view(&self) -> Seq<Image> {
        self.images@
    }

    pub fn new(path: String, manifest: ManifestV0, images: Vec<Image>) -> (r: Firmware)
        ensures
            r.path_view() == path@,
            r.version_view() == manifest.firmware.version@,
            r.images_view() == images@,
    {
        Firmware { path, manifest, images }
    }

    /// Where the archive was read from.
    pub fn path(&self) -> (r: &str)
        ensures
            r@ == self.path_view(),
    {
        self.path.as_str()
    }

    /// The firmware version the manifest names.
    pub fn version(&self) -> (r: &str)
        ensures
            r@ == self.version_view(),
    {
        self.manifest.firmware.version.as_str()
    }

    /// The images, in manifest order.
    pub fn images(&self) -> (r: &[Image])
        ensures
            r@ == self.images_view(),
    {
        self.images.as_slice()
    }
}

} // verus!
