//! How a Tangara is recognised among the serial ports.

use vstd::prelude::*;
use vstd::string::StringSliceAdditionalSpecFns;
use vstd::utf8::encode_utf8;

verus! {

/// USB vendor id (Cool Tech Zone).
pub const USB_VID: u16 = 4617;

/// USB product id (Tangara).
pub const USB_PID: u16 = 8212;

pub fn is_tangara_usb(vid: u16, pid: u16) -> (r: bool)
    ensures
        r == (vid == USB_VID && pid == USB_PID),
{
    vid == USB_VID && pid == USB_PID
}

/// Prefix of a Tangara's entry under `/dev/serial/by-id`.
pub open spec fn by_id_prefix() -> Seq<u8> {
    encode_utf8("usb-cool_tech_zone_Tangara_"@)
}

/// Whether a `/dev/serial/by-id` entry name is a Tangara's.
pub fn is_tangara_by_id_name(name: &str) -> (r: bool)
    ensures
        r == (name.spec_bytes().len() >= by_id_prefix().len() && name.spec_bytes().subrange(
            0,
            by_id_prefix().len() as int,
        ) == by_id_prefix()),
{
    let prefix = "usb-cool_tech_zone_Tangara_".as_bytes();
    let bytes = name.as_bytes();
    if bytes.len() < prefix.len() {
        return false;
    }
    let mut i: usize = 0;
    while i < prefix.len()
        invariant
            prefix@ == by_id_prefix(),
            bytes@ == name.spec_bytes(),
            prefix@.len() <= bytes@.len(),
            i <= prefix@.len(),
            bytes@.subrange(0, i as int) == prefix@.subrange(0, i as int),
        decreases prefix@.len() - i,
    {
        if bytes[i] != prefix[i] {
            assert(bytes@.subrange(0, prefix@.len() as int)[i as int] != prefix@[i as int]);
            return false;
        }
        i = i + 1;
        assert(bytes@.subrange(0, i as int) =~= prefix@.subrange(0, i as int));
    }
    assert(prefix@.subrange(0, i as int) =~= prefix@);
    true
}

} // verus!
