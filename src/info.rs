//! What the device reports about its firmware and its database.

use vstd::prelude::*;
use vstd::string::StringExecFns;
use crate::decimal::{decimal_string, parse_u64, u64_to_string, unsigned_decimal};

verus! {

#[derive(Debug)]
pub struct Info {
    pub firmware: Firmware,
    pub database: Database,
}

#[derive(Debug)]
pub struct Firmware {
    pub version: String,
    pub samd: String,
    pub collation: String,
}

#[derive(Debug)]
pub struct Database {
    pub schema_version: String,
    pub disk_size: Option<u64>,
}

/// The `u64` that decimal text denotes, if it denotes one.
pub open spec fn u64_of(s: Seq<char>) -> Option<u64> {
    match unsigned_decimal(s) {
        Some(v) => if v <= u64::MAX {
            Some(v as u64)
        } else {
            None
        },
        None => None,
    }
}

impl Info {
    /// Assembles the report from the device's answers; a database size that
    /// is not a decimal `u64` is left unknown.
    pub fn from_outputs(
        version: String,
        samd: String,
        collation: String,
        schema_version: String,
        size: &str,
    ) -> (r: Info)
        ensures
            r.firmware.version@ == version@,
            r.firmware.samd@ == samd@,
            r.firmware.collation@ == collation@,
            r.database.schema_version@ == schema_version@,
            r.database.disk_size == u64_of(size@),
    {
        Info {
            firmware: Firmware { version, samd, collation },
            database: Database { schema_version, disk_size: parse_u64(size) },
        }
    }
}

/// A byte count in the largest binary unit under which it stays below 1024,
/// rounded down.
pub open spec fn size_text(bytes: u64) -> Seq<char> {
    let b = bytes as int;
    if b < 1024 {
        decimal_string(b) + " b"@
    } else if b / 1024 < 1024 {
        decimal_string(b / 1024) + " KiB"@
    } else if b / 1048576 < 1024 {
        decimal_string(b / 1048576) + " MiB"@
    } else {
        decimal_string(b / 1073741824) + " GiB"@
    }
}

/// How a database size is shown.
pub fn render_size(bytes: u64) -> (r: String)
    ensures
        r@ == size_text(bytes),
{
    if bytes < 1024 {
        let mut s = u64_to_string(bytes);
        s.append(" b");
        return s;
    }
    let kib = bytes / 1024;
    if kib < 1024 {
        let mut s = u64_to_string(kib);
        s.append(" KiB");
        return s;
    }
    let mib = kib / 1024;
    assert(mib as int == bytes as int / 1048576) by (nonlinear_arith)
        requires
            kib == bytes / 1024,
            mib == kib / 1024,
    ;
    if mib < 1024 {
        let mut s = u64_to_string(mib);
        s.append(" MiB");
        return s;
    }
    let gib = mib / 1024;
    assert(gib as int == bytes as int / 1073741824) by (nonlinear_arith)
        requires
            mib as int == bytes as int / 1048576,
            gib == mib / 1024,
    ;
    let mut s = u64_to_string(gib);
    s.append(" GiB");
    s
}

} // verus!
