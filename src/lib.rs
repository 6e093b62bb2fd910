//! Host-side driver for the Tangara serial console: the binary frame codec,
//! the line/frame demultiplexer, the prompt-synchronised command exchange and
//! the small value types that ride on top of it.

pub mod frame;
pub mod protocol;
pub mod console;
pub mod connection;
pub mod theme;
pub mod decimal;
pub mod settings;
pub mod info;
pub mod manifest;
pub mod firmware;
pub mod device;

use vstd::prelude::*;

verus! {

/// `std::io::Error`, carried opaquely by the I/O variants of the error types.
#[verifier::external_type_specification]
#[verifier::external_body]
pub struct ExIoError(std::io::Error);

} // verus!
