//! A table-driven CRC-16/MODBUS checksum with a proof that it agrees with the
//! bit-at-a-time definition, a validating hexadecimal front end, and a timing
//! harness that runs the engine repeatedly.
use vstd::prelude::*;

pub mod crc;
pub mod hex;
pub mod bench;

verus! {

} // verus!
