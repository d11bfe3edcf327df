//! Network addresses as plain values.

use vstd::prelude::*;

verus! {

/// An IP address, by the number that its octets make (most significant
/// first).
#[derive(Debug, Clone, Copy, PartialEq, Eq, Structural)]
pub enum Ip {
    V4(u32),
    V6(u128),
}

/// 127.0.0.1
pub const LOCALHOST: u32 = 0x7f00_0001;

/// 0.0.0.0
pub const UNSPECIFIED: u32 = 0;

} // verus!
