//! Network-facing value types of the runtime.

pub mod fec;
pub mod mac_addr;
pub mod restserver;

use vstd::prelude::*;

verus! {

pub const MAC_ADDR_SIZE: usize = 6;

} // verus!
