//! Core of a realtime software middleware: components are registered with a
//! scheduler, instantiated as tasks with bounded two-class message queues, and
//! driven by messages, timer expiries and socket readiness events.

pub mod alg;
pub mod common;
pub mod net_ext;
pub mod rsm;

use vstd::prelude::*;

verus! {

/// Round a queue length up to the next power of two, as the bounded queues do.
pub open spec fn spec_pow2(e: nat) -> nat
    decreases e,
{
    if e == 0 {
        1
    } else {
        2 * spec_pow2((e - 1) as nat)
    }
}

} // verus!
