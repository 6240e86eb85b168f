//! Verified core of the `Daedalus` micro-bootloader capabilities.
//!
//! The library holds the logic behind the capabilities that `Daedalus`
//! offers to its boot programs: memory regions and accesses, the GICv2
//! interrupt controller encodings, the pending-interrupt tracker, the IRQ
//! binding table, program inboxes and the migration of heap values between
//! program heaps, together with the text that `Daedalus` reports: its
//! debug banners, its error messages and the report of a crashed program.
use vstd::prelude::*;

pub mod errors;
pub mod memory;
pub mod program;
pub mod extra_debug;
pub mod ipc;
pub mod irq;
pub mod manifest;
pub mod values;
pub mod tables;
pub mod migrate;
pub mod run;
pub mod panic_debug;

verus! {

} // verus!
