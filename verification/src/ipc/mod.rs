//! Inter-program communication: the virtual machine the capabilities act
//! on and the advance of the boot phases.
use vstd::prelude::*;

pub mod capabilities;

verus! {

} // verus!
