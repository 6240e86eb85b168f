//! The argument of the `panic` phase: when `Daedalus` panics, the program
//! of that phase is started in a fresh machine with the panic report as a
//! string value.
use vstd::prelude::*;

use crate::extra_debug::{PanicLocation, panic_report, panic_report_text};
use crate::ipc::capabilities::{alloc_string_value, string_bytes};
use crate::values::{Heap, HeapItemView, Value};

verus! {

/// Pushes the report of a panic with `message` at `location` (see
/// `panic_report`, without highlighting) onto the fresh machine of the
/// panic phase, whose stack is `stack` and whose heap is `heap`, as a
/// string value: the argument of that phase's entry point.
pub fn push_panic_message(
    heap: &mut Heap,
    stack: &mut Vec<Value>,
    message: &str,
    location: Option<PanicLocation>,
)
    requires
        old(heap)@.len() < usize::MAX,
    ensures
        final(stack)@ == old(stack)@.push(Value::Array(old(heap)@.len() as usize)),
        final(heap)@ == old(heap)@.push(
            HeapItemView::Array(
                Seq::new(
                    panic_report(message, location, false).len(),
                    |k: int| Value::UInt(panic_report(message, location, false)[k] as u64),
                ),
            ),
        ),
        string_bytes(final(heap)@, Value::Array(old(heap)@.len() as usize)) == Some(
            panic_report(message, location, false),
        ),
{
    let report = panic_report_text(message, location, false);
    let value = alloc_string_value(heap, report.as_slice());
    stack.push(value);
}

} // verus!
