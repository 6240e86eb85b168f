//! The run loop's decisions and the report of a crashed program.
use vstd::prelude::*;
use vstd::string::StringExecFns;

use crate::errors::{decimal_chars, push_decimal};
use crate::ipc::capabilities::{DaedalusVm, VmView, vm_handles_fresh};
use crate::irq::pending::PendingInterrupts;
use crate::irq::{routed, send_irqs};

verus! {

/// Where in its source a frame of a stack trace was.
pub struct FrameLocation<'a> {
    /// The index of the file in the image's file table.
    pub file: usize,
    pub line: u32,
    pub column: u32,
    /// The function or item the location lies in.
    pub context: &'a str,
}

/// A frame of the stack trace of a crashed program.
pub struct TraceFrame<'a> {
    pub function_idx: usize,
    pub source_location: Option<FrameLocation<'a>>,
    /// The offset of the instruction within its function.
    pub instruction_offset: usize,
}

/// The name of the file at `index` of the image's file table, if the
/// image has one holding that index.
pub open spec fn file_name(files: Option<Seq<&str>>, index: usize) -> Seq<char> {
    match files {
        Some(names) => if index < names.len() {
            names[index as int]@
        } else {
            "<unknown file>"@
        },
        None => "<unknown file>"@,
    }
}

/// The line of the trace for `frame`.
pub open spec fn frame_text(frame: TraceFrame, files: Option<Seq<&str>>) -> Seq<char> {
    match frame.source_location {
        Some(at) => "  fn["@ + decimal_chars(frame.function_idx as nat) + "] "@ + file_name(
            files,
            at.file,
        ) + ":"@ + decimal_chars(at.line as nat) + ":"@ + decimal_chars(at.column as nat) + " ("@
            + at.context@ + ")\n"@,
        None => "  fn["@ + decimal_chars(frame.function_idx as nat) + "] <no debug info> offset "@
            + decimal_chars(frame.instruction_offset as nat) + "\n"@,
    }
}

/// The lines of the trace for `frames`, in order.
pub open spec fn frames_text(frames: Seq<TraceFrame>, files: Option<Seq<&str>>) -> Seq<char>
    decreases frames.len(),
{
    if frames.len() == 0 {
        Seq::empty()
    } else {
        frames_text(frames.drop_last(), files) + frame_text(frames.last(), files)
    }
}

/// The report of a program that crashed with the error whose debug text
/// is `error`, with the stack trace `frames`.
pub open spec fn crash_report(error: &str, frames: Seq<TraceFrame>, files: Option<Seq<&str>>) -> Seq<
    char,
> {
    "runtime error: "@ + error@ + "\n"@ + "stack trace:\n"@ + frames_text(frames, files)
}

/// The report of a crashed program (see `crash_report`): its error, then
/// a line for each frame of its stack trace, with the file, line, column
/// and context of the frame where the image has them and the instruction
/// offset where it does not.
pub fn crash_report_text(error: &str, frames: &[TraceFrame], files: Option<&[&str]>) -> (text: String)
    ensures
        text@ == crash_report(
            error,
            frames@,
            match files {
                Some(names) => Some(names@),
                None => None,
            },
        ),
{
    let ghost names: Option<Seq<&str>> = match files {
        Some(names) => Some(names@),
        None => None,
    };
    let mut text = String::from_str("runtime error: ");
    text.append(error);
    text.append("\n");
    text.append("stack trace:\n");
    let ghost header = text@;
    let mut i: usize = 0;
    while i < frames.len()
        invariant
            i <= frames@.len(),
            names == (match files {
                Some(names) => Some(names@),
                None => None::<Seq<&str>>,
            }),
            text@ == header + frames_text(frames@.subrange(0, i as int), names),
        decreases frames@.len() - i,
    {
        let frame = &frames[i];
        let ghost before = text@;
        text.append("  fn[");
        push_decimal(&mut text, frame.function_idx as u64);
        match &frame.source_location {
            Some(at) => {
                text.append("] ");
                let name: &str = match files {
                    Some(table) => if at.file < table.len() {
                        table[at.file]
                    } else {
                        "<unknown file>"
                    },
                    None => "<unknown file>",
                };
                text.append(name);
                text.append(":");
                push_decimal(&mut text, at.line as u64);
                text.append(":");
                push_decimal(&mut text, at.column as u64);
                text.append(" (");
                text.append(at.context);
                text.append(")\n");
            },
            None => {
                text.append("] <no debug info> offset ");
                push_decimal(&mut text, frame.instruction_offset as u64);
                text.append("\n");
            },
        }
        proof {
            assert(frames@.subrange(0, i + 1).drop_last() =~= frames@.subrange(0, i as int));
            assert(text@ =~= before + frame_text(frames@[i as int], names));
        }
        i = i + 1;
    }
    proof {
        assert(frames@.subrange(0, frames@.len() as int) =~= frames@);
    }
    text
}

/// One service of the interrupts by the run loop: if any interrupt is
/// pending, every pending one is routed to its program (see `send_irqs`).
/// Returns whether the running program is then to yield, because a
/// program is ready to run, which lowers the latency of the interrupts.
pub fn service_irqs(virtual_machine: &mut DaedalusVm, pending: &mut PendingInterrupts) -> (yield_now:
    bool)
    requires
        old(pending).wf(),
    ensures
        final(pending).wf(),
        final(pending)@ == Seq::<u32>::empty(),
        final(pending).capacity() == old(pending).capacity(),
        final(virtual_machine)@ == (VmView {
            state: routed(old(virtual_machine)@.state, old(pending)@),
            ..old(virtual_machine)@
        }),
        yield_now == (old(pending)@.len() > 0 && final(virtual_machine)@.state.ready_queue.len() > 0),
        vm_handles_fresh(old(virtual_machine)@) ==> vm_handles_fresh(final(virtual_machine)@),
{
    if !pending.pending_any() {
        proof {
            assert(routed(old(virtual_machine)@.state, old(pending)@) == old(virtual_machine)@.state);
        }
        return false;
    }
    send_irqs(virtual_machine, pending);
    virtual_machine.capability_state.ready_queue.len() > 0
}

} // verus!
