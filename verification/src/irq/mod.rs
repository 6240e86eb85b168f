//! Interrupts: the GICv2 controller encodings, the tracker of pending
//! interrupts and the table binding interrupts to programs.
use vstd::prelude::*;

use crate::ipc::capabilities::{DaedalusVm, VmView, vm_handles_fresh};
use crate::irq::pending::PendingInterrupts;
use crate::manifest::same_name;
use crate::program::{
    CallTag, Message, ProgramState, ProgramView, StateView, after_wake, handles_fresh,
    lemma_insert_keeps_fresh, programs_view, wakes,
};
use crate::tables::program_entries;
use crate::values::{Tag, Value};

pub mod capabilities;
pub mod gicv2;
pub mod pending;

verus! {

/// The tag by which a program refers to one of its interrupt bindings.
#[derive(Clone, Copy, Debug, PartialEq, Eq, Structural, Hash)]
pub struct IrqHandle(pub Tag);

/// A binding of an interrupt to the program that receives it.
#[derive(Clone, Copy, Debug, PartialEq, Eq)]
pub struct IrqBinding {
    /// The program whose inbox receives this interrupt.
    pub program: &'static str,
    /// The handle of this binding in that program's tag space.
    pub irq_handle: IrqHandle,
}

/// How an interrupt line signals: as long as its level is held, or once
/// per edge.
#[derive(Clone, Copy, Debug, PartialEq, Eq, Structural)]
pub enum InterruptTrigger {
    Level,
    Edge,
}

/// The priority of an interrupt, 0 being the highest.
#[derive(Clone, Copy, Debug, PartialEq, Eq, Structural)]
pub struct InterruptPriority(pub u8);


/// The message an interrupt sends to its program: tagged with the
/// binding's handle, carrying the interrupt ID.
pub open spec fn irq_message(binding: IrqBinding, interrupt_id: u32) -> Message {
    Message { tag: Some(CallTag(binding.irq_handle.0)), args: Value::UInt(interrupt_id as u64) }
}

/// The state after routing the interrupt `interrupt_id`: an unbound
/// interrupt is dropped; the message of a bound one goes to the inbox of
/// its program, the running one or an inactive one, which is then woken
/// and queued if it was waiting for a message.
pub open spec fn routed_one(state: StateView, interrupt_id: u32) -> StateView {
    if !state.irqs.contains_key(interrupt_id) {
        state
    } else {
        let binding = state.irqs[interrupt_id];
        let message = irq_message(binding, interrupt_id);
        if binding.program@ == state.current_program@ {
            StateView { inbox: state.inbox.push(message), ..state }
        } else if state.programs.contains_key(binding.program@) {
            let program = state.programs[binding.program@];
            let delivered = ProgramView { inbox: program.inbox.push(message), ..program };
            StateView {
                programs: state.programs.insert(binding.program@, after_wake(delivered)),
                ready_queue: if wakes(delivered) {
                    state.ready_queue.push(binding.program)
                } else {
                    state.ready_queue
                },
                ..state
            }
        } else {
            state
        }
    }
}

/// The state after routing each of the `fired` interrupts in turn.
pub open spec fn routed(state: StateView, fired: Seq<u32>) -> StateView
    decreases fired.len(),
{
    if fired.len() == 0 {
        state
    } else {
        routed_one(routed(state, fired.drop_last()), fired.last())
    }
}

/// Routes the interrupt `interrupt_id` to the program it is bound to.
fn route_interrupt(virtual_machine: &mut DaedalusVm, interrupt_id: u32)
    ensures
        final(virtual_machine)@ == (VmView {
            state: routed_one(old(virtual_machine)@.state, interrupt_id),
            ..old(virtual_machine)@
        }),
{
    // Nobody holds a binding to this interrupt any more, maybe it was
    // released before it was received: it is dropped.
    let binding = match virtual_machine.capability_state.irqs.get(interrupt_id) {
        Some(binding) => binding,
        None => {
            return;
        },
    };
    // The handle first, for the program to match on, then the interrupt ID.
    let message = Message {
        tag: Some(CallTag(binding.irq_handle.0)),
        args: Value::UInt(interrupt_id as u64),
    };
    if same_name(binding.program, virtual_machine.capability_state.current_program) {
        virtual_machine.capability_state.inbox.push_back(message);
    } else if virtual_machine.capability_state.programs.contains_key(binding.program) {
        let ghost before = program_entries(virtual_machine.capability_state.programs);
        let mut program = virtual_machine.capability_state.programs.remove(binding.program).unwrap();
        program.inbox.push_back(message);
        let ghost delivered = program@;
        let woken = program.wake_recv();
        virtual_machine.capability_state.programs.insert(binding.program, program);
        if woken {
            virtual_machine.capability_state.ready_queue.push_back(binding.program);
        }
        proof {
            assert(delivered == (ProgramView {
                inbox: before[binding.program@]@.inbox.push(message),
                ..before[binding.program@]@
            }));
            assert(programs_view(virtual_machine.capability_state.programs) =~= programs_view(
                old(virtual_machine).capability_state.programs,
            ).insert(binding.program@, after_wake(delivered)));
        }
    }
}

/// Routes every pending interrupt, oldest first, to the inbox of the
/// program it is bound to (see `routed`), and clears the pending tracker.
///
/// This runs in the normal context, with the interrupts disabled around
/// the drain of the tracker.
pub fn send_irqs(virtual_machine: &mut DaedalusVm, pending: &mut PendingInterrupts)
    requires
        old(pending).wf(),
    ensures
        final(pending).wf(),
        final(pending)@ == Seq::<u32>::empty(),
        final(pending).capacity() == old(pending).capacity(),
        final(virtual_machine)@ == (VmView {
            state: routed(old(virtual_machine)@.state, old(pending)@),
            ..old(virtual_machine)@
        }),
        vm_handles_fresh(old(virtual_machine)@) ==> vm_handles_fresh(final(virtual_machine)@),
{
    proof {
        if vm_handles_fresh(old(virtual_machine)@) {
            lemma_routed_keeps_fresh(
                old(virtual_machine)@.state,
                old(pending)@,
                old(virtual_machine)@.next_tag,
            );
        }
    }
    if !pending.pending_any() {
        proof {
            assert(routed(old(virtual_machine)@.state, old(pending)@) == old(virtual_machine)@.state);
        }
        return;
    }
    // Take all the fired interrupt IDs out of the tracker.
    let capacity = pending.slot_count();
    let mut fired: Vec<u32> = Vec::new();
    let mut k: usize = 0;
    while k < capacity
        invariant
            k <= capacity,
            fired@.len() == k,
        decreases capacity - k,
    {
        fired.push(0);
        k = k + 1;
    }
    let ghost to_route = pending@;
    let num_fired = pending.drain_pending_into_buf(&mut fired);
    let mut i: usize = 0;
    while i < num_fired
        invariant
            i <= num_fired,
            num_fired == to_route.len(),
            num_fired <= fired@.len(),
            fired@.subrange(0, num_fired as int) == to_route,
            virtual_machine@ == (VmView {
                state: routed(old(virtual_machine)@.state, to_route.subrange(0, i as int)),
                ..old(virtual_machine)@
            }),
        decreases num_fired - i,
    {
        proof {
            assert(fired@[i as int] == to_route[i as int]) by {
                assert(fired@.subrange(0, num_fired as int)[i as int] == fired@[i as int]);
            }
            assert(to_route.subrange(0, i + 1).drop_last() =~= to_route.subrange(0, i as int));
        }
        route_interrupt(virtual_machine, fired[i]);
        i = i + 1;
    }
    proof {
        assert(to_route.subrange(0, num_fired as int) =~= to_route);
    }
}

/// An interrupt bound to an inactive program that waits in `recv` with an
/// empty inbox wakes it: the interrupt ID on top of the binding's handle as
/// the call tag, on which the program matches; it is ready and queued.
pub proof fn lemma_interrupt_wakes_waiting_program(state: StateView, interrupt_id: u32)
    requires
        state.irqs.contains_key(interrupt_id),
        state.irqs[interrupt_id].program@ != state.current_program@,
        state.programs.contains_key(state.irqs[interrupt_id].program@),
        state.programs[state.irqs[interrupt_id].program@].state == ProgramState::BlockedOnRecv,
        state.programs[state.irqs[interrupt_id].program@].inbox.len() == 0,
    ensures
        ({
            let binding = state.irqs[interrupt_id];
            let before = state.programs[binding.program@];
            let after = routed_one(state, interrupt_id);
            let woken = after.programs[binding.program@];
            &&& woken.state == ProgramState::Ready
            &&& woken.stack == before.stack.push(Value::Tag(binding.irq_handle.0)).push(
                Value::UInt(interrupt_id as u64),
            )
            &&& woken.inbox.len() == 0
            &&& after.ready_queue == state.ready_queue.push(binding.program)
            &&& after.inbox == state.inbox
        }),
{
    let binding = state.irqs[interrupt_id];
    let program = state.programs[binding.program@];
    let delivered_inbox = program.inbox.push(irq_message(binding, interrupt_id));
    assert(delivered_inbox.drop_first() =~= Seq::<Message>::empty());
}

/// Routing an interrupt keeps the handles fresh: no tag generator moves.
pub proof fn lemma_route_keeps_fresh(state: StateView, interrupt_id: u32, running_next_tag: u64)
    requires
        handles_fresh(state, running_next_tag),
    ensures
        handles_fresh(routed_one(state, interrupt_id), running_next_tag),
{
    if state.irqs.contains_key(interrupt_id) {
        let binding = state.irqs[interrupt_id];
        if binding.program@ != state.current_program@ && state.programs.contains_key(
            binding.program@,
        ) {
            let program = state.programs[binding.program@];
            let delivered = ProgramView {
                inbox: program.inbox.push(irq_message(binding, interrupt_id)),
                ..program
            };
            lemma_insert_keeps_fresh(
                state,
                running_next_tag,
                binding.program@,
                after_wake(delivered),
            );
            let moved = StateView {
                programs: state.programs.insert(binding.program@, after_wake(delivered)),
                ..state
            };
            assert(handles_fresh(moved, running_next_tag));
        }
    }
}

/// Routing interrupts keeps the handles fresh.
pub proof fn lemma_routed_keeps_fresh(state: StateView, fired: Seq<u32>, running_next_tag: u64)
    requires
        handles_fresh(state, running_next_tag),
    ensures
        handles_fresh(routed(state, fired), running_next_tag),
    decreases fired.len(),
{
    if fired.len() > 0 {
        lemma_routed_keeps_fresh(state, fired.drop_last(), running_next_tag);
        lemma_route_keeps_fresh(routed(state, fired.drop_last()), fired.last(), running_next_tag);
    }
}

/// The message an interrupt brings its program, written out: the
/// binding's handle as the call tag and the interrupt ID as the payload.
pub open spec fn interrupt_message(handle: IrqHandle, interrupt_id: u32) -> Message {
    Message { tag: Some(CallTag(handle.0)), args: Value::UInt(interrupt_id as u64) }
}

/// The stack value that carries a message's call tag: the tag itself, or
/// `Unit` for a message that cannot be replied to.
pub open spec fn tag_on_stack(tag: Option<CallTag>) -> Value {
    match tag {
        Some(t) => Value::Tag(t.0),
        None => Value::Unit,
    }
}

/// An interrupt that no binding holds is dropped: routing it changes
/// nothing.
pub proof fn lemma_unbound_interrupt_is_dropped(state: StateView, interrupt_id: u32)
    requires
        !state.irqs.contains_key(interrupt_id),
    ensures
        routed_one(state, interrupt_id) == state,
{
}

/// An interrupt bound to the running program goes to the end of the running
/// program's inbox, tagged with the binding's handle and carrying the
/// interrupt ID; nothing else changes.
pub proof fn lemma_interrupt_reaches_running_program(state: StateView, interrupt_id: u32)
    requires
        state.irqs.contains_key(interrupt_id),
        state.irqs[interrupt_id].program@ == state.current_program@,
    ensures
        routed_one(state, interrupt_id) == (StateView {
            inbox: state.inbox.push(
                interrupt_message(state.irqs[interrupt_id].irq_handle, interrupt_id),
            ),
            ..state
        }),
{
}

/// An interrupt bound to an inactive program, whatever that program's
/// state, goes to the end of that program's inbox, tagged with the
/// binding's handle and carrying the interrupt ID. A program waiting in
/// `recv` then takes the oldest message of its inbox onto its stack (the
/// call tag under the payload), becomes ready and is queued; any other
/// program keeps its stack and state and is not queued. The running
/// program's inbox and every other inactive program are left as they were.
pub proof fn lemma_interrupt_reaches_inactive_program(state: StateView, interrupt_id: u32)
    requires
        state.irqs.contains_key(interrupt_id),
        state.irqs[interrupt_id].program@ != state.current_program@,
        state.programs.contains_key(state.irqs[interrupt_id].program@),
    ensures
        ({
            let binding = state.irqs[interrupt_id];
            let name = binding.program@;
            let before = state.programs[name];
            let pushed = before.inbox.push(interrupt_message(binding.irq_handle, interrupt_id));
            let after = routed_one(state, interrupt_id);
            let program = after.programs[name];
            &&& after.programs.contains_key(name)
            &&& after.programs.remove(name) == state.programs.remove(name)
            &&& after.inbox == state.inbox
            &&& after.irqs == state.irqs
            &&& after.current_program == state.current_program
            &&& program.name == before.name
            &&& program.heap == before.heap
            &&& program.next_tag == before.next_tag
            &&& before.state != ProgramState::BlockedOnRecv ==> {
                &&& program.inbox == pushed
                &&& program.stack == before.stack
                &&& program.state == before.state
                &&& after.ready_queue == state.ready_queue
            }
            &&& before.state == ProgramState::BlockedOnRecv ==> {
                &&& program.inbox == pushed.drop_first()
                &&& program.stack == before.stack.push(tag_on_stack(pushed[0].tag)).push(
                    pushed[0].args,
                )
                &&& program.state == ProgramState::Ready
                &&& after.ready_queue == state.ready_queue.push(binding.program)
            }
        }),
{
    let binding = state.irqs[interrupt_id];
    let name = binding.program@;
    let after = routed_one(state, interrupt_id);
    assert(after.programs.remove(name) =~= state.programs.remove(name));
}

/// Routing interrupts one after another: routing the fired interrupts and
/// then one more is routing that one last, so the older interrupts reach
/// their programs first.
pub proof fn lemma_routing_follows_firing_order(state: StateView, fired: Seq<u32>, last: u32)
    ensures
        routed(state, fired.push(last)) == routed_one(routed(state, fired), last),
{
    assert(fired.push(last).drop_last() =~= fired);
}

/// Routing never changes which program runs, nor any binding.
pub proof fn lemma_routing_keeps_bindings(state: StateView, fired: Seq<u32>)
    ensures
        routed(state, fired).irqs == state.irqs,
        routed(state, fired).current_program == state.current_program,
    decreases fired.len(),
{
    if fired.len() > 0 {
        lemma_routing_keeps_bindings(state, fired.drop_last());
    }
}

/// Interrupts that are all bound to the running program reach its inbox in
/// the order they fired, each as the message of its binding, after the
/// messages that were already there; no inactive program is touched.
pub proof fn lemma_interrupts_to_running_program_keep_order(state: StateView, fired: Seq<u32>)
    requires
        forall|k: int|
            0 <= k < fired.len() ==> state.irqs.contains_key(#[trigger] fired[k])
                && state.irqs[fired[k]].program@ == state.current_program@,
    ensures
        routed(state, fired).inbox == state.inbox + Seq::new(
            fired.len(),
            |k: int| interrupt_message(state.irqs[fired[k]].irq_handle, fired[k]),
        ),
        routed(state, fired).programs == state.programs,
        routed(state, fired).ready_queue == state.ready_queue,
    decreases fired.len(),
{
    if fired.len() > 0 {
        let earlier = fired.drop_last();
        assert forall|k: int| 0 <= k < earlier.len() implies state.irqs.contains_key(
            #[trigger] earlier[k],
        ) && state.irqs[earlier[k]].program@ == state.current_program@ by {
            assert(earlier[k] == fired[k]);
        }
        lemma_interrupts_to_running_program_keep_order(state, earlier);
        lemma_routing_keeps_bindings(state, earlier);
        let mid = routed(state, earlier);
        assert(fired.last() == fired[fired.len() - 1]);
        lemma_interrupt_reaches_running_program(mid, fired.last());
        assert(routed(state, fired).inbox =~= state.inbox + Seq::new(
            fired.len(),
            |k: int| interrupt_message(state.irqs[fired[k]].irq_handle, fired[k]),
        ));
    }
}

} // verus!
