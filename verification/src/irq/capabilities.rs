//! The IRQ capabilities: binding interrupts to programs, acknowledging and
//! releasing them.
//!
//! What the interrupt controller must do for a capability is returned as an
//! `IrqArchOp`, which the platform layer carries out.
use vstd::prelude::*;

use crate::errors::DaedalusCapErrors;
use crate::ipc::capabilities::{DaedalusVm, VmView, vm_handles_fresh};
use crate::irq::gicv2::{GICv2, valid_irq};
use crate::irq::{InterruptPriority, InterruptTrigger, IrqBinding, IrqHandle};
use crate::manifest::{InterruptDeclaration, declares, find_program_interrupt_under_id, same_name};
use crate::program::{StateView, fresh_for};
use crate::values::{Tag, Value, value_kind_name, value_type_name};

verus! {

/// An operation of the interrupt controller that a capability requires.
#[derive(Clone, Copy, Debug, PartialEq, Eq, Structural)]
pub enum IrqArchOp {
    /// Mask the interrupt.
    Mask(u32),
    /// Unmask the interrupt.
    Unmask(u32),
    /// Configure the interrupt with its declared trigger and priority, then
    /// unmask it.
    ConfigureAndUnmask { interrupt_id: u32, trigger: InterruptTrigger, priority: InterruptPriority },
}

/// `binding` is the binding of `program` with the handle `handle`.
pub open spec fn binds(binding: IrqBinding, handle: IrqHandle, program: &'static str) -> bool {
    binding.irq_handle == handle && binding.program@ == program@
}

/// `program` holds a live binding with the handle `handle`.
pub open spec fn holds_irq(irqs: Map<u32, IrqBinding>, handle: IrqHandle, program: &'static str) -> bool {
    exists|id: u32| #[trigger] irqs.contains_key(id) && binds(irqs[id], handle, program)
}

/// An IRQ handle popped from the stack together with the binding it refers
/// to.
#[derive(Clone, Copy, Debug)]
struct IrqInfo {
    /// The interrupt the binding is for.
    interrupt_id: u32,
    /// The live binding.
    binding: IrqBinding,
}

/// The machine with its top value popped.
pub open spec fn popped(vm: VmView) -> VmView {
    VmView { stack: vm.stack.drop_last(), ..vm }
}

/// Searches the bindings for one of the current program with the handle
/// `handle`.
fn find_binding(virtual_machine: &DaedalusVm, handle: IrqHandle) -> (found: Option<(u32, IrqBinding)>)
    ensures
        found is None <==> !holds_irq(
            virtual_machine@.state.irqs,
            handle,
            virtual_machine@.state.current_program,
        ),
        found matches Some(entry) ==> virtual_machine@.state.irqs.get(entry.0) == Some(entry.1)
            && binds(entry.1, handle, virtual_machine@.state.current_program),
{
    let current = virtual_machine.capability_state.current_program;
    let entries = virtual_machine.capability_state.irqs.entries();
    let ghost irqs = virtual_machine@.state.irqs;
    let mut i: usize = 0;
    while i < entries.len()
        invariant
            i <= entries@.len(),
            irqs == virtual_machine@.state.irqs,
            current == virtual_machine@.state.current_program,
            forall|k: int|
                0 <= k < entries@.len() ==> irqs.get(#[trigger] entries@[k].0) == Some(entries@[k].1),
            forall|id: u32|
                #[trigger] irqs.contains_key(id) ==> exists|k: int|
                    0 <= k < entries@.len() && #[trigger] entries@[k].0 == id,
            forall|k: int| 0 <= k < i ==> !binds(#[trigger] entries@[k].1, handle, current),
        decreases entries@.len() - i,
    {
        let (interrupt_id, binding) = entries[i];
        if binding.irq_handle == handle && same_name(binding.program, current) {
            return Some((interrupt_id, binding));
        }
        i = i + 1;
    }
    proof {
        assert forall|id: u32| #[trigger] irqs.contains_key(id) implies !binds(irqs[id], handle, current) by {
            let k = choose|k: int| 0 <= k < entries@.len() && #[trigger] entries@[k].0 == id;
            assert(irqs.get(entries@[k].0) == Some(entries@[k].1));
        }
    }
    None
}

/// Pops an IRQ handle from the stack and finds the live binding of the
/// current program that it refers to.
fn pop_irq_info(virtual_machine: &mut DaedalusVm) -> (info: Result<IrqInfo, DaedalusCapErrors>)
    ensures
        old(virtual_machine)@.stack.len() == 0 ==> {
            &&& info == Err::<IrqInfo, _>(DaedalusCapErrors::StackUnderflowExpectedIrqHandle)
            &&& final(virtual_machine)@ == old(virtual_machine)@
        },
        old(virtual_machine)@.stack.len() > 0 ==> final(virtual_machine)@ == popped(
            old(virtual_machine)@,
        ),
        old(virtual_machine)@.stack.len() > 0 && !(old(virtual_machine)@.stack.last() is Tag) ==> info
            == Err::<IrqInfo, _>(
            DaedalusCapErrors::IrqHandleExpected {
                found_type: value_kind_name(old(virtual_machine)@.stack.last()),
            },
        ),
        old(virtual_machine)@.stack.len() > 0 ==> (old(virtual_machine)@.stack.last() matches Value::Tag(tag) ==> {
            let handle = IrqHandle(tag);
            let state = old(virtual_machine)@.state;
            &&& info is Ok <==> holds_irq(state.irqs, handle, state.current_program)
            &&& info matches Ok(i) ==> state.irqs.get(i.interrupt_id) == Some(i.binding) && binds(
                i.binding,
                handle,
                state.current_program,
            )
            &&& info is Err ==> info == Err::<IrqInfo, _>(
                DaedalusCapErrors::UnknownIrqHandle(handle),
            )
        }),
{
    let value = match virtual_machine.stack.pop() {
        Some(value) => value,
        None => {
            return Err(DaedalusCapErrors::StackUnderflowExpectedIrqHandle);
        },
    };
    let tag = match value {
        Value::Tag(tag) => tag,
        _ => {
            return Err(DaedalusCapErrors::IrqHandleExpected { found_type: value_type_name(&value) });
        },
    };
    let irq_handle = IrqHandle(tag);
    match find_binding(virtual_machine, irq_handle) {
        Some((interrupt_id, binding)) => Ok(IrqInfo { interrupt_id, binding }),
        None => Err(DaedalusCapErrors::UnknownIrqHandle(irq_handle)),
    }
}

/// `is_irq_handle`: consumes the value on top of the stack and pushes
/// whether it is a handle of a live binding of the current program.
///
///     [<top> irq]  ->  [<top> is_irq_handle]
pub fn cap_is_irq_handle(virtual_machine: &mut DaedalusVm) -> (result: Result<(), DaedalusCapErrors>)
    ensures
        old(virtual_machine)@.stack.len() == 0 ==> {
            &&& result == Err::<(), _>(DaedalusCapErrors::StackUnderflowExpectedIrqHandle)
            &&& final(virtual_machine)@ == old(virtual_machine)@
        },
        old(virtual_machine)@.stack.len() > 0 && !(old(virtual_machine)@.stack.last() is Tag) ==> {
            &&& result == Err::<(), _>(
                DaedalusCapErrors::IrqHandleExpected {
                    found_type: value_kind_name(old(virtual_machine)@.stack.last()),
                },
            )
            &&& final(virtual_machine)@ == popped(old(virtual_machine)@)
        },
        old(virtual_machine)@.stack.len() > 0 ==> (old(virtual_machine)@.stack.last() matches Value::Tag(tag) ==> {
            let state = old(virtual_machine)@.state;
            &&& result is Ok
            &&& final(virtual_machine)@ == (VmView {
                stack: old(virtual_machine)@.stack.drop_last().push(
                    Value::Bool(holds_irq(state.irqs, IrqHandle(tag), state.current_program)),
                ),
                ..old(virtual_machine)@
            })
        }),
        vm_handles_fresh(old(virtual_machine)@) ==> vm_handles_fresh(final(virtual_machine)@),
{
    let value = match virtual_machine.stack.pop() {
        Some(value) => value,
        None => {
            return Err(DaedalusCapErrors::StackUnderflowExpectedIrqHandle);
        },
    };
    let tag = match value {
        Value::Tag(tag) => tag,
        _ => {
            return Err(DaedalusCapErrors::IrqHandleExpected { found_type: value_type_name(&value) });
        },
    };
    // Whether a binding with this handle exists for the current program.
    let held = find_binding(virtual_machine, IrqHandle(tag)).is_some();
    virtual_machine.stack.push(Value::Bool(held));
    Ok(())
}

/// `irq_release`: drops the current program's binding referred to by the
/// IRQ handle on top of the stack.
///
///     [<top> irq]  ->  []
///
/// The interrupt is to be masked and its binding is removed, so any
/// program, this one included, may register it again.
pub fn cap_irq_release(virtual_machine: &mut DaedalusVm) -> (result: Result<IrqArchOp, DaedalusCapErrors>)
    ensures
        old(virtual_machine)@.stack.len() == 0 ==> {
            &&& result == Err::<IrqArchOp, _>(DaedalusCapErrors::StackUnderflowExpectedIrqHandle)
            &&& final(virtual_machine)@ == old(virtual_machine)@
        },
        old(virtual_machine)@.stack.len() > 0 && !(old(virtual_machine)@.stack.last() is Tag) ==> {
            &&& result == Err::<IrqArchOp, _>(
                DaedalusCapErrors::IrqHandleExpected {
                    found_type: value_kind_name(old(virtual_machine)@.stack.last()),
                },
            )
            &&& final(virtual_machine)@ == popped(old(virtual_machine)@)
        },
        old(virtual_machine)@.stack.len() > 0 ==> (old(virtual_machine)@.stack.last() matches Value::Tag(tag) ==> {
            let state = old(virtual_machine)@.state;
            &&& result is Ok <==> holds_irq(state.irqs, IrqHandle(tag), state.current_program)
            &&& result is Err ==> result == Err::<IrqArchOp, _>(
                DaedalusCapErrors::UnknownIrqHandle(IrqHandle(tag)),
            ) && final(virtual_machine)@ == popped(old(virtual_machine)@)
            &&& result matches Ok(op) ==> exists|id: u32|
                #![trigger state.irqs.get(id)]
                state.irqs.get(id) matches Some(b) && binds(b, IrqHandle(tag), state.current_program)
                    && op == IrqArchOp::Mask(id) && final(virtual_machine)@ == (VmView {
                    state: StateView { irqs: state.irqs.remove(id), ..state },
                    ..popped(old(virtual_machine)@)
                })
        }),
        vm_handles_fresh(old(virtual_machine)@) ==> vm_handles_fresh(final(virtual_machine)@),
{
    let info = pop_irq_info(virtual_machine)?;
    virtual_machine.capability_state.irqs.remove(info.interrupt_id);
    proof {
        if vm_handles_fresh(old(virtual_machine)@) {
            lemma_remove_keeps_fresh(old(virtual_machine)@, info.interrupt_id);
        }
    }
    Ok(IrqArchOp::Mask(info.interrupt_id))
}

/// `irq_ack`: the interrupt of the current program's binding referred to
/// by the IRQ handle on top of the stack is to be unmasked, so it may fire
/// again.
///
///     [<top> irq]  ->  []
pub fn cap_irq_ack(virtual_machine: &mut DaedalusVm) -> (result: Result<IrqArchOp, DaedalusCapErrors>)
    ensures
        old(virtual_machine)@.stack.len() == 0 ==> {
            &&& result == Err::<IrqArchOp, _>(DaedalusCapErrors::StackUnderflowExpectedIrqHandle)
            &&& final(virtual_machine)@ == old(virtual_machine)@
        },
        old(virtual_machine)@.stack.len() > 0 ==> final(virtual_machine)@ == popped(
            old(virtual_machine)@,
        ),
        old(virtual_machine)@.stack.len() > 0 && !(old(virtual_machine)@.stack.last() is Tag)
            ==> result == Err::<IrqArchOp, _>(
            DaedalusCapErrors::IrqHandleExpected {
                found_type: value_kind_name(old(virtual_machine)@.stack.last()),
            },
        ),
        old(virtual_machine)@.stack.len() > 0 ==> (old(virtual_machine)@.stack.last() matches Value::Tag(tag) ==> {
            let state = old(virtual_machine)@.state;
            &&& result is Ok <==> holds_irq(state.irqs, IrqHandle(tag), state.current_program)
            &&& result is Err ==> result == Err::<IrqArchOp, _>(
                DaedalusCapErrors::UnknownIrqHandle(IrqHandle(tag)),
            )
            &&& result matches Ok(op) ==> exists|id: u32|
                #![trigger state.irqs.get(id)]
                state.irqs.get(id) matches Some(b) && binds(b, IrqHandle(tag), state.current_program)
                    && op == IrqArchOp::Unmask(id)
        }),
        vm_handles_fresh(old(virtual_machine)@) ==> vm_handles_fresh(final(virtual_machine)@),
{
    let info = pop_irq_info(virtual_machine)?;
    Ok(IrqArchOp::Unmask(info.interrupt_id))
}

/// `irq_register`: binds the hardware interrupt whose ID is on top of the
/// stack to the current program and pushes the handle of the binding.
///
///     [<top> interrupt_id]  ->  [<top> irq]
///
/// The ID must be one the interrupt controller can route, the current
/// program's manifest must declare it, and no program may hold it bound.
/// The interrupt is then to be configured as declared and unmasked.
pub fn cap_irq_register(
    virtual_machine: &mut DaedalusVm,
    declarations: &[InterruptDeclaration],
) -> (result: Result<IrqArchOp, DaedalusCapErrors>)
    requires
        old(virtual_machine)@.next_tag < u64::MAX,
    ensures
        old(virtual_machine)@.stack.len() == 0 ==> {
            &&& result == Err::<IrqArchOp, _>(DaedalusCapErrors::StackUnderflowExpectedInterruptId)
            &&& final(virtual_machine)@ == old(virtual_machine)@
        },
        old(virtual_machine)@.stack.len() > 0 && !(old(virtual_machine)@.stack.last() is UInt) ==> {
            &&& result == Err::<IrqArchOp, _>(
                DaedalusCapErrors::InterruptIdExpected {
                    found_type: value_kind_name(old(virtual_machine)@.stack.last()),
                },
            )
            &&& final(virtual_machine)@ == popped(old(virtual_machine)@)
        },
        old(virtual_machine)@.stack.len() > 0 ==> (old(virtual_machine)@.stack.last() matches Value::UInt(raw) ==> {
            let vm = old(virtual_machine)@;
            let current = vm.state.current_program;
            let id = raw as u32;
            &&& raw > u32::MAX || !valid_irq(id) ==> {
                &&& result == Err::<IrqArchOp, _>(
                    DaedalusCapErrors::InvalidInterruptId { raw_interrupt_id: raw },
                )
                &&& final(virtual_machine)@ == popped(vm)
            }
            &&& raw <= u32::MAX && valid_irq(id) && (forall|i: int|
                0 <= i < declarations@.len() ==> !declares(
                    #[trigger] declarations@[i],
                    current@,
                    id,
                )) ==> {
                &&& result == Err::<IrqArchOp, _>(
                    DaedalusCapErrors::InterruptNotDeclared { interrupt_id: id, program: current },
                )
                &&& final(virtual_machine)@ == popped(vm)
            }
            &&& raw <= u32::MAX && valid_irq(id) && (exists|i: int|
                0 <= i < declarations@.len() && declares(#[trigger] declarations@[i], current@, id))
                && vm.state.irqs.contains_key(id) ==> {
                &&& result == Err::<IrqArchOp, _>(
                    DaedalusCapErrors::InterruptAlreadyRegistered {
                        interrupt_id: id,
                        original_program: vm.state.irqs[id].program,
                        new_program: current,
                    },
                )
                &&& final(virtual_machine)@ == popped(vm)
            }
            &&& raw <= u32::MAX && valid_irq(id) && (exists|i: int|
                0 <= i < declarations@.len() && declares(#[trigger] declarations@[i], current@, id))
                && !vm.state.irqs.contains_key(id) ==> {
                let handle = IrqHandle(Tag(vm.next_tag));
                &&& result matches Ok(op) && exists|i: int|
                    0 <= i < declarations@.len() && declares(#[trigger] declarations@[i], current@, id)
                        && (forall|j: int|
                        0 <= j < i ==> !declares(#[trigger] declarations@[j], current@, id))
                        && op == IrqArchOp::ConfigureAndUnmask {
                        interrupt_id: id,
                        trigger: declarations@[i].trigger,
                        priority: declarations@[i].priority,
                    }
                &&& final(virtual_machine)@ == (VmView {
                    stack: vm.stack.drop_last().push(Value::Tag(handle.0)),
                    next_tag: (vm.next_tag + 1) as u64,
                    state: StateView {
                        irqs: vm.state.irqs.insert(id, IrqBinding { program: current, irq_handle: handle }),
                        ..vm.state
                    },
                    ..vm
                })
            }
        }),
        vm_handles_fresh(old(virtual_machine)@) ==> vm_handles_fresh(final(virtual_machine)@),
{
    let value = match virtual_machine.stack.pop() {
        Some(value) => value,
        None => {
            return Err(DaedalusCapErrors::StackUnderflowExpectedInterruptId);
        },
    };
    let raw = match value {
        Value::UInt(raw) => raw,
        _ => {
            return Err(DaedalusCapErrors::InterruptIdExpected { found_type: value_type_name(&value) });
        },
    };
    // The ID must be one the interrupt controller can route.
    if raw > u32::MAX as u64 {
        return Err(DaedalusCapErrors::InvalidInterruptId { raw_interrupt_id: raw });
    }
    let interrupt_id = raw as u32;
    if !GICv2::is_valid_irq_wrapper(interrupt_id) {
        return Err(DaedalusCapErrors::InvalidInterruptId { raw_interrupt_id: raw });
    }
    let current = virtual_machine.capability_state.current_program;
    // The current program must declare it.
    let declaration = match find_program_interrupt_under_id(declarations, current, interrupt_id) {
        Some(declaration) => declaration,
        None => {
            return Err(
                DaedalusCapErrors::InterruptNotDeclared { interrupt_id, program: current },
            );
        },
    };
    // Nobody may hold it bound already.
    if let Some(bound) = virtual_machine.capability_state.irqs.get(interrupt_id) {
        return Err(
            DaedalusCapErrors::InterruptAlreadyRegistered {
                interrupt_id,
                original_program: bound.program,
                new_program: current,
            },
        );
    }
    let irq_handle = IrqHandle(virtual_machine.tagger.allocate_tag());
    virtual_machine.capability_state.irqs.insert(
        interrupt_id,
        IrqBinding { program: current, irq_handle },
    );
    virtual_machine.stack.push(Value::Tag(irq_handle.0));
    proof {
        if vm_handles_fresh(old(virtual_machine)@) {
            lemma_register_keeps_fresh(old(virtual_machine)@, interrupt_id);
        }
    }
    Ok(
        IrqArchOp::ConfigureAndUnmask {
            interrupt_id,
            trigger: declaration.trigger,
            priority: declaration.priority,
        },
    )
}

/// Registering an interrupt for a program under a handle makes that handle
/// one the program holds.
pub proof fn lemma_registered_handle_is_held(
    irqs: Map<u32, IrqBinding>,
    interrupt_id: u32,
    program: &'static str,
    handle: IrqHandle,
)
    ensures
        holds_irq(
            irqs.insert(interrupt_id, IrqBinding { program, irq_handle: handle }),
            handle,
            program,
        ),
{
    let registered = irqs.insert(interrupt_id, IrqBinding { program, irq_handle: handle });
    assert(registered.contains_key(interrupt_id));
}

/// Releasing the only binding of a program under a handle leaves the
/// program holding no binding under that handle.
pub proof fn lemma_released_handle_is_not_held(
    irqs: Map<u32, IrqBinding>,
    interrupt_id: u32,
    program: &'static str,
    handle: IrqHandle,
)
    requires
        forall|id: u32|
            #[trigger] irqs.contains_key(id) && binds(irqs[id], handle, program) ==> id
                == interrupt_id,
    ensures
        !holds_irq(irqs.remove(interrupt_id), handle, program),
{
}

/// Removing a binding keeps the handles fresh.
pub proof fn lemma_remove_keeps_fresh(vm: VmView, interrupt_id: u32)
    requires
        vm_handles_fresh(vm),
    ensures
        vm_handles_fresh(
            VmView { state: StateView { irqs: vm.state.irqs.remove(interrupt_id), ..vm.state }, ..vm },
        ),
{
}

/// The machine after the running program registers `interrupt_id` with the
/// next tag of its generator as the handle, as `cap_irq_register` does.
pub open spec fn registered(vm: VmView, interrupt_id: u32) -> VmView {
    VmView {
        next_tag: (vm.next_tag + 1) as u64,
        state: StateView {
            irqs: vm.state.irqs.insert(
                interrupt_id,
                IrqBinding {
                    program: vm.state.current_program,
                    irq_handle: IrqHandle(Tag(vm.next_tag)),
                },
            ),
            ..vm.state
        },
        ..vm
    }
}

/// Registering an interrupt keeps the handles fresh, and the fresh handle
/// then names that one binding of the running program alone: a release of
/// it removes exactly that binding, giving back the bindings as they were
/// before the registration, after which the handle is no longer held.
pub proof fn lemma_release_after_register(vm: VmView, interrupt_id: u32)
    requires
        vm_handles_fresh(vm),
        vm.next_tag < u64::MAX,
        !vm.state.irqs.contains_key(interrupt_id),
    ensures
        ({
            let handle = IrqHandle(Tag(vm.next_tag));
            let program = vm.state.current_program;
            let after = registered(vm, interrupt_id).state.irqs;
            &&& vm_handles_fresh(registered(vm, interrupt_id))
            &&& holds_irq(after, handle, program)
            &&& forall|id: u32|
                #![trigger after.get(id)]
                after.get(id) matches Some(b) && binds(b, handle, program) ==> id == interrupt_id
                    && after.remove(id) == vm.state.irqs
            &&& !holds_irq(after.remove(interrupt_id), handle, program)
        }),
{
    lemma_register_keeps_fresh(vm, interrupt_id);
    let handle = IrqHandle(Tag(vm.next_tag));
    let program = vm.state.current_program;
    let irqs = vm.state.irqs;
    let after = registered(vm, interrupt_id).state.irqs;
    assert(after.contains_key(interrupt_id));
    assert forall|id: u32|
        #![trigger after.get(id)]
        after.get(id) matches Some(b) && binds(b, handle, program) implies id == interrupt_id
            && after.remove(id) == irqs by {
        if id != interrupt_id {
            assert(irqs.contains_key(id));
        }
        assert(after.remove(interrupt_id) =~= irqs);
    }
    assert(after.remove(interrupt_id) =~= irqs);
}

/// Registering an interrupt keeps the handles fresh: the new handle is the
/// running program's next tag, which its generator then moves past.
pub proof fn lemma_register_keeps_fresh(vm: VmView, interrupt_id: u32)
    requires
        vm_handles_fresh(vm),
        vm.next_tag < u64::MAX,
    ensures
        vm_handles_fresh(registered(vm, interrupt_id)),
{
    let after = registered(vm, interrupt_id);
    assert forall|name: Seq<char>| #[trigger] after.state.programs.contains_key(name) implies fresh_for(
        after.state.irqs,
        name,
        after.state.programs[name].next_tag,
    ) by {
        assert(vm.state.programs.contains_key(name));
        assert(name != vm.state.current_program@);
        assert(fresh_for(vm.state.irqs, name, vm.state.programs[name].next_tag));
    }
}

} // verus!
