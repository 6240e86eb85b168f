use daedalus_caps::errors::DaedalusCapErrors;
use daedalus_caps::ipc::capabilities::{alloc_string_value, DaedalusVm};
use daedalus_caps::irq::capabilities::{
    cap_irq_ack, cap_irq_register, cap_irq_release, cap_is_irq_handle, IrqArchOp,
};
use daedalus_caps::irq::pending::PendingInterrupts;
use daedalus_caps::irq::{send_irqs, InterruptPriority, InterruptTrigger, IrqHandle};
use daedalus_caps::manifest::{InterruptDeclaration, Phase};
use daedalus_caps::memory::capabilities::cap_mem_grant;
use daedalus_caps::program::{MintedGrant, CallTag, DaedalusState, InactiveProgram, Message, ProgramState};
use daedalus_caps::values::{Heap, Tag, TagGenerator, Value};
use daedalus_caps::memory::{
    DaedalusExtent, Region, RegionHandle, RegionMemKind, RegionPermissions,
};

const BOOT: Phase = Phase { name: "boot", program: "netd", next: "end" };

const DECLARATIONS: [InterruptDeclaration; 2] = [
    InterruptDeclaration {
        program: "netd",
        interrupt_id: 40,
        trigger: InterruptTrigger::Level,
        priority: InterruptPriority(0xa0),
    },
    InterruptDeclaration {
        program: "uartd",
        interrupt_id: 53,
        trigger: InterruptTrigger::Edge,
        priority: InterruptPriority(0x20),
    },
];

fn vm() -> DaedalusVm {
    DaedalusVm {
        stack: vec![],
        heap: Heap::new(),
        tagger: TagGenerator::new(),
        capability_state: DaedalusState::new(BOOT, &[grant("uart", 77)]),
    }
}

fn grant(role: &'static str, tag: u64) -> MintedGrant {
    let region = Region::new(
        0x8000_0000,
        0x1000,
        RegionPermissions::r(),
        RegionMemKind::Device,
        DaedalusExtent { start: 0, end: 0 },
    )
    .unwrap();
    MintedGrant { role, handle: RegionHandle(Tag(tag)), region }
}

#[test]
fn register_binds_declared_interrupt() {
    let mut machine = vm();
    machine.tagger.next = 3;
    machine.stack.push(Value::UInt(40));
    let op = cap_irq_register(&mut machine, &DECLARATIONS);
    assert_eq!(
        op,
        Ok(IrqArchOp::ConfigureAndUnmask {
            interrupt_id: 40,
            trigger: InterruptTrigger::Level,
            priority: InterruptPriority(0xa0),
        })
    );
    assert_eq!(machine.stack, vec![Value::Tag(Tag(3))]);
    assert_eq!(machine.tagger.next, 4);
}

#[test]
fn register_errors() {
    let mut machine = vm();
    assert_eq!(
        cap_irq_register(&mut machine, &DECLARATIONS),
        Err(DaedalusCapErrors::StackUnderflowExpectedInterruptId)
    );
    machine.stack.push(Value::Int(40));
    assert_eq!(
        cap_irq_register(&mut machine, &DECLARATIONS),
        Err(DaedalusCapErrors::InterruptIdExpected { found_type: "int" })
    );
    machine.stack.push(Value::UInt(1 << 40));
    assert_eq!(
        cap_irq_register(&mut machine, &DECLARATIONS),
        Err(DaedalusCapErrors::InvalidInterruptId { raw_interrupt_id: 1 << 40 })
    );
    machine.stack.push(Value::UInt(1023));
    assert_eq!(
        cap_irq_register(&mut machine, &DECLARATIONS),
        Err(DaedalusCapErrors::InvalidInterruptId { raw_interrupt_id: 1023 })
    );
    machine.stack.push(Value::UInt(53));
    assert_eq!(
        cap_irq_register(&mut machine, &DECLARATIONS),
        Err(DaedalusCapErrors::InterruptNotDeclared { interrupt_id: 53, program: "netd" })
    );
    assert!(machine.stack.is_empty());
    machine.stack.push(Value::UInt(40));
    assert!(cap_irq_register(&mut machine, &DECLARATIONS).is_ok());
    machine.stack.clear();
    machine.stack.push(Value::UInt(40));
    assert_eq!(
        cap_irq_register(&mut machine, &DECLARATIONS),
        Err(DaedalusCapErrors::InterruptAlreadyRegistered {
            interrupt_id: 40,
            original_program: "netd",
            new_program: "netd",
        })
    );
    assert!(machine.stack.is_empty());
}

#[test]
fn registered_handle_is_held_until_released() {
    let mut machine = vm();
    machine.stack.push(Value::UInt(40));
    cap_irq_register(&mut machine, &DECLARATIONS).unwrap();
    let handle = machine.stack[0];
    machine.stack.push(handle);
    assert_eq!(cap_is_irq_handle(&mut machine), Ok(()));
    assert_eq!(machine.stack, vec![handle, Value::Bool(true)]);
    machine.stack.clear();

    machine.stack.push(handle);
    assert_eq!(cap_irq_ack(&mut machine), Ok(IrqArchOp::Unmask(40)));
    assert!(machine.stack.is_empty());

    machine.stack.push(handle);
    assert_eq!(cap_irq_release(&mut machine), Ok(IrqArchOp::Mask(40)));
    assert!(machine.stack.is_empty());

    machine.stack.push(handle);
    assert_eq!(cap_is_irq_handle(&mut machine), Ok(()));
    assert_eq!(machine.stack, vec![Value::Bool(false)]);
    machine.stack.clear();

    machine.stack.push(handle);
    assert_eq!(cap_irq_ack(&mut machine), Err(DaedalusCapErrors::UnknownIrqHandle(IrqHandle(Tag(0)))));
    machine.stack.push(handle);
    assert_eq!(
        cap_irq_release(&mut machine),
        Err(DaedalusCapErrors::UnknownIrqHandle(IrqHandle(Tag(0))))
    );

    // Released, the interrupt can be registered again.
    machine.stack.push(Value::UInt(40));
    assert!(cap_irq_register(&mut machine, &DECLARATIONS).is_ok());
}

#[test]
fn handle_caps_reject_empty_stack_and_non_tags() {
    let mut machine = vm();
    assert_eq!(cap_is_irq_handle(&mut machine), Err(DaedalusCapErrors::StackUnderflowExpectedIrqHandle));
    assert_eq!(cap_irq_ack(&mut machine), Err(DaedalusCapErrors::StackUnderflowExpectedIrqHandle));
    assert_eq!(cap_irq_release(&mut machine), Err(DaedalusCapErrors::StackUnderflowExpectedIrqHandle));
    machine.stack.push(Value::Bool(true));
    assert_eq!(
        cap_is_irq_handle(&mut machine),
        Err(DaedalusCapErrors::IrqHandleExpected { found_type: "bool" })
    );
    machine.stack.push(Value::UInt(1));
    assert_eq!(cap_irq_ack(&mut machine), Err(DaedalusCapErrors::IrqHandleExpected { found_type: "uint" }));
    machine.stack.push(Value::Unit);
    assert_eq!(
        cap_irq_release(&mut machine),
        Err(DaedalusCapErrors::IrqHandleExpected { found_type: "unit" })
    );
    assert!(machine.stack.is_empty());
}

#[test]
fn pending_interrupts_are_routed_to_bound_programs() {
    let mut machine = vm();
    machine.stack.push(Value::UInt(40));
    cap_irq_register(&mut machine, &DECLARATIONS).unwrap();
    machine.stack.clear();

    let mut pending = PendingInterrupts::new(4);
    pending.record_pending_interrupt(40);
    pending.record_pending_interrupt(41);
    send_irqs(&mut machine, &mut pending);
    assert!(!pending.pending_any());
    // The bound interrupt reaches the running program; the unbound one is
    // dropped.
    assert_eq!(machine.capability_state.inbox.len(), 1);
    assert_eq!(
        machine.capability_state.inbox[0],
        Message { tag: Some(CallTag(Tag(0))), args: Value::UInt(40) }
    );
}

#[test]
fn interrupt_wakes_inactive_receiver() {
    let mut machine = vm();
    machine.stack.push(Value::UInt(40));
    cap_irq_register(&mut machine, &DECLARATIONS).unwrap();
    machine.stack.clear();
    // The binding's program stops running and blocks on `recv`.
    let mut netd = InactiveProgram::from_initial_machine(
        "netd",
        vec![],
        Heap::new(),
        TagGenerator::new(),
        &[],
    );
    netd.state = ProgramState::BlockedOnRecv;
    machine.capability_state.current_program = "loader";
    machine.capability_state.admit_program("netd", netd);
    machine.capability_state.ready_queue.clear();

    let mut pending = PendingInterrupts::new(2);
    pending.record_pending_interrupt(40);
    send_irqs(&mut machine, &mut pending);
    assert!(machine.capability_state.inbox.is_empty());
    assert_eq!(machine.capability_state.ready_queue, vec!["netd"]);
    let netd = machine.capability_state.inactive_program("netd").unwrap();
    assert_eq!(netd.state, ProgramState::Ready);
    assert_eq!(netd.stack, vec![Value::Tag(Tag(0)), Value::UInt(40)]);
}

#[test]
fn mem_grant_pushes_granted_region() {
    let mut machine = vm();
    let role = alloc_string_value(&mut machine.heap, b"uart");
    machine.stack.push(role);
    assert_eq!(cap_mem_grant(&mut machine), Ok(()));
    assert_eq!(machine.stack, vec![Value::Tag(Tag(77))]);
}

#[test]
fn mem_grant_errors() {
    let mut machine = vm();
    assert_eq!(cap_mem_grant(&mut machine), Err(DaedalusCapErrors::StackUnderflowExpectedGrantRole));
    let role = alloc_string_value(&mut machine.heap, b"ram");
    machine.stack.push(role);
    assert_eq!(
        cap_mem_grant(&mut machine),
        Err(DaedalusCapErrors::CouldNotFindGrantRole { looked_up_role: "ram".to_string() })
    );
    machine.stack.push(Value::UInt(3));
    assert_eq!(cap_mem_grant(&mut machine), Err(DaedalusCapErrors::GrantRoleExpected));
    let bad = alloc_string_value(&mut machine.heap, &[0xc3]);
    machine.stack.push(bad);
    assert_eq!(cap_mem_grant(&mut machine), Err(DaedalusCapErrors::GrantRoleExpected));
    assert!(machine.stack.is_empty());
}
