use daedalus_caps::extra_debug::PanicLocation;
use daedalus_caps::ipc::capabilities::{string_value_bytes, DaedalusVm};
use daedalus_caps::irq::capabilities::cap_irq_register;
use daedalus_caps::irq::pending::PendingInterrupts;
use daedalus_caps::irq::{InterruptPriority, InterruptTrigger};
use daedalus_caps::manifest::{InterruptDeclaration, Phase};
use daedalus_caps::panic_debug::push_panic_message;
use daedalus_caps::program::{push_entry_argument, DaedalusState, InactiveProgram, ProgramState};
use daedalus_caps::run::{crash_report_text, service_irqs, FrameLocation, TraceFrame};
use daedalus_caps::values::{Heap, HeapItem, TagGenerator, Value};

#[test]
fn crash_report_lists_frames() {
    let frames = [
        TraceFrame {
            function_idx: 3,
            source_location: Some(FrameLocation { file: 1, line: 10, column: 4, context: "main" }),
            instruction_offset: 7,
        },
        TraceFrame {
            function_idx: 12,
            source_location: Some(FrameLocation { file: 5, line: 2, column: 1, context: "helper" }),
            instruction_offset: 0,
        },
        TraceFrame { function_idx: 0, source_location: None, instruction_offset: 42 },
    ];
    let files = ["a.b3", "main.b3"];
    let text = crash_report_text("StackUnderflow", &frames, Some(&files));
    assert_eq!(
        text,
        "runtime error: StackUnderflow\nstack trace:\n  fn[3] main.b3:10:4 (main)\n  fn[12] <unknown file>:2:1 (helper)\n  fn[0] <no debug info> offset 42\n"
    );
    let text = crash_report_text("E", &frames[..1], None);
    assert_eq!(text, "runtime error: E\nstack trace:\n  fn[3] <unknown file>:10:4 (main)\n");
}

#[test]
fn panic_message_becomes_entry_argument() {
    let mut heap = Heap::new();
    let mut stack = vec![];
    push_panic_message(
        &mut heap,
        &mut stack,
        "bad",
        Some(PanicLocation { file: "x.rs", line: 1, column: 2 }),
    );
    assert_eq!(stack, vec![Value::Array(0)]);
    let bytes = string_value_bytes(&stack[0], &heap).unwrap();
    let text = String::from_utf8(bytes).unwrap();
    assert!(text.contains("Message: bad\n\nLocation: x.rs:1:2\n"));
    assert!(!text.contains('\x1b'));
}

#[test]
fn entry_argument_is_migrated_or_dropped() {
    let mut arg_heap = Heap::new();
    arg_heap.alloc_raw(HeapItem::Array(vec![Value::UInt(104), Value::UInt(105)]));
    let mut stack = vec![];
    let mut heap = Heap::new();
    assert_eq!(push_entry_argument(0, Value::Array(0), &mut arg_heap, &mut stack, &mut heap), 0);
    assert!(stack.is_empty());
    assert_eq!(heap.len(), 0);

    heap.alloc_raw(HeapItem::Array(vec![]));
    assert_eq!(push_entry_argument(1, Value::Array(0), &mut arg_heap, &mut stack, &mut heap), 1);
    assert_eq!(stack, vec![Value::Array(1)]);
    assert_eq!(string_value_bytes(&stack[0], &heap), Some(b"hi".to_vec()));
    assert_eq!(arg_heap.len(), 1);
}

#[test]
fn service_yields_when_interrupt_wakes_a_program() {
    let declarations = [InterruptDeclaration {
        program: "netd",
        interrupt_id: 40,
        trigger: InterruptTrigger::Level,
        priority: InterruptPriority(0),
    }];
    let mut vm = DaedalusVm {
        stack: vec![],
        heap: Heap::new(),
        tagger: TagGenerator::new(),
        capability_state: DaedalusState::new(
            Phase { name: "net", program: "netd", next: "end" },
            &[],
        ),
    };
    let mut pending = PendingInterrupts::new(2);
    assert!(!service_irqs(&mut vm, &mut pending));

    vm.stack.push(Value::UInt(40));
    cap_irq_register(&mut vm, &declarations).unwrap();
    vm.stack.clear();
    // The running program is interrupted: it keeps running.
    pending.record_pending_interrupt(40);
    assert!(!service_irqs(&mut vm, &mut pending));
    assert_eq!(vm.capability_state.inbox.len(), 1);

    // Now the bound program is blocked elsewhere: it is woken and the
    // running program yields to it.
    let mut netd =
        InactiveProgram::from_initial_machine("netd", vec![], Heap::new(), TagGenerator::new(), &[]);
    netd.state = ProgramState::BlockedOnRecv;
    vm.capability_state.current_program = "loader";
    vm.capability_state.admit_program("netd", netd);
    vm.capability_state.ready_queue.clear();
    pending.record_pending_interrupt(40);
    assert!(service_irqs(&mut vm, &mut pending));
    assert_eq!(vm.capability_state.ready_queue, vec!["netd"]);
    assert!(!pending.pending_any());
}
