use daedalus_caps::ipc::capabilities::{DaedalusVm, ProgramSwappable};
use daedalus_caps::manifest::Phase;
use daedalus_caps::program::{
    CallTag, DaedalusState, InactiveProgram, MakeReady, Message, MintedGrant, ProgramState,
};
use daedalus_caps::values::{Heap, HeapItem, Tag, TagGenerator, Value};
use daedalus_caps::memory::{
    DaedalusExtent, Region, RegionHandle, RegionMemKind, RegionPermissions,
};

const BOOT: Phase = Phase { name: "boot", program: "loader", next: "run" };

fn program(name: &'static str) -> InactiveProgram {
    InactiveProgram::from_initial_machine(name, vec![], Heap::new(), TagGenerator::new(), &[])
}

fn grant(role: &'static str, tag: u64) -> MintedGrant {
    let region = Region::new(
        0x8000_0000,
        0x1000,
        RegionPermissions::r(),
        RegionMemKind::Device,
        DaedalusExtent { start: 0, end: 0 },
    )
    .unwrap();
    MintedGrant { role, handle: RegionHandle(Tag(tag)), region }
}

#[test]
fn deliver_pushes_tag_then_payload() {
    let mut stack = vec![Value::Int(-1)];
    Message { tag: Some(CallTag(Tag(7))), args: Value::UInt(3) }.deliver_onto(&mut stack);
    assert_eq!(stack, vec![Value::Int(-1), Value::Tag(Tag(7)), Value::UInt(3)]);
}

#[test]
fn deliver_notification_pushes_unit_tag() {
    let mut stack = vec![];
    Message { tag: None, args: Value::Bool(true) }.deliver_onto(&mut stack);
    assert_eq!(stack, vec![Value::Unit, Value::Bool(true)]);
}

#[test]
fn initial_program_is_ready_with_its_grants() {
    let mut tagger = TagGenerator::new();
    tagger.next = 5;
    let p = InactiveProgram::from_initial_machine(
        "net",
        vec![Value::UInt(1)],
        Heap::new(),
        tagger,
        &[grant("uart", 1), grant("ram", 2)],
    );
    assert_eq!(p.name, "net");
    assert_eq!(p.state, ProgramState::Ready);
    assert_eq!(p.stack, vec![Value::UInt(1)]);
    assert_eq!(p.tagger.next, 5);
    assert!(p.inbox.is_empty());
}

#[test]
fn wake_recv_delivers_oldest_message() {
    let mut p = program("net");
    p.state = ProgramState::BlockedOnRecv;
    p.inbox.push_back(Message { tag: Some(CallTag(Tag(4))), args: Value::UInt(10) });
    p.inbox.push_back(Message { tag: None, args: Value::UInt(11) });
    assert!(p.wake_recv());
    assert_eq!(p.state, ProgramState::Ready);
    assert_eq!(p.stack, vec![Value::Tag(Tag(4)), Value::UInt(10)]);
    assert_eq!(p.inbox.len(), 1);
    assert_eq!(p.inbox[0], Message { tag: None, args: Value::UInt(11) });
}

#[test]
fn wake_recv_without_message_does_nothing() {
    let mut p = program("net");
    p.state = ProgramState::BlockedOnRecv;
    assert!(!p.wake_recv());
    assert_eq!(p.state, ProgramState::BlockedOnRecv);
    assert!(p.stack.is_empty());
}

#[test]
fn wake_recv_of_program_not_receiving_does_nothing() {
    let mut p = program("net");
    p.state = ProgramState::BlockedOnReply { tag: CallTag(Tag(2)) };
    p.inbox.push_back(Message { tag: None, args: Value::Unit });
    assert!(!p.wake_recv());
    assert_eq!(p.state, ProgramState::BlockedOnReply { tag: CallTag(Tag(2)) });
    assert_eq!(p.inbox.len(), 1);
    assert!(p.stack.is_empty());
}

#[test]
fn new_state_runs_the_phase_program() {
    let state = DaedalusState::new(BOOT, &[grant("uart", 3)]);
    assert_eq!(state.current_phase, BOOT);
    assert_eq!(state.current_program, "loader");
    assert!(state.inbox.is_empty());
    assert!(state.ready_queue.is_empty());
    assert!(state.inactive_program("loader").is_none());
}

#[test]
fn make_ready_of_unknown_program_asks_for_spawn() {
    let mut state = DaedalusState::new(BOOT, &[]);
    assert_eq!(state.make_ready("net"), MakeReady::Spawn);
    assert!(state.ready_queue.is_empty());
    assert!(state.inactive_program("net").is_none());
}

#[test]
fn admitted_program_is_queued() {
    let mut state = DaedalusState::new(BOOT, &[]);
    state.admit_program("net", program("net"));
    assert_eq!(state.ready_queue, vec!["net"]);
    assert_eq!(state.inactive_program("net").unwrap().name, "net");
}

#[test]
fn make_ready_wakes_program_blocked_on_recv() {
    let mut state = DaedalusState::new(BOOT, &[]);
    let mut p = program("net");
    p.state = ProgramState::BlockedOnRecv;
    state.admit_program("net", p);
    state.ready_queue.clear();
    assert_eq!(state.make_ready("net"), MakeReady::Present);
    assert_eq!(state.ready_queue, vec!["net"]);
    let p = state.inactive_program("net").unwrap();
    assert_eq!(p.state, ProgramState::Ready);
    assert_eq!(p.stack, vec![Value::Unit, Value::Unit]);
    assert!(p.inbox.is_empty());
}

#[test]
fn make_ready_notifies_program_blocked_on_reply() {
    let mut state = DaedalusState::new(BOOT, &[]);
    let mut p = program("net");
    p.state = ProgramState::BlockedOnReply { tag: CallTag(Tag(9)) };
    state.admit_program("net", p);
    state.ready_queue.clear();
    assert_eq!(state.make_ready("net"), MakeReady::Present);
    assert!(state.ready_queue.is_empty());
    let p = state.inactive_program("net").unwrap();
    assert_eq!(p.state, ProgramState::BlockedOnReply { tag: CallTag(Tag(9)) });
    assert_eq!(p.inbox.len(), 1);
    assert_eq!(p.inbox[0], Message { tag: None, args: Value::Unit });
}

#[test]
fn make_ready_leaves_ready_program_alone() {
    let mut state = DaedalusState::new(BOOT, &[]);
    state.admit_program("net", program("net"));
    assert_eq!(state.make_ready("net"), MakeReady::Present);
    assert_eq!(state.ready_queue, vec!["net"]);
    let p = state.inactive_program("net").unwrap();
    assert_eq!(p.state, ProgramState::Ready);
    assert!(p.inbox.is_empty());
}

#[test]
fn swap_exchanges_running_program() {
    let mut heap = Heap::new();
    heap.alloc_raw(HeapItem::Array(vec![Value::UInt(1)]));
    let mut vm = DaedalusVm {
        stack: vec![Value::Int(5)],
        heap,
        tagger: TagGenerator::new(),
        capability_state: DaedalusState::new(BOOT, &[]),
    };
    vm.capability_state.inbox.push_back(Message { tag: None, args: Value::Unit });
    let mut tagger = TagGenerator::new();
    tagger.next = 40;
    let incoming =
        InactiveProgram::from_initial_machine("net", vec![Value::Bool(false)], Heap::new(), tagger, &[]);
    let previous = vm.swap(incoming, ProgramState::BlockedOnRecv);
    assert_eq!(previous.name, "loader");
    assert_eq!(previous.state, ProgramState::BlockedOnRecv);
    assert_eq!(previous.stack, vec![Value::Int(5)]);
    assert_eq!(previous.heap.len(), 1);
    assert_eq!(previous.inbox.len(), 1);
    assert_eq!(vm.capability_state.current_program, "net");
    assert_eq!(vm.stack, vec![Value::Bool(false)]);
    assert_eq!(vm.heap.len(), 0);
    assert_eq!(vm.tagger.next, 40);
    assert!(vm.capability_state.inbox.is_empty());
    assert_eq!(vm.capability_state.current_phase, BOOT);
}

#[test]
fn swapping_back_restores_running_program() {
    let mut vm = DaedalusVm {
        stack: vec![Value::UInt(1), Value::UInt(2)],
        heap: Heap::new(),
        tagger: TagGenerator::new(),
        capability_state: DaedalusState::new(BOOT, &[grant("ram", 4)]),
    };
    vm.tagger.next = 9;
    let incoming = program("net");
    let displaced = vm.swap(incoming, ProgramState::BlockedOnRecv);
    let returned = vm.swap(displaced, ProgramState::BlockedOnReply { tag: CallTag(Tag(1)) });
    assert_eq!(vm.capability_state.current_program, "loader");
    assert_eq!(vm.stack, vec![Value::UInt(1), Value::UInt(2)]);
    assert_eq!(vm.tagger.next, 9);
    assert_eq!(returned.name, "net");
    assert_eq!(returned.state, ProgramState::BlockedOnReply { tag: CallTag(Tag(1)) });
}
