use daedalus_caps::errors::DaedalusCapErrors;
use daedalus_caps::ipc::capabilities::{
    advance_phase, alloc_string_value, program_from_value_name, string_value_bytes, DaedalusVm,
    PhaseAdvance, Program,
};
use daedalus_caps::irq::{InterruptPriority, InterruptTrigger};
use daedalus_caps::manifest::{find_program_interrupt_under_id, get_phase, InterruptDeclaration, Phase};
use daedalus_caps::program::{DaedalusState, InactiveProgram, Message, ProgramState};
use daedalus_caps::values::{value_type_name, Heap, HeapItem, Tag, TagGenerator, Value};

const PHASES: [Phase; 3] = [
    Phase { name: "boot", program: "loader", next: "net" },
    Phase { name: "net", program: "netd", next: "again" },
    Phase { name: "again", program: "netd", next: "end" },
];

const PROGRAMS: [Program; 2] = [Program { name: "loader" }, Program { name: "netd" }];

fn vm(phase: Phase) -> DaedalusVm {
    DaedalusVm {
        stack: vec![],
        heap: Heap::new(),
        tagger: TagGenerator::new(),
        capability_state: DaedalusState::new(phase, &[]),
    }
}

#[test]
fn string_value_roundtrips_through_heap() {
    let mut heap = Heap::new();
    heap.alloc_raw(HeapItem::Array(vec![]));
    let value = alloc_string_value(&mut heap, b"netd");
    assert_eq!(value, Value::Array(1));
    assert_eq!(heap.len(), 2);
    assert_eq!(string_value_bytes(&value, &heap), Some(b"netd".to_vec()));
}

#[test]
fn string_value_rejects_non_strings() {
    let mut heap = Heap::new();
    heap.alloc_raw(HeapItem::Array(vec![Value::UInt(65), Value::UInt(256)]));
    heap.alloc_raw(HeapItem::Array(vec![Value::Int(65)]));
    heap.alloc_raw(HeapItem::Object { type_tag: Tag(0), fields: vec![] });
    assert_eq!(string_value_bytes(&Value::Array(0), &heap), None);
    assert_eq!(string_value_bytes(&Value::Array(1), &heap), None);
    assert_eq!(string_value_bytes(&Value::Array(2), &heap), None);
    assert_eq!(string_value_bytes(&Value::Array(3), &heap), None);
    assert_eq!(string_value_bytes(&Value::UInt(65), &heap), None);
}

#[test]
fn program_found_by_value_name() {
    let mut heap = Heap::new();
    let name = alloc_string_value(&mut heap, b"netd");
    assert_eq!(program_from_value_name(&name, &heap, &PROGRAMS), Ok(Program { name: "netd" }));
}

#[test]
fn unknown_program_name_is_reported() {
    let mut heap = Heap::new();
    let name = alloc_string_value(&mut heap, b"fsd");
    assert_eq!(
        program_from_value_name(&name, &heap, &PROGRAMS),
        Err(DaedalusCapErrors::CouldNotFindProgram { looked_up_program_name: "fsd".to_string() })
    );
}

#[test]
fn program_name_must_be_utf8_string() {
    let mut heap = Heap::new();
    let bad = alloc_string_value(&mut heap, &[0xff, 0xfe]);
    assert_eq!(
        program_from_value_name(&bad, &heap, &PROGRAMS),
        Err(DaedalusCapErrors::ProgramNameExpected)
    );
    assert_eq!(
        program_from_value_name(&Value::Bool(true), &heap, &PROGRAMS),
        Err(DaedalusCapErrors::ProgramNameExpected)
    );
}

#[test]
fn phases_are_found_by_name() {
    assert_eq!(get_phase(&PHASES, "net"), Some(PHASES[1]));
    assert_eq!(get_phase(&PHASES, "end"), None);
}

#[test]
fn first_declaration_of_interrupt_is_found() {
    let declarations = [
        InterruptDeclaration {
            program: "netd",
            interrupt_id: 40,
            trigger: InterruptTrigger::Edge,
            priority: InterruptPriority(0xa0),
        },
        InterruptDeclaration {
            program: "netd",
            interrupt_id: 40,
            trigger: InterruptTrigger::Level,
            priority: InterruptPriority(0x10),
        },
    ];
    assert_eq!(find_program_interrupt_under_id(&declarations, "netd", 40), Some(declarations[0]));
    assert_eq!(find_program_interrupt_under_id(&declarations, "loader", 40), None);
    assert_eq!(find_program_interrupt_under_id(&declarations, "netd", 41), None);
}

#[test]
fn value_type_names() {
    assert_eq!(value_type_name(&Value::Unit), "unit");
    assert_eq!(value_type_name(&Value::Int(1)), "int");
    assert_eq!(value_type_name(&Value::UInt(1)), "uint");
    assert_eq!(value_type_name(&Value::Float(0)), "float");
    assert_eq!(value_type_name(&Value::Bool(false)), "bool");
    assert_eq!(value_type_name(&Value::Tag(Tag(0))), "tag");
    assert_eq!(value_type_name(&Value::Object(0)), "object");
    assert_eq!(value_type_name(&Value::Array(0)), "array");
}

#[test]
fn advance_past_last_phase_is_end_of_phases() {
    let mut machine = vm(PHASES[2]);
    assert_eq!(advance_phase(&mut machine, &PHASES, None), Err(DaedalusCapErrors::EndOfPhases));
    assert_eq!(machine.capability_state.current_phase, PHASES[2]);
    assert!(machine.capability_state.inbox.is_empty());
}

#[test]
fn advance_to_new_program_asks_for_spawn() {
    let mut machine = vm(PHASES[0]);
    let result = advance_phase(&mut machine, &PHASES, Some(Value::UInt(9)));
    assert_eq!(result, Ok(PhaseAdvance::Spawn { argument: Some(Value::UInt(9)) }));
    assert_eq!(machine.capability_state.current_phase, PHASES[1]);
    assert!(machine.capability_state.ready_queue.is_empty());
}

#[test]
fn advance_to_same_program_notifies_it() {
    let mut machine = vm(PHASES[1]);
    machine.capability_state.current_program = "netd";
    assert_eq!(advance_phase(&mut machine, &PHASES, None), Ok(PhaseAdvance::Notified));
    assert_eq!(machine.capability_state.current_phase, PHASES[2]);
    assert_eq!(machine.capability_state.inbox.len(), 1);
    assert_eq!(machine.capability_state.inbox[0], Message { tag: None, args: Value::Unit });
}

#[test]
fn advance_to_existing_program_makes_it_ready() {
    let mut machine = vm(PHASES[0]);
    let mut netd =
        InactiveProgram::from_initial_machine("netd", vec![], Heap::new(), TagGenerator::new(), &[]);
    netd.state = ProgramState::BlockedOnRecv;
    machine.capability_state.admit_program("netd", netd);
    machine.capability_state.ready_queue.clear();
    assert_eq!(advance_phase(&mut machine, &PHASES, None), Ok(PhaseAdvance::MadeReady));
    assert_eq!(machine.capability_state.current_phase, PHASES[1]);
    assert_eq!(machine.capability_state.ready_queue, vec!["netd"]);
    let netd = machine.capability_state.inactive_program("netd").unwrap();
    assert_eq!(netd.state, ProgramState::Ready);
    assert_eq!(netd.stack, vec![Value::Unit, Value::Unit]);
}

#[test]
fn advance_to_ready_program_notifies_it() {
    let mut machine = vm(PHASES[0]);
    let netd =
        InactiveProgram::from_initial_machine("netd", vec![], Heap::new(), TagGenerator::new(), &[]);
    machine.capability_state.admit_program("netd", netd);
    assert_eq!(advance_phase(&mut machine, &PHASES, None), Ok(PhaseAdvance::MadeReady));
    assert_eq!(machine.capability_state.ready_queue, vec!["netd"]);
    let netd = machine.capability_state.inactive_program("netd").unwrap();
    assert_eq!(netd.state, ProgramState::Ready);
    assert_eq!(netd.inbox.len(), 1);
    assert_eq!(netd.inbox[0], Message { tag: None, args: Value::Unit });
    assert!(netd.stack.is_empty());
}
