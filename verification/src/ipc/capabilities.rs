//! The state a capability acts on, the decoding of names passed as
//! values, and the advance from one boot phase to the next.
use vstd::prelude::*;
use vstd::string::StringSliceAdditionalSpecFns;
use vstd::utf8::{decode_utf8, encode_utf8_decode_utf8, valid_utf8};

use crate::errors::DaedalusCapErrors;
use crate::irq::tag_on_stack;
use crate::manifest::{Phase, get_phase, phase_named, same_name};
use crate::program::{
    DaedalusState, InactiveProgram, Message, ProgramState, ProgramView, StateView, fresh_for,
    handles_fresh, lemma_notify_keeps_fresh, notification, notified_in,
};
use crate::values::{Heap, HeapItem, HeapItemView, TagGenerator, Value};

verus! {

/// The virtual machine `Daedalus` runs a program in, as far as the
/// capabilities act on it: the running program's stack, heap and tag
/// generator, and the state of `Daedalus`.
pub struct DaedalusVm {
    pub stack: Vec<Value>,
    pub heap: Heap,
    pub tagger: TagGenerator,
    pub capability_state: DaedalusState,
}

/// The content of a `DaedalusVm`.
pub ghost struct VmView {
    pub stack: Seq<Value>,
    pub heap: Seq<HeapItemView>,
    pub next_tag: u64,
    pub state: StateView,
}

impl View for DaedalusVm {
    type V = VmView;

    open spec fn view(&self) -> VmView {
        VmView {
            stack: self.stack@,
            heap: self.heap@,
            next_tag: self.tagger.next,
            state: self.capability_state@,
        }
    }
}

/// The handles of the machine's live bindings are tags that their programs
/// handed out (see `handles_fresh`): the running program's below the next
/// tag of the machine's generator.
pub open spec fn vm_handles_fresh(vm: VmView) -> bool {
    handles_fresh(vm.state, vm.next_tag)
}

/// A `UInt` below 256, one byte of a string.
pub open spec fn is_byte_value(v: Value) -> bool {
    v matches Value::UInt(b) && b < 256
}

/// The byte a byte value stands for.
pub open spec fn byte_of(v: Value) -> u8 {
    match v {
        Value::UInt(b) => b as u8,
        _ => 0,
    }
}

/// The bytes of a string value: a string is an array of `UInt`s, each
/// below 256. `None` if `value` is not such an array of `heap`.
pub open spec fn string_bytes(heap: Seq<HeapItemView>, value: Value) -> Option<Seq<u8>> {
    match value {
        Value::Array(index) => if index < heap.len() {
            match heap[index as int] {
                HeapItemView::Array(fields) => if forall|k: int|
                    0 <= k < fields.len() ==> is_byte_value(#[trigger] fields[k]) {
                    Some(Seq::new(fields.len(), |k: int| byte_of(fields[k])))
                } else {
                    None
                },
                _ => None,
            }
        } else {
            None
        },
        _ => None,
    }
}

/// The characters of a string value, if it is an array of bytes that are
/// valid UTF-8.
pub open spec fn string_chars(heap: Seq<HeapItemView>, value: Value) -> Option<Seq<char>> {
    match string_bytes(heap, value) {
        Some(bytes) => if valid_utf8(bytes) {
            Some(decode_utf8(bytes))
        } else {
            None
        },
        None => None,
    }
}

/// `core::str::from_utf8`: the string whose bytes are `bytes` if they are
/// valid UTF-8, else nothing.
#[verifier::external_body]
pub(crate) fn str_from_utf8(bytes: &[u8]) -> (text: Option<&str>)
    ensures
        text is Some <==> valid_utf8(bytes@),
        text matches Some(t) ==> t.spec_bytes() == bytes@,
{
    core::str::from_utf8(bytes).ok()
}

/// Collects the bytes of the string value `value`: an array of `heap`
/// whose fields are all `UInt`s below 256.
pub fn string_value_bytes(value: &Value, heap: &Heap) -> (bytes: Option<Vec<u8>>)
    ensures
        bytes matches Some(b) ==> string_bytes(heap@, *value) == Some(b@),
        bytes is None ==> string_bytes(heap@, *value) is None,
{
    let index = match value {
        Value::Array(index) => *index,
        _ => {
            return None;
        },
    };
    if index >= heap.len() {
        return None;
    }
    let fields = match heap.get_item(index) {
        HeapItem::Array(fields) => fields,
        _ => {
            return None;
        },
    };
    let mut bytes: Vec<u8> = Vec::new();
    let mut k: usize = 0;
    while k < fields.len()
        invariant
            *value == Value::Array(index),
            index < heap@.len(),
            heap@[index as int] == HeapItemView::Array(fields@),
            k <= fields@.len(),
            bytes@.len() == k,
            forall|j: int|
                0 <= j < k ==> is_byte_value(#[trigger] fields@[j]) && bytes@[j] == byte_of(
                    fields@[j],
                ),
        decreases fields@.len() - k,
    {
        match fields[k] {
            Value::UInt(byte) => {
                if byte >= 256 {
                    proof {
                        assert(!is_byte_value(fields@[k as int]));
                    }
                    return None;
                }
                bytes.push(byte as u8);
            },
            _ => {
                proof {
                    assert(!is_byte_value(fields@[k as int]));
                }
                return None;
            },
        }
        k = k + 1;
    }
    proof {
        assert(bytes@ =~= Seq::new(fields@.len(), |k: int| byte_of(fields@[k])));
    }
    Some(bytes)
}

/// Stores the bytes `text` in `heap` as a string value, an array of
/// `UInt` bytes, and returns the value that refers to it.
pub fn alloc_string_value(heap: &mut Heap, text: &[u8]) -> (value: Value)
    requires
        old(heap)@.len() < usize::MAX,
    ensures
        value == Value::Array(old(heap)@.len() as usize),
        final(heap)@ == old(heap)@.push(
            HeapItemView::Array(Seq::new(text@.len(), |k: int| Value::UInt(text@[k] as u64))),
        ),
        string_bytes(final(heap)@, value) == Some(text@),
{
    let mut fields: Vec<Value> = Vec::new();
    let mut k: usize = 0;
    while k < text.len()
        invariant
            k <= text@.len(),
            fields@ == Seq::new(k as nat, |j: int| Value::UInt(text@[j] as u64)),
        decreases text@.len() - k,
    {
        fields.push(Value::UInt(text[k] as u64));
        k = k + 1;
        proof {
            assert(fields@ =~= Seq::new(k as nat, |j: int| Value::UInt(text@[j] as u64)));
        }
    }
    let ghost content = fields@;
    let index = heap.alloc_raw(HeapItem::Array(fields));
    proof {
        let bytes = Seq::new(content.len(), |j: int| byte_of(content[j]));
        assert forall|j: int| 0 <= j < content.len() implies is_byte_value(#[trigger] content[j]) by {
        }
        assert(bytes =~= text@);
    }
    Value::Array(index)
}

/// A program embedded into `Daedalus`.
#[derive(Clone, Copy, Debug, PartialEq, Eq)]
pub struct Program {
    pub name: &'static str,
}

/// Decodes a program's name, passed as a string value, and finds the
/// program of that name among `programs`.
pub fn program_from_value_name(name_value: &Value, heap: &Heap, programs: &[Program]) -> (program:
    Result<Program, DaedalusCapErrors>)
    ensures
        string_chars(heap@, *name_value) is None ==> program == Err::<Program, _>(
            DaedalusCapErrors::ProgramNameExpected,
        ),
        string_chars(heap@, *name_value) matches Some(name) ==> {
            &&& program matches Ok(p) ==> p.name@ == name && exists|i: int|
                0 <= i < programs@.len() && programs@[i] == p
            &&& program matches Err(e) ==> (e matches DaedalusCapErrors::CouldNotFindProgram {
                looked_up_program_name,
            } && looked_up_program_name@ == name && forall|i: int|
                0 <= i < programs@.len() ==> (#[trigger] programs@[i]).name@ != name)
            &&& program is Err <==> forall|i: int|
                0 <= i < programs@.len() ==> (#[trigger] programs@[i]).name@ != name
        },
{
    let bytes = match string_value_bytes(name_value, heap) {
        Some(bytes) => bytes,
        None => {
            return Err(DaedalusCapErrors::ProgramNameExpected);
        },
    };
    let name = match str_from_utf8(bytes.as_slice()) {
        Some(name) => name,
        None => {
            return Err(DaedalusCapErrors::ProgramNameExpected);
        },
    };
    proof {
        encode_utf8_decode_utf8(name@);
    }
    let mut i: usize = 0;
    while i < programs.len()
        invariant
            string_chars(heap@, *name_value) == Some(name@),
            i <= programs@.len(),
            forall|j: int| 0 <= j < i ==> (#[trigger] programs@[j]).name@ != name@,
        decreases programs@.len() - i,
    {
        if same_name(programs[i].name, name) {
            proof {
                assert(programs@[i as int] == programs[i as int]);
            }
            return Ok(programs[i]);
        }
        i = i + 1;
    }
    Err(DaedalusCapErrors::CouldNotFindProgram { looked_up_program_name: name.to_owned() })
}

/// What advancing the boot phase asks of the caller.
#[derive(Clone, Copy, Debug, PartialEq, Eq, Structural)]
pub enum PhaseAdvance {
    /// The next phase runs the current program; it was notified through
    /// its inbox.
    Notified,
    /// The next phase's program exists: it was notified through its inbox,
    /// whatever its state, and woken and queued if it was waiting in
    /// `recv`.
    MadeReady,
    /// The next phase's program does not exist yet: it is to be created from
    /// its image, with the entry argument if one is given, and admitted with
    /// `DaedalusState::admit_program`.
    Spawn { argument: Option<Value> },
}

/// The state after advancing to `next`, for the entry argument `entry`
/// (see `advance_phase`).
pub open spec fn advanced(state: StateView, next: Phase, entry: Option<Value>) -> StateView {
    let moved = if next.program@ == state.current_program@ {
        StateView { inbox: state.inbox.push(notification()), ..state }
    } else if state.programs.contains_key(next.program@) {
        notified_in(state, next.program)
    } else {
        state
    };
    StateView { current_phase: next, ..moved }
}

/// What `advance_phase` asks of its caller for the next phase `next` and the
/// entry argument `entry`.
pub open spec fn advance_request(state: StateView, next: Phase, entry: Option<Value>) -> PhaseAdvance {
    if next.program@ == state.current_program@ {
        PhaseAdvance::Notified
    } else if state.programs.contains_key(next.program@) {
        PhaseAdvance::MadeReady
    } else {
        PhaseAdvance::Spawn { argument: entry }
    }
}

/// Advances the current phase of `virtual_machine` to its successor in
/// `phases`.
///
/// If the next phase runs the current program, a notification goes to
/// the current program's inbox, where `block_recv` will find it. Otherwise,
/// if the next phase's program exists, a notification goes to its inbox
/// whatever its state, and it is woken and queued if it waits in `recv`;
/// if it does not exist, it is to be spawned, with `entry_argument` as its
/// entry argument if there is one.
/// The current phase becomes the next phase; there is none after `end`.
pub fn advance_phase(
    virtual_machine: &mut DaedalusVm,
    phases: &[Phase],
    entry_argument: Option<Value>,
) -> (advance: Result<PhaseAdvance, DaedalusCapErrors>)
    ensures
        phase_named(phases@, old(virtual_machine)@.state.current_phase.next@) is None ==> {
            &&& advance == Err::<PhaseAdvance, _>(DaedalusCapErrors::EndOfPhases)
            &&& final(virtual_machine)@ == old(virtual_machine)@
        },
        phase_named(phases@, old(virtual_machine)@.state.current_phase.next@) matches Some(next)
            ==> {
            &&& advance == Ok::<_, DaedalusCapErrors>(
                advance_request(old(virtual_machine)@.state, next, entry_argument),
            )
            &&& final(virtual_machine)@ == (VmView {
                state: advanced(old(virtual_machine)@.state, next, entry_argument),
                ..old(virtual_machine)@
            })
        },
        vm_handles_fresh(old(virtual_machine)@) ==> vm_handles_fresh(final(virtual_machine)@),
{
    let next_phase = match get_phase(phases, virtual_machine.capability_state.current_phase.next) {
        Some(phase) => phase,
        None => {
            return Err(DaedalusCapErrors::EndOfPhases);
        },
    };
    let name = next_phase.program;
    let advance = if same_name(name, virtual_machine.capability_state.current_program) {
        // The current program runs the next phase too: it is woken through
        // its inbox, by the fast path of `block_recv`.
        virtual_machine.capability_state.inbox.push_back(
            crate::program::Message { tag: None, args: Value::Unit },
        );
        PhaseAdvance::Notified
    } else {
        // An existing program is notified whatever its state, and woken if
        // it waits in `recv`.
        if virtual_machine.capability_state.notify(name) {
            PhaseAdvance::MadeReady
        } else {
            PhaseAdvance::Spawn { argument: entry_argument }
        }
    };
    virtual_machine.capability_state.current_phase = next_phase;
    proof {
        if vm_handles_fresh(old(virtual_machine)@) {
            lemma_advance_keeps_fresh(
                old(virtual_machine)@.state,
                old(virtual_machine)@.next_tag,
                next_phase,
                entry_argument,
            );
        }
    }
    Ok(advance)
}


/// Swapping the running program of a virtual machine for an inactive one.
pub trait ProgramSwappable: Sized {
    /// The content of the running program.
    spec fn running(&self) -> ProgramView;

    /// Makes `program` the running program and returns the previously
    /// running one, inactive in `new_state`.
    fn swap(&mut self, program: InactiveProgram, new_state: ProgramState) -> (previous: InactiveProgram)
        ensures
            previous@ == (ProgramView { state: new_state, ..old(self).running() }),
            final(self).running() == (ProgramView { state: final(self).running().state, ..program@ }),
    ;
}

impl ProgramSwappable for DaedalusVm {
    open spec fn running(&self) -> ProgramView {
        ProgramView {
            name: self.capability_state.current_program,
            state: ProgramState::Ready,
            stack: self.stack@,
            heap: self.heap@,
            next_tag: self.tagger.next,
            pending_replies: crate::tables::reply_entries(self.capability_state.pending_replies),
            inbox: self.capability_state.inbox@,
            regions: crate::tables::region_entries(self.capability_state.regions),
            named_grants: crate::tables::grant_entries(self.capability_state.named_grants),
        }
    }

    fn swap(&mut self, program: InactiveProgram, new_state: ProgramState) -> (previous: InactiveProgram)
        ensures
            final(self)@.state.current_phase == old(self)@.state.current_phase,
            final(self)@.state.programs == old(self)@.state.programs,
            final(self)@.state.ready_queue == old(self)@.state.ready_queue,
            final(self)@.state.irqs == old(self)@.state.irqs,
    {
        let mut program = program;
        // Exchange each component, so that the machine runs the new program
        // and the old one is kept inactive.
        std::mem::swap(&mut self.stack, &mut program.stack);
        std::mem::swap(&mut self.heap, &mut program.heap);
        std::mem::swap(&mut self.tagger, &mut program.tagger);
        std::mem::swap(&mut self.capability_state.pending_replies, &mut program.pending_replies);
        std::mem::swap(&mut self.capability_state.inbox, &mut program.inbox);
        std::mem::swap(&mut self.capability_state.regions, &mut program.regions);
        std::mem::swap(&mut self.capability_state.current_program, &mut program.name);
        std::mem::swap(&mut self.capability_state.named_grants, &mut program.named_grants);
        program.state = new_state;
        program
    }
}

/// Swapping a program in and then swapping the program it displaced back
/// in restores the running program as it was, and returns the first
/// program with the state it was given by the second swap.
pub proof fn lemma_swap_back_restores(
    before: DaedalusVm,
    between: DaedalusVm,
    after: DaedalusVm,
    program: InactiveProgram,
    displaced: InactiveProgram,
    returned: InactiveProgram,
    first_state: ProgramState,
    second_state: ProgramState,
)
    requires
        displaced@ == (ProgramView { state: first_state, ..before.running() }),
        between.running() == (ProgramView { state: between.running().state, ..program@ }),
        returned@ == (ProgramView { state: second_state, ..between.running() }),
        after.running() == (ProgramView { state: after.running().state, ..displaced@ }),
    ensures
        after.running() == before.running(),
        returned@ == (ProgramView { state: second_state, ..program@ }),
{
}

/// A program blocked on `recv` with nothing in its inbox that the next
/// phase runs, and that is not the running one, is woken by the phase
/// advance with a notification: a `Unit` payload on top of a `Unit` call
/// tag, which cannot be replied to; it is ready and queued to run.
pub proof fn lemma_next_phase_wakes_with_unit_call_tag(
    state: StateView,
    next: Phase,
    entry: Option<Value>,
)
    requires
        next.program@ != state.current_program@,
        state.programs.contains_key(next.program@),
        state.programs[next.program@].state == ProgramState::BlockedOnRecv,
        state.programs[next.program@].inbox.len() == 0,
    ensures
        ({
            let after = advanced(state, next, entry);
            let woken = after.programs[next.program@];
            &&& after.current_phase == next
            &&& woken.state == ProgramState::Ready
            &&& woken.stack == state.programs[next.program@].stack.push(Value::Unit).push(Value::Unit)
            &&& woken.inbox.len() == 0
            &&& after.ready_queue == state.ready_queue.push(next.program)
        }),
        advance_request(state, next, entry) == PhaseAdvance::MadeReady,
{
    let program = state.programs[next.program@];
    let notified_inbox = program.inbox.push(notification());
    assert(notified_inbox.drop_first() =~= Seq::<Message>::empty());
}

/// A ready program that the next phase runs, and that is not the running
/// one, gets a notification in its inbox from the phase advance; it stays
/// ready and is not queued again.
pub proof fn lemma_next_phase_notifies_ready_program(state: StateView, next: Phase, entry: Option<Value>)
    requires
        next.program@ != state.current_program@,
        state.programs.contains_key(next.program@),
        state.programs[next.program@].state == ProgramState::Ready,
    ensures
        ({
            let before = state.programs[next.program@];
            let after = advanced(state, next, entry);
            &&& after.programs[next.program@] == (ProgramView {
                inbox: before.inbox.push(notification()),
                ..before
            })
            &&& after.ready_queue == state.ready_queue
        }),
{
}

/// Advancing the phase keeps the handles fresh: no tag generator moves.
pub proof fn lemma_advance_keeps_fresh(
    state: StateView,
    running_next_tag: u64,
    next: Phase,
    entry: Option<Value>,
)
    requires
        handles_fresh(state, running_next_tag),
    ensures
        handles_fresh(advanced(state, next, entry), running_next_tag),
{
    lemma_notify_keeps_fresh(state, running_next_tag, next.program);
}

/// Swapping a program in keeps the handles fresh: the program that comes
/// in brings its own tag generator, and the one that goes out takes its
/// generator along, so each program's bindings stay below its next tag.
pub proof fn lemma_swap_keeps_fresh(
    before: DaedalusVm,
    after: DaedalusVm,
    program: InactiveProgram,
    displaced: InactiveProgram,
    new_state: ProgramState,
)
    requires
        displaced@ == (ProgramView { state: new_state, ..before.running() }),
        after.running() == (ProgramView { state: after.running().state, ..program@ }),
        after@.state.irqs == before@.state.irqs,
        fresh_for(before@.state.irqs, before.running().name@, before.running().next_tag),
        fresh_for(before@.state.irqs, program@.name@, program@.next_tag),
    ensures
        fresh_for(after@.state.irqs, after.running().name@, after.running().next_tag),
        fresh_for(after@.state.irqs, displaced@.name@, displaced@.next_tag),
{
}

/// Advancing to a phase whose program is an existing inactive program,
/// not the running one, notifies it whatever its state: a message with no
/// call tag and a `Unit` payload goes to the end of its inbox. A program
/// waiting in `recv` then takes the oldest message of its inbox onto its
/// stack (the call tag under the payload), becomes ready and is queued; any
/// other program keeps its stack and state and is not queued. The running
/// program's inbox and every other inactive program are left as they were,
/// and the phase becomes the next one.
pub proof fn lemma_advance_notifies_existing_program(
    state: StateView,
    next: Phase,
    entry: Option<Value>,
)
    requires
        next.program@ != state.current_program@,
        state.programs.contains_key(next.program@),
    ensures
        ({
            let name = next.program@;
            let before = state.programs[name];
            let pushed = before.inbox.push(Message { tag: None, args: Value::Unit });
            let after = advanced(state, next, entry);
            let program = after.programs[name];
            &&& advance_request(state, next, entry) == PhaseAdvance::MadeReady
            &&& after.current_phase == next
            &&& after.programs.contains_key(name)
            &&& after.programs.remove(name) == state.programs.remove(name)
            &&& after.inbox == state.inbox
            &&& after.current_program == state.current_program
            &&& after.irqs == state.irqs
            &&& program.name == before.name
            &&& program.heap == before.heap
            &&& program.next_tag == before.next_tag
            &&& before.state != ProgramState::BlockedOnRecv ==> {
                &&& program.inbox == pushed
                &&& program.stack == before.stack
                &&& program.state == before.state
                &&& after.ready_queue == state.ready_queue
            }
            &&& before.state == ProgramState::BlockedOnRecv ==> {
                &&& program.inbox == pushed.drop_first()
                &&& program.stack == before.stack.push(tag_on_stack(pushed[0].tag)).push(
                    pushed[0].args,
                )
                &&& program.state == ProgramState::Ready
                &&& after.ready_queue == state.ready_queue.push(next.program)
            }
        }),
{
    let name = next.program@;
    let after = advanced(state, next, entry);
    assert(after.programs.remove(name) =~= state.programs.remove(name));
}

/// Advancing to a phase that runs the running program again puts a message
/// with no call tag and a `Unit` payload at the end of the running
/// program's inbox, and touches no inactive program.
pub proof fn lemma_advance_notifies_running_program(
    state: StateView,
    next: Phase,
    entry: Option<Value>,
)
    requires
        next.program@ == state.current_program@,
    ensures
        advanced(state, next, entry) == (StateView {
            current_phase: next,
            inbox: state.inbox.push(Message { tag: None, args: Value::Unit }),
            ..state
        }),
        advance_request(state, next, entry) == PhaseAdvance::Notified,
{
}

/// Advancing to a phase whose program does not exist asks for it to be
/// spawned with the entry argument, and changes nothing but the phase.
pub proof fn lemma_advance_spawns_missing_program(
    state: StateView,
    next: Phase,
    entry: Option<Value>,
)
    requires
        next.program@ != state.current_program@,
        !state.programs.contains_key(next.program@),
    ensures
        advanced(state, next, entry) == (StateView { current_phase: next, ..state }),
        advance_request(state, next, entry) == (PhaseAdvance::Spawn { argument: entry }),
{
}

} // verus!
