//! Programs, the messages between them and the state that `Daedalus`
//! keeps about the programs that are not running.
use vstd::prelude::*;

use std::collections::VecDeque;

use crate::irq::IrqBinding;
use crate::manifest::Phase;
use crate::memory::{Region, RegionHandle};
use crate::tables::{
    GrantTable, IrqTable, ProgramTable, RegionTable, ReplyTable, grant_entries, irq_entries,
    program_entries, region_entries, reply_entries,
};
use crate::migrate::{is_migration, migrate, reaches_live};
use crate::values::{Heap, HeapItemView, Tag, TagGenerator, Value};

verus! {

/// The tag of a unique call, by which a reply is matched back to it.
#[derive(Clone, Copy, Debug, PartialEq, Eq, Structural, Hash)]
pub struct CallTag(pub Tag);

/// A call's reply association: where a reply to it goes.
#[derive(Clone, Copy, Debug, PartialEq, Eq)]
pub struct CallAssociation {
    /// The tag in the caller's tag space, which the reply carries.
    pub caller_side_tag: CallTag,
    /// The name of the calling program, which the reply goes to.
    pub caller_program: &'static str,
}

/// A request sitting in the inbox of a program, waiting to be received.
#[derive(Clone, Copy, Debug, PartialEq, Eq, Structural)]
pub struct Message {
    /// The call tag with which the receiver can reply, or `None` for a
    /// notification from `Daedalus` itself, which cannot be replied to and
    /// is delivered with a `Unit` call tag.
    pub tag: Option<CallTag>,
    /// The argument the caller passed.
    pub args: Value,
}

/// The value that stands for a message's call tag on the stack.
pub open spec fn call_tag_value(tag: Option<CallTag>) -> Value {
    match tag {
        Some(tag) => Value::Tag(tag.0),
        None => Value::Unit,
    }
}

impl Message {
    /// Pushes this message onto `stack` as `[<top> payload, call_tag]`,
    /// the call tag being `Unit` for a notification.
    pub fn deliver_onto(self, stack: &mut Vec<Value>)
        ensures
            final(stack)@ == old(stack)@.push(call_tag_value(self.tag)).push(self.args),
    {
        match self.tag {
            Some(tag) => stack.push(Value::Tag(tag.0)),
            None => stack.push(Value::Unit),
        }
        stack.push(self.args);
    }
}

/// The state of a program that is not running.
#[derive(Clone, Copy, Debug, PartialEq, Eq, Structural)]
pub enum ProgramState {
    /// Blocked until a message arrives in its inbox.
    BlockedOnRecv,
    /// Blocked until the call with this tag is replied to.
    BlockedOnReply { tag: CallTag },
    /// Ready to run, waiting to be picked up.
    Ready,
}


/// A program that is not running: its execution state, kept outside the
/// virtual machine until it is swapped back in.
pub struct InactiveProgram {
    /// The program's name.
    pub name: &'static str,
    /// Why it is not running.
    pub state: ProgramState,
    /// Its stack of values.
    pub stack: Vec<Value>,
    /// Its heap.
    pub heap: Heap,
    /// The generator of its unique tags.
    pub tagger: TagGenerator,
    /// Calls made to it that it has not replied to yet.
    pub pending_replies: ReplyTable,
    /// Messages sent to it and not yet received.
    pub inbox: VecDeque<Message>,
    /// The regions it may access, by handle.
    pub regions: RegionTable,
    /// Its grants, by role.
    pub named_grants: GrantTable,
}

/// The content of an inactive program.
pub ghost struct ProgramView {
    pub name: &'static str,
    pub state: ProgramState,
    pub stack: Seq<Value>,
    pub heap: Seq<HeapItemView>,
    pub next_tag: u64,
    pub pending_replies: Map<u64, CallAssociation>,
    pub inbox: Seq<Message>,
    pub regions: Map<u64, Region>,
    pub named_grants: Map<Seq<char>, RegionHandle>,
}

impl View for InactiveProgram {
    type V = ProgramView;

    open spec fn view(&self) -> ProgramView {
        ProgramView {
            name: self.name,
            state: self.state,
            stack: self.stack@,
            heap: self.heap@,
            next_tag: self.tagger.next,
            pending_replies: reply_entries(self.pending_replies),
            inbox: self.inbox@,
            regions: region_entries(self.regions),
            named_grants: grant_entries(self.named_grants),
        }
    }
}

/// A grant minted for a program: the region it grants, the handle minted
/// for that region, and the role under which the program finds it.
#[derive(Clone, Copy, Debug)]
pub struct MintedGrant {
    pub role: &'static str,
    pub handle: RegionHandle,
    pub region: Region,
}

/// The grant table that holds each minted grant's handle under its role, a
/// later grant of a role replacing an earlier one.
pub open spec fn grants_map(grants: Seq<MintedGrant>) -> Map<Seq<char>, RegionHandle>
    decreases grants.len(),
{
    if grants.len() == 0 {
        Map::empty()
    } else {
        grants_map(grants.drop_last()).insert(grants.last().role@, grants.last().handle)
    }
}

/// The region table that holds each minted grant's region under the tag of
/// its handle, a later grant of a handle replacing an earlier one.
pub open spec fn regions_map(grants: Seq<MintedGrant>) -> Map<u64, Region>
    decreases grants.len(),
{
    if grants.len() == 0 {
        Map::empty()
    } else {
        regions_map(grants.drop_last()).insert(grants.last().handle.0.0, grants.last().region)
    }
}

/// Keeps the minted `grants`: their handles by role, and their regions by
/// handle.
fn minted_tables(grants: &[MintedGrant]) -> (tables: (GrantTable, RegionTable))
    ensures
        grant_entries(tables.0) == grants_map(grants@),
        region_entries(tables.1) == regions_map(grants@),
{
    let mut named = GrantTable::new();
    let mut regions = RegionTable::new();
    let mut i: usize = 0;
    while i < grants.len()
        invariant
            i <= grants@.len(),
            grant_entries(named) == grants_map(grants@.subrange(0, i as int)),
            region_entries(regions) == regions_map(grants@.subrange(0, i as int)),
        decreases grants@.len() - i,
    {
        let grant = grants[i];
        named.insert(grant.role, grant.handle);
        regions.insert(grant.handle.0.0, grant.region);
        proof {
            assert(grants@.subrange(0, i + 1).drop_last() =~= grants@.subrange(0, i as int));
        }
        i = i + 1;
    }
    proof {
        assert(grants@.subrange(0, grants@.len() as int) =~= grants@);
    }
    (named, regions)
}

impl InactiveProgram {
    /// Packages the initial state of a program's machine (its stack, heap
    /// and tag generator), with its `name` and the handles minted for its
    /// grants, into a program that is ready to run, with an empty inbox.
    pub fn from_initial_machine(
        name: &'static str,
        stack: Vec<Value>,
        heap: Heap,
        tagger: TagGenerator,
        grants: &[MintedGrant],
    ) -> (program: InactiveProgram)
        ensures
            program@ == (ProgramView {
                name,
                state: ProgramState::Ready,
                stack: stack@,
                heap: heap@,
                next_tag: tagger.next,
                pending_replies: Map::empty(),
                inbox: Seq::empty(),
                regions: regions_map(grants@),
                named_grants: grants_map(grants@),
            }),
    {
        let (named_grants, regions) = minted_tables(grants);
        InactiveProgram {
            name,
            state: ProgramState::Ready,
            stack,
            heap,
            tagger,
            pending_replies: ReplyTable::new(),
            inbox: VecDeque::new(),
            regions,
            named_grants,
        }
    }
}

/// Prepares the entry of a program's fresh machine, whose stack is `stack`
/// and whose heap is `heap`, with the argument `arg`, a value of
/// `arg_heap`: an entry point that takes one argument gets `arg` migrated
/// into the machine's heap and pushed onto its stack; one that takes none
/// drops it. Returns the number of arguments to call the entry point with.
pub fn push_entry_argument(
    arg_count: usize,
    arg: Value,
    arg_heap: &mut Heap,
    stack: &mut Vec<Value>,
    heap: &mut Heap,
) -> (count: usize)
    requires
        arg_count <= 1,
        arg_count == 1 ==> reaches_live(old(arg_heap)@, arg) && old(heap)@.len() + old(
            arg_heap,
        )@.len() <= usize::MAX,
    ensures
        count == arg_count,
        final(arg_heap)@ == old(arg_heap)@,
        arg_count == 0 ==> final(stack)@ == old(stack)@ && final(heap)@ == old(heap)@,
        arg_count == 1 ==> exists|migrated: Value|
            #![trigger is_migration(old(arg_heap)@, old(heap)@, final(heap)@, arg, migrated)]
            is_migration(old(arg_heap)@, old(heap)@, final(heap)@, arg, migrated) && final(stack)@
                == old(stack)@.push(migrated),
{
    if arg_count == 0 {
        return 0;
    }
    let migrated = migrate(arg_heap, heap, arg);
    stack.push(migrated);
    1
}

/// The program after `wake_recv`: if it is blocked on `recv` with a
/// message in its inbox, the oldest message is delivered onto its stack and
/// it is ready; otherwise it is unchanged.
pub open spec fn after_wake(program: ProgramView) -> ProgramView {
    if program.state == ProgramState::BlockedOnRecv && program.inbox.len() > 0 {
        ProgramView {
            state: ProgramState::Ready,
            stack: program.stack.push(call_tag_value(program.inbox[0].tag)).push(
                program.inbox[0].args,
            ),
            inbox: program.inbox.drop_first(),
            ..program
        }
    } else {
        program
    }
}

/// Whether `wake_recv` wakes the program.
pub open spec fn wakes(program: ProgramView) -> bool {
    program.state == ProgramState::BlockedOnRecv && program.inbox.len() > 0
}

impl InactiveProgram {
    /// If this program is blocked in `block_recv` and has a message in its
    /// inbox, wakes it up: the oldest message is taken out of the inbox and
    /// delivered onto its stack, and it becomes `Ready`.
    ///
    /// Returns whether the program was woken; if it was not, nothing
    /// changes.
    pub fn wake_recv(&mut self) -> (woken: bool)
        ensures
            woken == (old(self).state == ProgramState::BlockedOnRecv && old(self).inbox@.len() > 0),
            woken ==> {
                &&& final(self).state == ProgramState::Ready
                &&& final(self).inbox@ == old(self).inbox@.drop_first()
                &&& final(self).stack@ == old(self).stack@.push(
                    call_tag_value(old(self).inbox@[0].tag),
                ).push(old(self).inbox@[0].args)
                &&& final(self).name == old(self).name
                &&& final(self).heap == old(self).heap
                &&& final(self).tagger == old(self).tagger
                &&& final(self).named_grants == old(self).named_grants
                &&& final(self).pending_replies == old(self).pending_replies
                &&& final(self).regions == old(self).regions
            },
            !woken ==> *final(self) == *old(self),
            woken == wakes(old(self)@),
            final(self)@ == after_wake(old(self)@),
    {
        if self.state != ProgramState::BlockedOnRecv {
            return false;
        }
        if self.inbox.len() == 0 {
            return false;
        }
        let message = self.inbox.pop_front().unwrap();
        message.deliver_onto(&mut self.stack);
        self.state = ProgramState::Ready;
        true
    }
}


/// The notification that `Daedalus` itself sends a program: no call tag,
/// a `Unit` payload.
pub open spec fn notification() -> Message {
    Message { tag: None, args: Value::Unit }
}

/// The content of a `DaedalusState`.
pub ghost struct StateView {
    pub current_phase: Phase,
    pub current_program: &'static str,
    pub pending_replies: Map<u64, CallAssociation>,
    pub inbox: Seq<Message>,
    pub programs: Map<Seq<char>, ProgramView>,
    pub ready_queue: Seq<&'static str>,
    pub regions: Map<u64, Region>,
    pub named_grants: Map<Seq<char>, RegionHandle>,
    pub irqs: Map<u32, IrqBinding>,
}

/// The inactive programs of a table, by the characters of their names.
pub open spec fn programs_view(table: ProgramTable) -> Map<Seq<char>, ProgramView> {
    program_entries(table).map_values(|program: InactiveProgram| program@)
}

/// The state of `Daedalus` while it runs: the phase and program being run,
/// the running program's pending replies, inbox, regions and grants, the
/// programs that are not
/// running, the order in which ready programs run, and the interrupt
/// bindings of all programs.
pub struct DaedalusState {
    /// The current boot phase.
    pub current_phase: Phase,
    /// The name of the program loaded in the virtual machine; programs can
    /// call other programs, so it need not be the phase's.
    pub current_program: &'static str,
    /// Calls made to the running program that it has not replied to yet.
    pub pending_replies: ReplyTable,
    /// Messages to the running program, not yet received.
    pub inbox: VecDeque<Message>,
    /// The programs that are not running.
    pub programs: ProgramTable,
    /// Names of programs in the `Ready` state, in the order they run.
    pub ready_queue: VecDeque<&'static str>,
    /// The regions the running program may access, by handle.
    pub regions: RegionTable,
    /// The running program's grants, by role.
    pub named_grants: GrantTable,
    /// The interrupt bindings, by interrupt ID.
    pub irqs: IrqTable,
}

impl View for DaedalusState {
    type V = StateView;

    open spec fn view(&self) -> StateView {
        StateView {
            current_phase: self.current_phase,
            current_program: self.current_program,
            pending_replies: reply_entries(self.pending_replies),
            inbox: self.inbox@,
            programs: programs_view(self.programs),
            ready_queue: self.ready_queue@,
            regions: region_entries(self.regions),
            named_grants: grant_entries(self.named_grants),
            irqs: irq_entries(self.irqs),
        }
    }
}

/// What `make_ready` found for a program.
#[derive(Clone, Copy, Debug, PartialEq, Eq, Structural)]
pub enum MakeReady {
    /// The program exists; it was notified, and queued if that woke it.
    Present,
    /// The program does not exist yet: it is to be created from its image
    /// and admitted with `admit_program`.
    Spawn,
}

/// A program after a notification reaches it: the notification goes to its
/// inbox, and a program blocked on `recv` is then woken by it.
pub open spec fn with_notification(program: ProgramView) -> ProgramView {
    after_wake(ProgramView { inbox: program.inbox.push(notification()), ..program })
}

/// A program after `make_ready` notifies it: a program that is not ready
/// gets the notification (see `with_notification`); a ready program is
/// left as it is.
pub open spec fn notified(program: ProgramView) -> ProgramView {
    if program.state == ProgramState::Ready {
        program
    } else {
        with_notification(program)
    }
}

/// The state after `notify(name)` (see there).
pub open spec fn notified_in(state: StateView, name: &'static str) -> StateView {
    if state.programs.contains_key(name@) {
        let program = state.programs[name@];
        StateView {
            programs: state.programs.insert(name@, with_notification(program)),
            ready_queue: if notification_wakes(program) {
                state.ready_queue.push(name)
            } else {
                state.ready_queue
            },
            ..state
        }
    } else {
        state
    }
}

/// Whether notifying the program wakes it.
pub open spec fn notification_wakes(program: ProgramView) -> bool {
    program.state == ProgramState::BlockedOnRecv
}

/// The state after `make_ready(name)` (see there).
pub open spec fn made_ready(state: StateView, name: &'static str) -> StateView {
    if state.programs.contains_key(name@) {
        let program = state.programs[name@];
        StateView {
            programs: state.programs.insert(name@, notified(program)),
            ready_queue: if notification_wakes(program) {
                state.ready_queue.push(name)
            } else {
                state.ready_queue
            },
            ..state
        }
    } else {
        state
    }
}

/// Every binding of the program named `name` has a handle that the
/// program's tag generator handed out before `next_tag`.
pub open spec fn fresh_for(irqs: Map<u32, IrqBinding>, name: Seq<char>, next_tag: u64) -> bool {
    forall|id: u32|
        #[trigger] irqs.contains_key(id) && irqs[id].program@ == name ==> irqs[id].irq_handle.0.0
            < next_tag
}

/// The handles of the live bindings are tags that their programs handed
/// out: the running program's below `running_next_tag`, the next tag of its
/// generator, and each inactive program's below its own next tag; the
/// running program is not also among the inactive ones.
pub open spec fn handles_fresh(state: StateView, running_next_tag: u64) -> bool {
    &&& !state.programs.contains_key(state.current_program@)
    &&& fresh_for(state.irqs, state.current_program@, running_next_tag)
    &&& forall|name: Seq<char>|
        #[trigger] state.programs.contains_key(name) ==> fresh_for(
            state.irqs,
            name,
            state.programs[name].next_tag,
        )
}

/// Putting a program whose bindings are fresh into the table of inactive
/// programs keeps the handles fresh.
pub proof fn lemma_insert_keeps_fresh(
    state: StateView,
    running_next_tag: u64,
    name: Seq<char>,
    program: ProgramView,
)
    requires
        handles_fresh(state, running_next_tag),
        name != state.current_program@,
        fresh_for(state.irqs, name, program.next_tag),
    ensures
        handles_fresh(
            StateView { programs: state.programs.insert(name, program), ..state },
            running_next_tag,
        ),
{
}

/// Notifying a program keeps the handles fresh: no tag generator moves.
pub proof fn lemma_notify_keeps_fresh(state: StateView, running_next_tag: u64, name: &'static str)
    requires
        handles_fresh(state, running_next_tag),
    ensures
        handles_fresh(notified_in(state, name), running_next_tag),
        handles_fresh(made_ready(state, name), running_next_tag),
{
    if state.programs.contains_key(name@) {
        let program = state.programs[name@];
        assert(state.programs.contains_key(name@));
        lemma_insert_keeps_fresh(state, running_next_tag, name@, with_notification(program));
        lemma_insert_keeps_fresh(state, running_next_tag, name@, notified(program));
        let by_notify = StateView {
            programs: state.programs.insert(name@, with_notification(program)),
            ..state
        };
        let by_make_ready = StateView {
            programs: state.programs.insert(name@, notified(program)),
            ..state
        };
        assert(handles_fresh(by_notify, running_next_tag));
        assert(handles_fresh(by_make_ready, running_next_tag));
    }
}

impl DaedalusState {
    /// The state at the start of `current_phase`: its program is the
    /// running one, holding the regions and handles of its minted `grants`
    /// and no pending reply; no program
    /// is inactive, nothing is queued, no message waits and no interrupt is
    /// bound.
    pub fn new(current_phase: Phase, grants: &[MintedGrant]) -> (state: DaedalusState)
        ensures
            state@ == (StateView {
                current_phase,
                current_program: current_phase.program,
                pending_replies: Map::empty(),
                inbox: Seq::empty(),
                programs: Map::empty(),
                ready_queue: Seq::empty(),
                regions: regions_map(grants@),
                named_grants: grants_map(grants@),
                irqs: Map::empty(),
            }),
            forall|running_next_tag: u64| #[trigger] handles_fresh(state@, running_next_tag),
    {
        let (named_grants, regions) = minted_tables(grants);
        let state = DaedalusState {
            current_phase,
            current_program: current_phase.program,
            pending_replies: ReplyTable::new(),
            inbox: VecDeque::new(),
            programs: ProgramTable::new(),
            ready_queue: VecDeque::new(),
            regions,
            named_grants,
            irqs: IrqTable::new(),
        };
        proof {
            assert(programs_view(state.programs) =~= Map::empty());
        }
        state
    }

    /// The inactive program named `name`, if there is one.
    pub fn inactive_program(&self, name: &str) -> (program: Option<&InactiveProgram>)
        ensures
            program is Some <==> self@.programs.contains_key(name@),
            program matches Some(p) ==> p@ == self@.programs[name@],
    {
        self.programs.get(name)
    }

    /// Ensures that the program `name` exists and is ready if it can be.
    ///
    /// An existing program that is not ready is notified: a notification
    /// goes to its inbox, since a program blocked on `recv` expects a
    /// message there, and if that wakes it, it is queued to run. A program
    /// that does not exist yet is reported as `Spawn`, to be created from
    /// its image and admitted.
    pub fn make_ready(&mut self, name: &'static str) -> (found: MakeReady)
        ensures
            found == (if old(self)@.programs.contains_key(name@) {
                MakeReady::Present
            } else {
                MakeReady::Spawn
            }),
            final(self)@ == made_ready(old(self)@, name),
    {
        if !self.programs.contains_key(name) {
            return MakeReady::Spawn;
        }
        let ghost before = program_entries(self.programs);
        let mut program = self.programs.remove(name).unwrap();
        if program.state != ProgramState::Ready {
            // A blocked program expects a message in its inbox, so it is
            // notified through it.
            program.inbox.push_back(Message { tag: None, args: Value::Unit });
            if program.wake_recv() {
                self.ready_queue.push_back(name);
            }
        }
        self.programs.insert(name, program);
        proof {
            let old_view = before[name@]@;
            if old_view.state != ProgramState::Ready {
                assert(program@ == notified(old_view));
            }
            assert(programs_view(self.programs) =~= programs_view(old(self).programs).insert(
                name@,
                notified(old_view),
            ));
        }
        MakeReady::Present
    }

    /// Notifies the inactive program `name`, whatever its state: the
    /// notification goes to its inbox, and if it is blocked on `recv` it is
    /// woken by it and queued to run. Returns whether the program exists;
    /// if it does not, nothing changes.
    pub(crate) fn notify(&mut self, name: &'static str) -> (found: bool)
        ensures
            found == old(self)@.programs.contains_key(name@),
            final(self)@ == notified_in(old(self)@, name),
    {
        if !self.programs.contains_key(name) {
            return false;
        }
        let ghost before = program_entries(self.programs);
        let mut program = self.programs.remove(name).unwrap();
        program.inbox.push_back(Message { tag: None, args: Value::Unit });
        if program.wake_recv() {
            self.ready_queue.push_back(name);
        }
        self.programs.insert(name, program);
        proof {
            let old_view = before[name@]@;
            assert(program@ == with_notification(old_view));
            assert(programs_view(self.programs) =~= programs_view(old(self).programs).insert(
                name@,
                with_notification(old_view),
            ));
        }
        true
    }

    /// Admits the newly created `program` under `name` and queues it to
    /// run.
    pub fn admit_program(&mut self, name: &'static str, program: InactiveProgram)
        ensures
            final(self)@ == (StateView {
                programs: old(self)@.programs.insert(name@, program@),
                ready_queue: old(self)@.ready_queue.push(name),
                ..old(self)@
            }),
    {
        self.programs.insert(name, program);
        self.ready_queue.push_back(name);
        proof {
            assert(programs_view(self.programs) =~= programs_view(old(self).programs).insert(
                name@,
                program@,
            ));
        }
    }
}

} // verus!
