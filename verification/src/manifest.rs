//! The boot manifest embedded into `Daedalus`: its programs, its boot
//! phases and the interrupts each program declares, with the lookups into
//! them by name.
use vstd::prelude::*;

use crate::irq::{InterruptPriority, InterruptTrigger};

verus! {

/// `<str as PartialEq>::eq`: two names are equal exactly when they hold the
/// same characters.
#[verifier::external_body]
pub(crate) fn same_name(a: &str, b: &str) -> (same: bool)
    ensures
        same == (a@ == b@),
{
    a == b
}

/// A boot phase: it runs `program`, and when that program finishes, the
/// phase named `next` follows.
#[derive(Clone, Copy, Debug, PartialEq, Eq)]
pub struct Phase {
    pub name: &'static str,
    pub program: &'static str,
    pub next: &'static str,
}

/// An interrupt that a program's manifest declares, with the trigger mode
/// and priority it is configured with.
#[derive(Clone, Copy, Debug, PartialEq, Eq)]
pub struct InterruptDeclaration {
    pub program: &'static str,
    pub interrupt_id: u32,
    pub trigger: InterruptTrigger,
    pub priority: InterruptPriority,
}

/// The index of the first phase named `name`, if any.
pub open spec fn phase_index(phases: Seq<Phase>, name: Seq<char>) -> Option<int>
    decreases phases.len(),
{
    if phases.len() == 0 {
        None
    } else if phases.last().name@ == name {
        match phase_index(phases.drop_last(), name) {
            Some(i) => Some(i),
            None => Some(phases.len() - 1),
        }
    } else {
        phase_index(phases.drop_last(), name)
    }
}

/// The first phase named `name`, if any.
pub open spec fn phase_named(phases: Seq<Phase>, name: Seq<char>) -> Option<Phase> {
    match phase_index(phases, name) {
        Some(i) => Some(phases[i]),
        None => None,
    }
}

proof fn lemma_phase_index_step(phases: Seq<Phase>, name: Seq<char>, i: int)
    requires
        0 <= i < phases.len(),
        forall|j: int| 0 <= j < i ==> phases[j].name@ != name,
    ensures
        phase_index(phases.subrange(0, i + 1), name) == if phases[i].name@ == name {
            Some(i)
        } else {
            None::<int>
        },
    decreases i,
{
    let s = phases.subrange(0, i + 1);
    assert(s.drop_last() =~= phases.subrange(0, i));
    if i > 0 {
        lemma_phase_index_step(phases, name, i - 1);
        assert(phases.subrange(0, i) =~= phases.subrange(0, i - 1 + 1));
    } else {
        assert(phases.subrange(0, 0).len() == 0);
    }
}

/// Looks up the boot phase named `name`.
pub fn get_phase(phases: &[Phase], name: &str) -> (phase: Option<Phase>)
    ensures
        phase == phase_named(phases@, name@),
{
    let mut i: usize = 0;
    while i < phases.len()
        invariant
            i <= phases@.len(),
            forall|j: int| 0 <= j < i ==> phases@[j].name@ != name@,
        decreases phases@.len() - i,
    {
        if same_name(phases[i].name, name) {
            proof {
                lemma_phase_index_step(phases@, name@, i as int);
                lemma_phase_index_prefix(phases@, name@, i as int);
            }
            return Some(phases[i]);
        }
        i = i + 1;
    }
    proof {
        lemma_phase_index_none(phases@, name@);
    }
    None
}

proof fn lemma_phase_index_prefix(phases: Seq<Phase>, name: Seq<char>, i: int)
    requires
        0 <= i < phases.len(),
        phase_index(phases.subrange(0, i + 1), name) == Some(i),
    ensures
        phase_index(phases, name) == Some(i),
    decreases phases.len(),
{
    if phases.len() > i + 1 {
        assert(phases.drop_last().subrange(0, i + 1) =~= phases.subrange(0, i + 1));
        lemma_phase_index_prefix(phases.drop_last(), name, i);
    } else {
        assert(phases.subrange(0, i + 1) =~= phases);
    }
}

proof fn lemma_phase_index_none(phases: Seq<Phase>, name: Seq<char>)
    requires
        forall|j: int| 0 <= j < phases.len() ==> phases[j].name@ != name,
    ensures
        phase_index(phases, name) is None,
    decreases phases.len(),
{
    if phases.len() > 0 {
        lemma_phase_index_none(phases.drop_last(), name);
    }
}

/// The interrupt declarations of `program` for `interrupt_id`.
pub open spec fn declares(declaration: InterruptDeclaration, program: Seq<char>, interrupt_id: u32) -> bool {
    declaration.program@ == program && declaration.interrupt_id == interrupt_id
}

/// Looks up the declaration, in the manifest of `program`, of the interrupt
/// `interrupt_id`: the first such declaration, if there is one.
pub fn find_program_interrupt_under_id(
    declarations: &[InterruptDeclaration],
    program: &str,
    interrupt_id: u32,
) -> (found: Option<InterruptDeclaration>)
    ensures
        found matches Some(d) ==> exists|i: int|
            0 <= i < declarations@.len() && declarations@[i] == d && declares(d, program@, interrupt_id)
                && forall|j: int| 0 <= j < i ==> !declares(#[trigger] declarations@[j], program@, interrupt_id),
        found is None <==> forall|i: int|
            0 <= i < declarations@.len() ==> !declares(#[trigger] declarations@[i], program@, interrupt_id),
{
    let mut i: usize = 0;
    while i < declarations.len()
        invariant
            i <= declarations@.len(),
            forall|j: int| 0 <= j < i ==> !declares(#[trigger] declarations@[j], program@, interrupt_id),
        decreases declarations@.len() - i,
    {
        let declaration = declarations[i];
        if declaration.interrupt_id == interrupt_id && same_name(declaration.program, program) {
            return Some(declaration);
        }
        i = i + 1;
    }
    None
}

} // verus!
