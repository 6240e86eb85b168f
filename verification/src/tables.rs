//! The hash tables of the library, kept in `hashbrown` maps.
//!
//! Each table is a struct of this library holding a private
//! `hashbrown::HashMap`; its contents are given a name and every map
//! operation that the library uses is a wrapper whose contract says, over
//! that name, what the map operation does.
use vstd::prelude::*;

use crate::irq::IrqBinding;
use crate::memory::{Region, RegionHandle};
use crate::program::{CallAssociation, InactiveProgram};

verus! {

/// The forwarding table of a migration: for each heap index already
/// copied out of the source heap, the index of its copy in the destination.
#[verifier::external_body]
pub struct ForwardingTable {
    map: hashbrown::HashMap<usize, usize>,
}

/// What a forwarding table holds.
pub uninterp spec fn forwarding_entries(table: ForwardingTable) -> Map<usize, usize>;

impl ForwardingTable {
    /// `hashbrown::HashMap::new`: the new map holds no entries.
    #[verifier::external_body]
    pub(crate) fn new() -> (table: ForwardingTable)
        ensures
            forwarding_entries(table) =~= Map::empty(),
    {
        ForwardingTable { map: hashbrown::HashMap::new() }
    }

    /// `hashbrown::HashMap::get`, the value copied out: the entry under
    /// `key` if there is one.
    #[verifier::external_body]
    pub(crate) fn get(&self, key: usize) -> (found: Option<usize>)
        ensures
            found == forwarding_entries(*self).get(key),
    {
        self.map.get(&key).copied()
    }

    /// `hashbrown::HashMap::insert`: the map afterwards holds `value` under
    /// `key` and is otherwise unchanged; the previous entry under `key` is
    /// returned.
    #[verifier::external_body]
    pub(crate) fn insert(&mut self, key: usize, value: usize) -> (previous: Option<usize>)
        ensures
            forwarding_entries(*final(self)) == forwarding_entries(*old(self)).insert(key, value),
            previous == forwarding_entries(*old(self)).get(key),
    {
        self.map.insert(key, value)
    }
}


/// The IRQ bindings: for each bound interrupt ID, the binding to the
/// program that receives it.
#[verifier::external_body]
pub struct IrqTable {
    map: hashbrown::HashMap<u32, IrqBinding>,
}

/// What an IRQ table holds.
pub uninterp spec fn irq_entries(table: IrqTable) -> Map<u32, IrqBinding>;

impl IrqTable {
    /// `hashbrown::HashMap::new`: the new map holds no entries.
    #[verifier::external_body]
    pub(crate) fn new() -> (table: IrqTable)
        ensures
            irq_entries(table) =~= Map::empty(),
    {
        IrqTable { map: hashbrown::HashMap::new() }
    }

    /// `hashbrown::HashMap::get`, the binding copied out: the entry under
    /// `interrupt_id` if there is one.
    #[verifier::external_body]
    pub(crate) fn get(&self, interrupt_id: u32) -> (found: Option<IrqBinding>)
        ensures
            found == irq_entries(*self).get(interrupt_id),
    {
        self.map.get(&interrupt_id).copied()
    }

    /// `hashbrown::HashMap::insert`: the map afterwards holds `binding`
    /// under `interrupt_id` and is otherwise unchanged; the previous entry
    /// is returned.
    #[verifier::external_body]
    pub(crate) fn insert(&mut self, interrupt_id: u32, binding: IrqBinding) -> (previous: Option<IrqBinding>)
        ensures
            irq_entries(*final(self)) == irq_entries(*old(self)).insert(interrupt_id, binding),
            previous == irq_entries(*old(self)).get(interrupt_id),
    {
        self.map.insert(interrupt_id, binding)
    }

    /// `hashbrown::HashMap::remove`: the map afterwards holds no entry
    /// under `interrupt_id` and is otherwise unchanged; the removed entry
    /// is returned.
    #[verifier::external_body]
    pub(crate) fn remove(&mut self, interrupt_id: u32) -> (removed: Option<IrqBinding>)
        ensures
            irq_entries(*final(self)) == irq_entries(*old(self)).remove(interrupt_id),
            removed == irq_entries(*old(self)).get(interrupt_id),
    {
        self.map.remove(&interrupt_id)
    }

    /// `hashbrown::HashMap::iter`, each entry copied out: every entry of
    /// the map exactly once, in an order the map does not promise.
    #[verifier::external_body]
    pub(crate) fn entries(&self) -> (entries: Vec<(u32, IrqBinding)>)
        ensures
            forall|i: int|
                0 <= i < entries@.len() ==> irq_entries(*self).get(#[trigger] entries@[i].0) == Some(
                    entries@[i].1,
                ),
            forall|i: int, j: int|
                0 <= i < entries@.len() && 0 <= j < entries@.len() && i != j ==> #[trigger] entries@[i].0
                    != #[trigger] entries@[j].0,
            forall|id: u32|
                #[trigger] irq_entries(*self).contains_key(id) ==> exists|i: int|
                    0 <= i < entries@.len() && #[trigger] entries@[i].0 == id,
    {
        self.map.iter().map(|(id, binding)| (*id, *binding)).collect()
    }
}

/// The programs that are not running, by name.
#[verifier::external_body]
pub struct ProgramTable {
    map: hashbrown::HashMap<&'static str, InactiveProgram>,
}

/// What a program table holds, by the characters of each name.
pub uninterp spec fn program_entries(table: ProgramTable) -> Map<Seq<char>, InactiveProgram>;

impl ProgramTable {
    /// `hashbrown::HashMap::new`: the new map holds no entries.
    #[verifier::external_body]
    pub(crate) fn new() -> (table: ProgramTable)
        ensures
            program_entries(table) =~= Map::empty(),
    {
        ProgramTable { map: hashbrown::HashMap::new() }
    }

    /// `hashbrown::HashMap::contains_key`: whether a program is held
    /// under `name`.
    #[verifier::external_body]
    pub(crate) fn contains_key(&self, name: &str) -> (held: bool)
        ensures
            held == program_entries(*self).contains_key(name@),
    {
        self.map.contains_key(name)
    }

    /// `hashbrown::HashMap::get`: the program held under `name`, if any.
    #[verifier::external_body]
    pub(crate) fn get(&self, name: &str) -> (found: Option<&InactiveProgram>)
        ensures
            found is Some <==> program_entries(*self).contains_key(name@),
            found matches Some(p) ==> *p == program_entries(*self)[name@],
    {
        self.map.get(name)
    }

    /// `hashbrown::HashMap::insert`: the map afterwards holds `program`
    /// under `name` and is otherwise unchanged; the previous entry is
    /// returned.
    #[verifier::external_body]
    pub(crate) fn insert(&mut self, name: &'static str, program: InactiveProgram) -> (previous: Option<
        InactiveProgram,
    >)
        ensures
            program_entries(*final(self)) == program_entries(*old(self)).insert(name@, program),
            previous == program_entries(*old(self)).get(name@),
    {
        self.map.insert(name, program)
    }

    /// `hashbrown::HashMap::remove`: the map afterwards holds nothing under
    /// `name` and is otherwise unchanged; the removed entry is returned.
    #[verifier::external_body]
    pub(crate) fn remove(&mut self, name: &str) -> (removed: Option<InactiveProgram>)
        ensures
            program_entries(*final(self)) == program_entries(*old(self)).remove(name@),
            removed == program_entries(*old(self)).get(name@),
    {
        self.map.remove(name)
    }
}

/// The named grants of a program: for each grant role, the handle of the
/// region it was granted.
#[verifier::external_body]
pub struct GrantTable {
    map: hashbrown::HashMap<&'static str, RegionHandle>,
}

/// What a grant table holds, by the characters of each role.
pub uninterp spec fn grant_entries(table: GrantTable) -> Map<Seq<char>, RegionHandle>;

impl GrantTable {
    /// `hashbrown::HashMap::new`: the new map holds no entries.
    #[verifier::external_body]
    pub(crate) fn new() -> (table: GrantTable)
        ensures
            grant_entries(table) =~= Map::empty(),
    {
        GrantTable { map: hashbrown::HashMap::new() }
    }

    /// `hashbrown::HashMap::get`, the handle copied out: the entry under
    /// `role` if there is one.
    #[verifier::external_body]
    pub(crate) fn get(&self, role: &str) -> (found: Option<RegionHandle>)
        ensures
            found == grant_entries(*self).get(role@),
    {
        self.map.get(role).copied()
    }

    /// `hashbrown::HashMap::insert`: the map afterwards holds `handle`
    /// under `role` and is otherwise unchanged; the previous entry is
    /// returned.
    #[verifier::external_body]
    pub(crate) fn insert(&mut self, role: &'static str, handle: RegionHandle) -> (previous: Option<
        RegionHandle,
    >)
        ensures
            grant_entries(*final(self)) == grant_entries(*old(self)).insert(role@, handle),
            previous == grant_entries(*old(self)).get(role@),
    {
        self.map.insert(role, handle)
    }
}

/// The regions of a program: for each region handle, by the value of its
/// tag, the region it refers to.
#[verifier::external_body]
pub struct RegionTable {
    map: hashbrown::HashMap<u64, Region>,
}

/// What a region table holds.
pub uninterp spec fn region_entries(table: RegionTable) -> Map<u64, Region>;

impl RegionTable {
    /// `hashbrown::HashMap::new`: the new map holds no entries.
    #[verifier::external_body]
    pub(crate) fn new() -> (table: RegionTable)
        ensures
            region_entries(table) =~= Map::empty(),
    {
        RegionTable { map: hashbrown::HashMap::new() }
    }

    /// `hashbrown::HashMap::insert`: the map afterwards holds `region`
    /// under `tag` and is otherwise unchanged; the previous entry is
    /// returned.
    #[verifier::external_body]
    pub(crate) fn insert(&mut self, tag: u64, region: Region) -> (previous: Option<Region>)
        ensures
            region_entries(*final(self)) == region_entries(*old(self)).insert(tag, region),
            previous == region_entries(*old(self)).get(tag),
    {
        self.map.insert(tag, region)
    }
}

/// The calls a program was made and has not replied to yet: for each call
/// tag, by the value of its tag, where the reply goes.
#[verifier::external_body]
pub struct ReplyTable {
    map: hashbrown::HashMap<u64, CallAssociation>,
}

/// What a reply table holds.
pub uninterp spec fn reply_entries(table: ReplyTable) -> Map<u64, CallAssociation>;

impl ReplyTable {
    /// `hashbrown::HashMap::new`: the new map holds no entries.
    #[verifier::external_body]
    pub(crate) fn new() -> (table: ReplyTable)
        ensures
            reply_entries(table) =~= Map::empty(),
    {
        ReplyTable { map: hashbrown::HashMap::new() }
    }
}

} // verus!
