//! Memory regions granted to programs and the accesses made through them.
use vstd::prelude::*;

use crate::errors::DaedalusCapErrors;
use crate::values::Tag;

pub mod aarch64;
pub mod capabilities;
pub mod arch;

verus! {

/// The tag by which a program refers to one of its regions.
#[derive(Clone, Copy, Debug, PartialEq, Eq, Structural, Hash)]
pub struct RegionHandle(pub Tag);

/// Access permissions to a region: a set of read (`R`), write (`W`) and
/// execute (`X`) bits.
#[derive(Clone, Copy, Debug, PartialEq, Eq, Structural)]
pub struct RegionPermissions(pub u8);

/// Permission bits that do not exist.
#[derive(Clone, Copy, Debug, PartialEq, Eq, Structural)]
pub struct InvalidRegionPermissionBitsError(pub u8);

/// The kind of memory a region lies in.
#[derive(Clone, Copy, Debug, PartialEq, Eq, Structural)]
pub enum RegionMemKind {
    /// Device memory, accessed exactly as the program asks.
    Device,
    /// Normal memory.
    Memory,
}

/// The read permission bit.
pub const PERM_R: u8 = 0b001;

/// The write permission bit.
pub const PERM_W: u8 = 0b010;

/// The execute permission bit.
pub const PERM_X: u8 = 0b100;

/// Every permission bit in `need` is held in `held`.
pub open spec fn perms_contain(held: RegionPermissions, need: RegionPermissions) -> bool {
    held.0 & need.0 == need.0
}

impl RegionPermissions {
    /// Read permission alone.
    pub fn r() -> (perms: RegionPermissions)
        ensures
            perms == RegionPermissions(PERM_R),
    {
        RegionPermissions(PERM_R)
    }

    /// Write permission alone.
    pub fn w() -> (perms: RegionPermissions)
        ensures
            perms == RegionPermissions(PERM_W),
    {
        RegionPermissions(PERM_W)
    }

    /// Execute permission alone.
    pub fn x() -> (perms: RegionPermissions)
        ensures
            perms == RegionPermissions(PERM_X),
    {
        RegionPermissions(PERM_X)
    }

    /// Whether every permission in `need` is held by `self`.
    pub fn contains(&self, need: RegionPermissions) -> (held: bool)
        ensures
            held == perms_contain(*self, need),
    {
        self.0 & need.0 == need.0
    }

    /// The permissions with these bits, unless some of them are not
    /// permission bits.
    pub fn from_bits(bits: u8) -> (perms: Result<RegionPermissions, InvalidRegionPermissionBitsError>)
        ensures
            bits & !0b111u8 == 0 ==> perms == Ok::<_, InvalidRegionPermissionBitsError>(RegionPermissions(bits)),
            bits & !0b111u8 != 0 ==> perms == Err::<RegionPermissions, _>(InvalidRegionPermissionBitsError(bits)),
    {
        if bits & !0b111u8 == 0 {
            Ok(RegionPermissions(bits))
        } else {
            Err(InvalidRegionPermissionBitsError(bits))
        }
    }
}

/// Where the memory of `Daedalus` itself lies: from `start` up to, not
/// including, `end`.
#[derive(Clone, Copy, Debug, PartialEq, Eq, Structural)]
pub struct DaedalusExtent {
    pub start: usize,
    pub end: usize,
}

/// The range `[base, base + len)` meets the memory of `Daedalus` (the end
/// of the range saturating at the top of the address space).
pub open spec fn overlaps(base: usize, len: usize, daedalus: DaedalusExtent) -> bool {
    let region_end = if base + len > usize::MAX { usize::MAX as int } else { base + len };
    base < daedalus.end && daedalus.start < region_end
}

/// Whether the region starting at `base` with a length of `len` overlaps
/// the memory of `Daedalus`.
pub fn overlaps_daedalus(base: usize, len: usize, daedalus: DaedalusExtent) -> (overlap: bool)
    ensures
        overlap == overlaps(base, len, daedalus),
{
    base < daedalus.end && daedalus.start < base.saturating_add(len)
}

/// A region of memory that a program has access to: `len` bytes from
/// `base`, with some access permissions and a kind of memory.
#[derive(Clone, Copy, Debug)]
pub struct Region {
    base: usize,
    len: usize,
    perms: RegionPermissions,
    kind: RegionMemKind,
}

impl Region {
    /// The region's first address.
    pub closed spec fn base_spec(&self) -> usize {
        self.base
    }

    /// The region's length in bytes.
    pub closed spec fn len_spec(&self) -> usize {
        self.len
    }

    /// The region's permissions.
    pub closed spec fn perms_spec(&self) -> RegionPermissions {
        self.perms
    }

    /// The region's kind of memory.
    pub closed spec fn kind_spec(&self) -> RegionMemKind {
        self.kind
    }

    /// Every region lies within the address space.
    #[verifier::type_invariant]
    closed spec fn within_address_space(self) -> bool {
        self.base + self.len <= usize::MAX
    }

    /// The region's first address.
    pub fn base(&self) -> (base: usize)
        ensures
            base == self.base_spec(),
    {
        self.base
    }

    /// The region's length in bytes.
    pub fn len(&self) -> (len: usize)
        ensures
            len == self.len_spec(),
    {
        self.len
    }

    /// The region's permissions.
    pub fn perms(&self) -> (perms: RegionPermissions)
        ensures
            perms == self.perms_spec(),
    {
        self.perms
    }

    /// The region's kind of memory.
    pub fn kind(&self) -> (kind: RegionMemKind)
        ensures
            kind == self.kind_spec(),
    {
        self.kind
    }

    /// Creates the memory region of `len` bytes from `base` with `perms`
    /// and `kind`.
    ///
    /// The region must lie within the address space, and a writable region
    /// must not overlap the memory of `Daedalus`.
    pub fn new(
        base: usize,
        len: usize,
        perms: RegionPermissions,
        kind: RegionMemKind,
        daedalus: DaedalusExtent,
    ) -> (region: Result<Region, DaedalusCapErrors>)
        ensures
            base + len > usize::MAX ==> region == Err::<Region, _>(
                DaedalusCapErrors::RegionOverflow { base, len },
            ),
            base + len <= usize::MAX && perms_contain(perms, RegionPermissions(PERM_W)) && overlaps(
                base,
                len,
                daedalus,
            ) ==> region == Err::<Region, _>(DaedalusCapErrors::WritableOverDaedalus { base, len }),
            region is Ok <==> base + len <= usize::MAX && !(perms_contain(
                perms,
                RegionPermissions(PERM_W),
            ) && overlaps(base, len, daedalus)),
            region matches Ok(r) ==> r.base_spec() == base && r.len_spec() == len
                && r.perms_spec() == perms && r.kind_spec() == kind,
    {
        if base.checked_add(len).is_none() {
            return Err(DaedalusCapErrors::RegionOverflow { base, len });
        }
        if perms.contains(RegionPermissions::w()) && overlaps_daedalus(base, len, daedalus) {
            return Err(DaedalusCapErrors::WritableOverDaedalus { base, len });
        }
        Ok(Region { base, len, perms, kind })
    }
}

/// What resolving an access of `width` bytes at `offset` into `region`
/// with the permissions `need` gives: the address of the access, or the
/// first check that fails, in the order permissions, address-space
/// overflow, region bounds, alignment.
pub open spec fn resolution(
    region: Region,
    offset: usize,
    width: usize,
    need: RegionPermissions,
) -> Result<usize, DaedalusCapErrors> {
    if !perms_contain(region.perms_spec(), need) {
        Err(DaedalusCapErrors::PermissionDenied { need, held: region.perms_spec() })
    } else if offset + width > usize::MAX {
        Err(DaedalusCapErrors::AccessOverflow { offset, width })
    } else if offset + width > region.len_spec() {
        Err(DaedalusCapErrors::OutOfRegion { offset, width, len: region.len_spec() })
    } else if width != 0 && ((region.base_spec() + offset) as usize) % width != 0 {
        Err(
            DaedalusCapErrors::Misaligned {
                address: (region.base_spec() + offset) as usize,
                width,
            },
        )
    } else {
        Ok((region.base_spec() + offset) as usize)
    }
}

impl Region {
    /// Checks whether an access of `width` bytes at `offset` with the
    /// permissions `need` can be done within this region, and gives the
    /// address it is made at.
    pub fn resolve(&self, offset: usize, width: usize, need: RegionPermissions) -> (address:
        Result<usize, DaedalusCapErrors>)
        ensures
            address == resolution(*self, offset, width, need),
            address matches Ok(a) ==> {
                &&& perms_contain(self.perms_spec(), need)
                &&& self.base_spec() <= a
                &&& a + width <= self.base_spec() + self.len_spec()
                &&& width != 0 ==> a % width == 0
            },
    {
        proof {
            use_type_invariant(self);
        }
        // Make sure at least we have the permissions
        if !self.perms.contains(need) {
            return Err(DaedalusCapErrors::PermissionDenied { need, held: self.perms });
        }
        // The end of the access must lie within the region.
        let end = match offset.checked_add(width) {
            Some(end) => end,
            None => {
                return Err(DaedalusCapErrors::AccessOverflow { offset, width });
            },
        };
        if end > self.len {
            return Err(DaedalusCapErrors::OutOfRegion { offset, width, len: self.len });
        }
        // The address must be aligned to the width of the access.
        if width != 0 && (self.base + offset) % width != 0 {
            return Err(DaedalusCapErrors::Misaligned { address: self.base + offset, width });
        }
        Ok(self.base + offset)
    }
}

/// The address `a` lies in the range from `start` up to, not including,
/// `end`.
pub open spec fn in_range(start: int, end: int, a: int) -> bool {
    start <= a < end
}

/// A region of some length overlaps the memory of `Daedalus` exactly when
/// the two share an address; an empty region overlaps it when it starts
/// strictly inside it. (`Daedalus` takes up some memory: its start lies
/// below its end.)
pub proof fn lemma_overlap_is_a_shared_address(base: usize, len: usize, daedalus: DaedalusExtent)
    requires
        daedalus.start < daedalus.end,
    ensures
        len == 0 ==> (overlaps(base, len, daedalus) <==> daedalus.start < base < daedalus.end),
        len > 0 ==> (overlaps(base, len, daedalus) <==> exists|a: int|
            #![trigger in_range(base as int, base + len, a), in_range(daedalus.start as int, daedalus.end as int, a)]
            in_range(base as int, base + len, a) && in_range(
                daedalus.start as int,
                daedalus.end as int,
                a,
            )),
{
    let first: int = if base < daedalus.start {
        daedalus.start as int
    } else {
        base as int
    };
    if len > 0 && overlaps(base, len, daedalus) {
        assert(in_range(base as int, base + len, first) && in_range(
            daedalus.start as int,
            daedalus.end as int,
            first,
        ));
    }
}

/// An access succeeds exactly when the region's permissions hold those it
/// needs, it lies within the region, and it is aligned to its width; it is
/// then made at the region's base plus the offset.
pub proof fn lemma_resolution_succeeds(
    region: Region,
    offset: usize,
    width: usize,
    need: RegionPermissions,
)
    requires
        region.base_spec() + region.len_spec() <= usize::MAX,
    ensures
        resolution(region, offset, width, need) is Ok <==> {
            &&& region.perms_spec().0 & need.0 == need.0
            &&& offset + width <= region.len_spec()
            &&& width == 0 || (region.base_spec() + offset) % (width as int) == 0
        },
        resolution(region, offset, width, need) is Ok ==> resolution(region, offset, width, need)
            == Ok::<usize, DaedalusCapErrors>((region.base_spec() + offset) as usize),
{
}

} // verus!
