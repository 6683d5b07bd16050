//! The fixed memory arena.
//!
//! The arena is a byte range set aside for the kernel's long-lived objects.
//! Regions are carved from it one behind the other, each for one object.
//! Claiming a region places an object in it for good: there is no way to
//! release a region, a region is claimed at most once, and an object that
//! does not fit is refused rather than cut short.

use vstd::prelude::*;

verus! {

/// A byte range reserved for one kernel object.
#[derive(Clone, Copy, Debug, PartialEq, Eq, Structural)]
pub struct MemoryRegion {
    /// Which of the arena's regions this is, counting from zero.
    pub index: usize,
    /// Address of the first byte.
    pub base: usize,
    /// Number of bytes.
    pub capacity: usize,
}

/// The permanent handle to an object that was placed in a region.
#[derive(Clone, Copy, Debug, PartialEq, Eq, Structural)]
pub struct ObjectHandle {
    /// Index of the region that holds the object.
    pub region: usize,
    /// Address of the object.
    pub address: usize,
    /// Size of the object in bytes.
    pub size: usize,
}

/// Why the arena refused a request.
#[derive(Clone, Copy, Debug, PartialEq, Eq, Structural)]
pub enum ArenaError {
    /// The arena has too few bytes left for the region.
    OutOfSpace,
    /// The region is not one that this arena reserved.
    UnknownRegion,
    /// The region already holds an object.
    AlreadyClaimed,
    /// The object is larger than the region.
    TooLarge,
}

/// One region of the arena together with the size of the object in it, if it
/// has been claimed.
#[derive(Clone, Copy, Debug, PartialEq, Eq, Structural)]
pub struct Slot {
    /// Address of the region's first byte.
    pub base: usize,
    /// Number of bytes in the region.
    pub capacity: usize,
    /// Size of the object that the region holds, or `None` while it is
    /// unclaimed.
    pub occupant: Option<usize>,
}

/// The arena as a mathematical value.
pub struct ArenaView {
    /// Address of the arena's first byte.
    pub base: usize,
    /// Number of bytes in the arena.
    pub size: usize,
    /// The regions reserved so far, in the order of their addresses.
    pub slots: Seq<Slot>,
}

impl ArenaView {
    /// Address just behind the last reserved region.
    pub open spec fn next_free(self) -> int {
        if self.slots.len() == 0 {
            self.base as int
        } else {
            self.slots.last().base + self.slots.last().capacity
        }
    }

    /// The arena lies within the address space, its regions follow one
    /// another without gap from its base and stay inside it, and an object
    /// fits the region that holds it.
    pub open spec fn wf(self) -> bool {
        &&& self.base + self.size <= usize::MAX
        &&& self.slots.len() > 0 ==> self.slots[0].base == self.base
        &&& forall|i: int|
            0 < i < self.slots.len() ==> (#[trigger] self.slots[i]).base == self.slots[i - 1].base
                + self.slots[i - 1].capacity
        &&& self.next_free() <= self.base + self.size
        &&& forall|i: int|
            0 <= i < self.slots.len() ==> ((#[trigger] self.slots[i]).occupant matches Some(size)
                ==> size <= self.slots[i].capacity)
    }

    /// The region with index `i`.
    pub open spec fn region(self, i: int) -> MemoryRegion {
        MemoryRegion { index: i as usize, base: self.slots[i].base, capacity: self.slots[i].capacity }
    }

    /// Whether `region` is one of this arena's regions.
    pub open spec fn owns(self, region: MemoryRegion) -> bool {
        region.index < self.slots.len() && self.region(region.index as int) == region
    }

    /// Whether `region` is one of this arena's regions and holds an object.
    pub open spec fn is_claimed(self, region: MemoryRegion) -> bool {
        self.owns(region) && self.slots[region.index as int].occupant.is_some()
    }

    /// Outcome of reserving `byte_size` bytes: the region, or why there is
    /// none.
    pub open spec fn reserve_result(self, byte_size: usize) -> Result<MemoryRegion, ArenaError> {
        if self.next_free() + byte_size <= self.base + self.size {
            Ok(
                MemoryRegion {
                    index: self.slots.len() as usize,
                    base: self.next_free() as usize,
                    capacity: byte_size,
                },
            )
        } else {
            Err(ArenaError::OutOfSpace)
        }
    }

    /// The arena after reserving `byte_size` bytes.
    pub open spec fn reserve(self, byte_size: usize) -> ArenaView {
        match self.reserve_result(byte_size) {
            Ok(region) => ArenaView {
                slots: self.slots.push(
                    Slot { base: region.base, capacity: region.capacity, occupant: None },
                ),
                ..self
            },
            Err(_) => self,
        }
    }

    /// Outcome of claiming `region` for an object of `object_size` bytes: the
    /// object's handle, or why the claim is refused.
    pub open spec fn claim_result(self, region: MemoryRegion, object_size: usize) -> Result<
        ObjectHandle,
        ArenaError,
    > {
        if !self.owns(region) {
            Err(ArenaError::UnknownRegion)
        } else if self.is_claimed(region) {
            Err(ArenaError::AlreadyClaimed)
        } else if object_size > region.capacity {
            Err(ArenaError::TooLarge)
        } else {
            Ok(ObjectHandle { region: region.index, address: region.base, size: object_size })
        }
    }

    /// The arena after claiming `region` for an object of `object_size`
    /// bytes. A refused claim changes nothing.
    pub open spec fn claim(self, region: MemoryRegion, object_size: usize) -> ArenaView {
        match self.claim_result(region, object_size) {
            Ok(_) => ArenaView {
                slots: self.slots.update(
                    region.index as int,
                    Slot { occupant: Some(object_size), ..self.slots[region.index as int] },
                ),
                ..self
            },
            Err(_) => self,
        }
    }
}

/// Two regions of a valid arena do not share a byte, and each lies inside the
/// arena.
pub proof fn lemma_regions_disjoint(arena: ArenaView, i: int, j: int)
    requires
        arena.wf(),
        0 <= i < j < arena.slots.len(),
    ensures
        arena.base <= arena.slots[i].base,
        arena.slots[i].base + arena.slots[i].capacity <= arena.slots[j].base,
        arena.slots[j].base + arena.slots[j].capacity <= arena.base + arena.size,
    decreases arena.slots.len() - i,
{
    lemma_region_bounds(arena, i);
    lemma_region_bounds(arena, j);
    if i + 1 < j {
        lemma_regions_disjoint(arena, i + 1, j);
        assert(arena.slots[i + 1].base == arena.slots[i].base + arena.slots[i].capacity);
    } else {
        assert(arena.slots[j].base == arena.slots[j - 1].base + arena.slots[j - 1].capacity);
    }
}

/// A region of a valid arena lies inside the arena.
pub proof fn lemma_region_bounds(arena: ArenaView, i: int)
    requires
        arena.wf(),
        0 <= i < arena.slots.len(),
    ensures
        arena.base <= arena.slots[i].base,
        arena.slots[i].base + arena.slots[i].capacity <= arena.base + arena.size,
    decreases arena.slots.len() - i,
{
    if i > 0 {
        lemma_region_start(arena, i);
    }
    if i + 1 < arena.slots.len() {
        lemma_region_bounds(arena, i + 1);
        assert(arena.slots[i + 1].base == arena.slots[i].base + arena.slots[i].capacity);
    }
}

/// No region of a valid arena starts below the arena's base.
proof fn lemma_region_start(arena: ArenaView, i: int)
    requires
        arena.wf(),
        0 <= i < arena.slots.len(),
    ensures
        arena.base <= arena.slots[i].base,
    decreases i,
{
    if i > 0 {
        lemma_region_start(arena, i - 1);
        assert(arena.slots[i].base == arena.slots[i - 1].base + arena.slots[i - 1].capacity);
    }
}

/// A region that was claimed cannot be claimed again: the second claim is
/// refused as [`ArenaError::AlreadyClaimed`], whatever the object, and leaves
/// the arena as it was.
pub proof fn lemma_claimed_once(
    arena: ArenaView,
    region: MemoryRegion,
    first_size: usize,
    second_size: usize,
)
    requires
        arena.wf(),
        arena.claim_result(region, first_size).is_ok(),
    ensures
        arena.claim(region, first_size).wf(),
        arena.claim(region, first_size).claim_result(region, second_size) == Err::<
            ObjectHandle,
            ArenaError,
        >(ArenaError::AlreadyClaimed),
        arena.claim(region, first_size).claim(region, second_size) == arena.claim(
            region,
            first_size,
        ),
{
    lemma_claim_wf(arena, region, first_size);
}

/// Claiming keeps the arena valid.
pub proof fn lemma_claim_wf(arena: ArenaView, region: MemoryRegion, object_size: usize)
    requires
        arena.wf(),
    ensures
        arena.claim(region, object_size).wf(),
{
    let after = arena.claim(region, object_size);
    if arena.claim_result(region, object_size).is_ok() {
        assert forall|i: int| 0 < i < after.slots.len() implies (#[trigger] after.slots[i]).base
            == after.slots[i - 1].base + after.slots[i - 1].capacity by {
            assert(arena.slots[i].base == arena.slots[i - 1].base + arena.slots[i - 1].capacity);
        }
        assert forall|i: int| 0 <= i < after.slots.len() implies ((
        #[trigger] after.slots[i]).occupant matches Some(size) ==> size
            <= after.slots[i].capacity) by {
            if i != region.index {
                assert(after.slots[i] == arena.slots[i]);
            }
        }
    }
}

/// Reserving keeps the arena valid.
pub proof fn lemma_reserve_wf(arena: ArenaView, byte_size: usize)
    requires
        arena.wf(),
    ensures
        arena.reserve(byte_size).wf(),
{
    let after = arena.reserve(byte_size);
    if arena.reserve_result(byte_size).is_ok() {
        assert forall|i: int| 0 < i < after.slots.len() implies (#[trigger] after.slots[i]).base
            == after.slots[i - 1].base + after.slots[i - 1].capacity by {
            if i < arena.slots.len() {
                assert(arena.slots[i].base == arena.slots[i - 1].base + arena.slots[i
                    - 1].capacity);
            }
        }
        assert forall|i: int| 0 <= i < after.slots.len() implies ((
        #[trigger] after.slots[i]).occupant matches Some(size) ==> size
            <= after.slots[i].capacity) by {
            if i < arena.slots.len() {
                assert(after.slots[i] == arena.slots[i]);
            }
        }
    }
}

/// The fixed memory arena.
pub struct Arena {
    base: usize,
    size: usize,
    slots: Vec<Slot>,
}

impl View for Arena {
    type V = ArenaView;

    closed spec fn view(&self) -> ArenaView {
        ArenaView { base: self.base, size: self.size, slots: self.slots@ }
    }
}

impl Arena {
    /// An arena of `size` bytes at address `base` without regions, or `None`
    /// when such a range does not lie within the address space.
    pub fn new(base: usize, size: usize) -> (arena: Option<Arena>)
        ensures
            arena.is_some() <==> base + size <= usize::MAX,
            arena matches Some(a) ==> a@.wf() && a@ == (ArenaView {
                base,
                size,
                slots: Seq::empty(),
            }),
    {
        if size > usize::MAX - base {
            return None;
        }
        Some(Arena { base, size, slots: Vec::new() })
    }

    /// Number of regions reserved so far.
    pub fn region_count(&self) -> (count: usize)
        ensures
            count == self@.slots.len(),
    {
        self.slots.len()
    }

    /// Whether `region` is one of this arena's regions and holds an object.
    pub fn is_claimed(&self, region: MemoryRegion) -> (claimed: bool)
        ensures
            claimed == self@.is_claimed(region),
    {
        region.index < self.slots.len() && self.slots[region.index].base == region.base
            && self.slots[region.index].capacity == region.capacity
            && self.slots[region.index].occupant.is_some()
    }

    /// Reserves the next `byte_size` bytes of the arena as a region. Fails
    /// with [`ArenaError::OutOfSpace`], and changes nothing, when fewer bytes
    /// are left.
    pub fn reserve(&mut self, byte_size: usize) -> (region: Result<MemoryRegion, ArenaError>)
        requires
            old(self)@.wf(),
        ensures
            region == old(self)@.reserve_result(byte_size),
            final(self)@ == old(self)@.reserve(byte_size),
            final(self)@.wf(),
    {
        proof {
            lemma_reserve_wf(self@, byte_size);
        }
        let count: usize = self.slots.len();
        let next_free: usize = if count == 0 {
            self.base
        } else {
            self.slots[count - 1].base + self.slots[count - 1].capacity
        };
        let limit: usize = self.base + self.size;
        if byte_size > limit - next_free {
            return Err(ArenaError::OutOfSpace);
        }
        self.slots.push(Slot { base: next_free, capacity: byte_size, occupant: None });
        Ok(MemoryRegion { index: count, base: next_free, capacity: byte_size })
    }

    /// Places an object of `object_size` bytes in `region` and returns its
    /// handle. The claim is refused, and nothing changes, when the region is
    /// not one of this arena's ([`ArenaError::UnknownRegion`]), when it
    /// already holds an object ([`ArenaError::AlreadyClaimed`]), or when the
    /// object is larger than the region ([`ArenaError::TooLarge`]); the first
    /// of these that applies is reported.
    pub fn claim_and_init(&mut self, region: MemoryRegion, object_size: usize) -> (handle: Result<
        ObjectHandle,
        ArenaError,
    >)
        requires
            old(self)@.wf(),
        ensures
            handle == old(self)@.claim_result(region, object_size),
            final(self)@ == old(self)@.claim(region, object_size),
            final(self)@.wf(),
    {
        proof {
            lemma_claim_wf(self@, region, object_size);
        }
        if region.index >= self.slots.len() {
            return Err(ArenaError::UnknownRegion);
        }
        let slot: Slot = self.slots[region.index];
        if slot.base != region.base || slot.capacity != region.capacity {
            return Err(ArenaError::UnknownRegion);
        }
        if slot.occupant.is_some() {
            return Err(ArenaError::AlreadyClaimed);
        }
        if object_size > region.capacity {
            return Err(ArenaError::TooLarge);
        }
        self.slots.set(
            region.index,
            Slot { base: slot.base, capacity: slot.capacity, occupant: Some(object_size) },
        );
        Ok(ObjectHandle { region: region.index, address: region.base, size: object_size })
    }
}

} // verus!
