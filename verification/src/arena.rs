use vstd::prelude::*;

verus! {

/// Doubling from `p`, the first value at or above `a` (`p` itself once it
/// is; `p` must be at least 1 to grow).
pub open spec fn pow2_from(p: nat, a: nat) -> nat
    decreases (if p < a { a - p } else { 0 }),
{
    if p >= a || p == 0 {
        p
    } else {
        pow2_from(2 * p, a)
    }
}

/// The alignment an allocation uses: the next power of two of `align`,
/// with 0 counting as 1.
pub open spec fn norm_align(align: nat) -> nat {
    pow2_from(1, align)
}

/// `x` rounded up to a multiple of `a`.
pub open spec fn round_up(x: int, a: int) -> int {
    if x % a == 0 {
        x
    } else {
        x + (a - x % a)
    }
}

/// The largest alignment whose next power of two fits in a `usize`.
pub open spec fn align_ok(align: nat) -> bool {
    align <= usize::MAX / 2 + 1
}

proof fn lemma_pow2_from(p: nat, a: nat)
    requires
        p >= 1,
    ensures
        pow2_from(p, a) >= p,
        pow2_from(p, a) >= a,
        p < a ==> pow2_from(p, a) < 2 * a,
    decreases (if p < a { a - p } else { 0 }),
{
    if p < a {
        lemma_pow2_from(2 * p, a);
    }
}

/// The next power of two of `max(align, 1)`.
pub fn normalize_align(align: usize) -> (r: usize)
    requires
        align_ok(align as nat),
    ensures
        r == norm_align(align as nat),
        r >= 1,
        r >= align,
{
    let mut p: usize = 1;
    while p < align
        invariant
            1 <= p,
            align_ok(align as nat),
            p < align ==> 2 * p <= usize::MAX,
            pow2_from(p as nat, align as nat) == pow2_from(1, align as nat),
        decreases (if p < align { align - p } else { 0 }),
    {
        p = p * 2;
    }
    proof {
        lemma_pow2_from(1, align as nat);
    }
    p
}

proof fn lemma_round_up(x: int, a: int)
    requires
        a > 0,
        x >= 0,
    ensures
        round_up(x, a) % a == 0,
        x <= round_up(x, a) < x + a,
{
    let r = x % a;
    assert(0 <= r < a) by (nonlinear_arith)
        requires
            a > 0,
            r == x % a,
    ;
    if r != 0 {
        assert((x + (a - r)) % a == 0) by (nonlinear_arith)
            requires
                a > 0,
                r == x % a,
                x >= 0,
        ;
    }
}

/// One chunk of arena memory: where it starts, its size and its alignment.
#[derive(Debug, Clone, Copy, PartialEq, Eq, Structural)]
pub struct Chunk {
    pub base: usize,
    pub capacity: usize,
    pub align: usize,
}

/// The bookkeeping of a bump arena: its chunks, and the base, used bytes
/// and capacity of the chunk it allocates from. Addresses are plain numbers;
/// the memory behind them belongs to whoever created the chunks.
#[derive(Debug)]
pub struct PhysicalArena {
    chunks: Vec<Chunk>,
    current_base: usize,
    current_offset: usize,
    current_capacity: usize,
}

/// What an allocation request comes to.
#[derive(Debug, Clone, Copy, PartialEq, Eq, Structural)]
pub enum AllocStep {
    /// The allocation is at this address.
    Placed(usize),
    /// The current chunk is full: a new chunk of this size and alignment is
    /// needed, after which `install_chunk` places the allocation at its start.
    NeedChunk { capacity: usize, align: usize },
    /// The address computation overflowed: no allocation.
    Failed,
}

/// What a growth request comes to.
#[derive(Debug, Clone, Copy, PartialEq, Eq, Structural)]
pub enum GrowStep {
    /// Nothing to grow: allocate the new size afresh.
    Allocate,
    /// The new size fits in the old one: keep the allocation.
    Keep,
    /// The allocation is the last one of the current chunk and was extended
    /// where it is.
    InPlace,
    /// Allocate the new size elsewhere and copy the old contents.
    Relocate,
    /// The end of the allocation overflowed: no allocation.
    Failed,
}

/// The initial chunk size.
pub const INITIAL_CAPACITY: usize = 4096;

/// The minimum alignment of a chunk.
pub const CHUNK_ALIGN: usize = 128;

/// The size of the chunk that follows a full one of `cap` bytes for an
/// allocation of `size` bytes at chunk alignment `chunk_align`: double the
/// old size, at least the request plus its alignment, at least 4096.
pub open spec fn next_capacity(cap: nat, size: nat, chunk_align: nat) -> nat {
    let min_required = size + chunk_align;
    let doubled = 2 * cap;
    let base = if doubled <= usize::MAX {
        if doubled >= min_required { doubled } else { min_required }
    } else {
        min_required
    };
    if base >= INITIAL_CAPACITY { base } else { INITIAL_CAPACITY as nat }
}

impl PhysicalArena {
    /// The chunks, oldest first.
    pub closed spec fn chunk_list(&self) -> Seq<Chunk> {
        self.chunks@
    }

    /// The start of the chunk allocations come from.
    pub closed spec fn base(&self) -> nat {
        self.current_base as nat
    }

    /// The bytes of the current chunk in use.
    pub closed spec fn offset(&self) -> nat {
        self.current_offset as nat
    }

    /// The size of the current chunk.
    pub closed spec fn capacity(&self) -> nat {
        self.current_capacity as nat
    }

    #[verifier::type_invariant]
    spec fn well_formed(&self) -> bool {
        &&& self.current_offset <= self.current_capacity
        &&& self.current_base + self.current_capacity <= usize::MAX
    }

    /// An arena whose first chunk starts at `base` and holds `capacity`
    /// bytes at alignment `align`.
    pub fn with_chunk(base: usize, capacity: usize, align: usize) -> (r: Self)
        requires
            base + capacity <= usize::MAX,
        ensures
            r.chunk_list() == seq![Chunk { base, capacity, align }],
            r.base() == base,
            r.offset() == 0,
            r.capacity() == capacity,
    {
        let mut chunks: Vec<Chunk> = Vec::new();
        chunks.push(Chunk { base, capacity, align });
        PhysicalArena { chunks, current_base: base, current_offset: 0, current_capacity: capacity }
    }

    /// The number of chunks.
    pub fn chunk_count(&self) -> (r: usize)
        ensures
            r == self.chunk_list().len(),
    {
        self.chunks.len()
    }

    /// The `i`-th chunk, oldest first.
    pub fn chunk(&self, i: usize) -> (r: Chunk)
        requires
            i < self.chunk_list().len(),
        ensures
            r == self.chunk_list()[i as int],
    {
        self.chunks[i]
    }

    /// Places an allocation of `size` bytes aligned to the next power of
    /// two of `align`: an empty allocation at the alignment itself, else at
    /// the first aligned address after what is in use, if it fits in the
    /// current chunk; otherwise it asks for a new chunk.
    pub fn plan_alloc(&mut self, size: usize, align: usize) -> (r: AllocStep)
        requires
            align_ok(align as nat),
        ensures
            final(self).chunk_list() == old(self).chunk_list(),
            final(self).base() == old(self).base(),
            final(self).capacity() == old(self).capacity(),
            ({
                let a = norm_align(align as nat) as int;
                let cur = (old(self).base() + old(self).offset()) as int;
                let aligned = round_up(cur, a);
                let fits = cur + a - 1 <= usize::MAX && aligned - old(self).base() + size <= old(self).capacity();
                &&& size == 0 ==> r == AllocStep::Placed(a as usize) && final(self).offset() == old(self).offset()
                &&& size != 0 && cur + a - 1 > usize::MAX ==> r == AllocStep::Failed
                    && final(self).offset() == old(self).offset()
                &&& size != 0 && fits ==> r == AllocStep::Placed(aligned as usize)
                    && final(self).offset() == aligned - old(self).base() + size
                &&& size != 0 && cur + a - 1 <= usize::MAX && !fits ==> final(self).offset() == old(self).offset()
                    && (if size + (if a >= 128 { a } else { 128 }) > usize::MAX {
                        r == AllocStep::Failed
                    } else {
                        r == AllocStep::NeedChunk {
                            capacity: next_capacity(old(self).capacity(), size as nat, (if a >= 128 { a } else { 128 }) as nat) as usize,
                            align: (if a >= 128 { a } else { 128 }) as usize,
                        }
                    })
            }),
    {
        proof {
            use_type_invariant(&*self);
        }
        let a = normalize_align(align);
        if size == 0 {
            return AllocStep::Placed(a);
        }
        let current_addr = self.current_base + self.current_offset;
        let mask = a - 1;
        if current_addr > usize::MAX - mask {
            return AllocStep::Failed;
        }
        proof {
            lemma_round_up(current_addr as int, a as int);
        }
        let rem = current_addr % a;
        let aligned_addr = if rem == 0 { current_addr } else { current_addr + (a - rem) };
        let offset = aligned_addr - self.current_base;
        if offset <= self.current_capacity && size <= self.current_capacity - offset {
            self.current_offset = offset + size;
            return AllocStep::Placed(aligned_addr);
        }
        let chunk_align = if a >= CHUNK_ALIGN { a } else { CHUNK_ALIGN };
        if size > usize::MAX - chunk_align {
            return AllocStep::Failed;
        }
        let min_required = size + chunk_align;
        let doubled_ok = self.current_capacity <= usize::MAX / 2;
        let grown = if doubled_ok {
            let d = self.current_capacity * 2;
            if d >= min_required { d } else { min_required }
        } else {
            min_required
        };
        let new_cap = if grown >= INITIAL_CAPACITY { grown } else { INITIAL_CAPACITY };
        AllocStep::NeedChunk { capacity: new_cap, align: chunk_align }
    }

    /// Makes a new chunk the current one and places an allocation of `size`
    /// bytes at its start, which it returns.
    pub fn install_chunk(&mut self, base: usize, capacity: usize, align: usize, size: usize) -> (r: usize)
        requires
            base + capacity <= usize::MAX,
            size <= capacity,
        ensures
            r == base,
            final(self).chunk_list() == old(self).chunk_list().push(Chunk { base, capacity, align }),
            final(self).base() == base,
            final(self).offset() == size,
            final(self).capacity() == capacity,
    {
        proof {
            use_type_invariant(&*self);
        }
        let mut chunks: Vec<Chunk> = Vec::new();
        std::mem::swap(&mut chunks, &mut self.chunks);
        chunks.push(Chunk { base, capacity, align });
        *self = PhysicalArena { chunks, current_base: base, current_offset: size, current_capacity: capacity };
        base
    }

    /// Decides how to grow the allocation at `addr` from `old_size` to
    /// `new_size` bytes: allocate afresh when there is nothing to grow, keep
    /// it when it does not grow, extend it where it is when it is the last
    /// allocation of the current chunk, is aligned and the chunk has room,
    /// and otherwise move it.
    pub fn try_grow(&mut self, addr: usize, old_size: usize, new_size: usize, align: usize) -> (r: GrowStep)
        requires
            align_ok(align as nat),
        ensures
            final(self).chunk_list() == old(self).chunk_list(),
            final(self).base() == old(self).base(),
            final(self).capacity() == old(self).capacity(),
            ({
                let a = norm_align(align as nat);
                let top = old(self).base() + old(self).offset();
                let tail = addr >= old(self).base() && addr < top && (addr as nat) % a == 0;
                &&& (addr == 0 || old_size == 0) ==> r == GrowStep::Allocate && final(self).offset() == old(self).offset()
                &&& !(addr == 0 || old_size == 0) && new_size <= old_size ==> r == GrowStep::Keep
                    && final(self).offset() == old(self).offset()
                &&& !(addr == 0 || old_size == 0) && new_size > old_size && tail && addr + old_size > usize::MAX
                    ==> r == GrowStep::Failed && final(self).offset() == old(self).offset()
                &&& !(addr == 0 || old_size == 0) && new_size > old_size && tail && addr + old_size == top
                    && old(self).offset() + (new_size - old_size) <= old(self).capacity()
                    ==> r == GrowStep::InPlace && final(self).offset() == old(self).offset() + (new_size - old_size)
                &&& !(addr == 0 || old_size == 0) && new_size > old_size && !(tail && addr + old_size == top
                    && old(self).offset() + (new_size - old_size) <= old(self).capacity()) && !(tail && addr
                    + old_size > usize::MAX) ==> r == GrowStep::Relocate && final(self).offset() == old(self).offset()
            }),
    {
        proof {
            use_type_invariant(&*self);
        }
        if addr == 0 || old_size == 0 {
            return GrowStep::Allocate;
        }
        if new_size <= old_size {
            return GrowStep::Keep;
        }
        let a = normalize_align(align);
        let current_top = self.current_base + self.current_offset;
        let is_in_current_chunk = addr >= self.current_base && addr < current_top;
        let is_aligned = addr % a == 0;
        if is_in_current_chunk && is_aligned {
            if addr > usize::MAX - old_size {
                return GrowStep::Failed;
            }
            let end_of_alloc = addr + old_size;
            if end_of_alloc == current_top {
                let diff = new_size - old_size;
                if diff <= self.current_capacity - self.current_offset {
                    self.current_offset = self.current_offset + diff;
                    return GrowStep::InPlace;
                }
            }
        }
        GrowStep::Relocate
    }
}

/// An allocation the arena places is aligned, starts no earlier than what
/// was in use, and ends within the current chunk.
pub proof fn law_placed_aligned(base: nat, offset: nat, capacity: nat, size: nat, align: nat)
    requires
        offset <= capacity,
        base + capacity <= usize::MAX,
        align_ok(align),
        size > 0,
        base + offset + norm_align(align) - 1 <= usize::MAX,
        round_up((base + offset) as int, norm_align(align) as int) - base + size <= capacity,
    ensures
        ({
            let a = norm_align(align) as int;
            let addr = round_up((base + offset) as int, a);
            &&& addr % a == 0
            &&& base + offset <= addr
            &&& addr + size <= base + capacity
        }),
{
    lemma_pow2_from(1, align);
    lemma_round_up((base + offset) as int, norm_align(align) as int);
}

/// Two allocations placed one after the other in the same chunk do not
/// overlap: the second starts where the first ends or later, and ends
/// within the chunk.
pub proof fn law_successive_placements_disjoint(
    base: nat,
    offset: nat,
    capacity: nat,
    size1: nat,
    align1: nat,
    size2: nat,
    align2: nat,
)
    requires
        offset <= capacity,
        base + capacity <= usize::MAX,
        align_ok(align1),
        align_ok(align2),
        size1 > 0,
        size2 > 0,
        base + offset + norm_align(align1) - 1 <= usize::MAX,
        round_up((base + offset) as int, norm_align(align1) as int) - base + size1 <= capacity,
        ({
            let addr1 = round_up((base + offset) as int, norm_align(align1) as int);
            let offset2 = addr1 - base + size1;
            &&& base + offset2 + norm_align(align2) - 1 <= usize::MAX
            &&& round_up(base + offset2, norm_align(align2) as int) - base + size2 <= capacity
        }),
    ensures
        ({
            let addr1 = round_up((base + offset) as int, norm_align(align1) as int);
            let addr2 = round_up(addr1 + size1, norm_align(align2) as int);
            &&& base + offset <= addr1
            &&& addr1 + size1 <= addr2
            &&& addr2 + size2 <= base + capacity
        }),
{
    lemma_pow2_from(1, align1);
    lemma_pow2_from(1, align2);
    let addr1 = round_up((base + offset) as int, norm_align(align1) as int);
    lemma_round_up((base + offset) as int, norm_align(align1) as int);
    lemma_round_up(addr1 + size1, norm_align(align2) as int);
    assert(base + (addr1 - base + size1) == addr1 + size1);
}

/// Allocations placed in two different chunks do not overlap when the
/// chunks' bytes do not, as chunks obtained from the allocator do not.
pub proof fn law_placements_in_disjoint_chunks(c1: Chunk, c2: Chunk, addr1: nat, size1: nat, addr2: nat, size2: nat)
    requires
        c1.base + c1.capacity <= c2.base || c2.base + c2.capacity <= c1.base,
        c1.base <= addr1,
        addr1 + size1 <= c1.base + c1.capacity,
        c2.base <= addr2,
        addr2 + size2 <= c2.base + c2.capacity,
    ensures
        addr1 + size1 <= addr2 || addr2 + size2 <= addr1,
{
}

} // verus!
