use tungsten_core::arena::{normalize_align, AllocStep, Chunk, GrowStep, PhysicalArena};

#[test]
fn alignments_round_to_powers_of_two() {
    assert_eq!(normalize_align(0), 1);
    assert_eq!(normalize_align(1), 1);
    assert_eq!(normalize_align(3), 4);
    assert_eq!(normalize_align(17), 32);
    assert_eq!(normalize_align(128), 128);
}

#[test]
fn bump_allocation_aligns_and_advances() {
    let mut arena = PhysicalArena::with_chunk(4096, 4096, 128);
    assert_eq!(arena.plan_alloc(17, 8), AllocStep::Placed(4096));
    assert_eq!(arena.plan_alloc(0, 8), AllocStep::Placed(8));
    assert_eq!(arena.plan_alloc(0, 0), AllocStep::Placed(1));
    assert_eq!(arena.plan_alloc(10, 16), AllocStep::Placed(4128));
    assert_eq!(arena.plan_alloc(1, 1), AllocStep::Placed(4138));
    for align in [1usize, 2, 4, 8, 16, 32, 64, 128] {
        match arena.plan_alloc(3, align) {
            AllocStep::Placed(addr) => assert_eq!(addr % align, 0),
            other => panic!("unexpected {:?}", other),
        }
    }
}

#[test]
fn full_chunk_asks_for_a_bigger_one() {
    let mut arena = PhysicalArena::with_chunk(4096, 4096, 128);
    assert_eq!(arena.plan_alloc(4096, 16), AllocStep::Placed(4096));
    assert_eq!(arena.plan_alloc(64, 32), AllocStep::NeedChunk { capacity: 8192, align: 128 });
    assert_eq!(arena.install_chunk(65536, 8192, 128, 64), 65536);
    assert_eq!(arena.plan_alloc(16384, 64), AllocStep::NeedChunk { capacity: 16512, align: 128 });
    assert_eq!(arena.plan_alloc(10, 256), AllocStep::Placed(65536 + 256));
    assert_eq!(arena.chunk_count(), 2);
    assert_eq!(arena.chunk(1), Chunk { base: 65536, capacity: 8192, align: 128 });
}

#[test]
fn tail_allocations_grow_in_place() {
    let mut arena = PhysicalArena::with_chunk(4096, 4096, 128);
    assert_eq!(arena.plan_alloc(64, 8), AllocStep::Placed(4096));
    assert_eq!(arena.try_grow(4096, 64, 256, 8), GrowStep::InPlace);
    assert_eq!(arena.try_grow(4096, 256, 1024, 8), GrowStep::InPlace);
    assert_eq!(arena.try_grow(4096, 1024, 512, 8), GrowStep::Keep);
    assert_eq!(arena.plan_alloc(32, 8), AllocStep::Placed(4096 + 1024));
    assert_eq!(arena.try_grow(4096, 1024, 2048, 8), GrowStep::Relocate);
    assert_eq!(arena.try_grow(0, 0, 16, 8), GrowStep::Allocate);
    assert_eq!(arena.try_grow(4096 + 1024, 32, 8192, 8), GrowStep::Relocate);
}

/// Places allocations with the arena's plan, giving each new chunk the next
/// free address range (aligned as the chunk asks).
struct Planned {
    arena: PhysicalArena,
    next_base: usize,
}

impl Planned {
    fn new() -> Self {
        let base = 1 << 20;
        Planned { arena: PhysicalArena::with_chunk(base, 4096, 128), next_base: base + (1 << 20) }
    }

    fn place(&mut self, size: usize, align: usize) -> usize {
        match self.arena.plan_alloc(size, align) {
            AllocStep::Placed(addr) => addr,
            AllocStep::NeedChunk { capacity, align: chunk_align } => {
                let base = (self.next_base + chunk_align - 1) / chunk_align * chunk_align;
                self.next_base = base + capacity;
                self.arena.install_chunk(base, capacity, chunk_align, size)
            }
            AllocStep::Failed => 0,
        }
    }

    fn try_grow(&mut self, ptr: usize, old_size: usize, new_size: usize, align: usize) -> usize {
        match self.arena.try_grow(ptr, old_size, new_size, align) {
            GrowStep::Keep | GrowStep::InPlace => ptr,
            GrowStep::Allocate | GrowStep::Relocate => self.place(new_size, align),
            GrowStep::Failed => 0,
        }
    }
}

#[test]
fn test_arena_zero_size_and_alignments() {
    let mut arena = Planned::new();
    let z1 = arena.place(0, 1);
    assert_eq!(z1 % 1, 0);
    let z8 = arena.place(0, 8);
    assert_eq!(z8 % 8, 0);
    let z16 = arena.place(0, 16);
    assert_eq!(z16 % 16, 0);
    let z64 = arena.place(0, 64);
    assert_eq!(z64 % 64, 0);
    let alignments = [1, 2, 4, 8, 16, 32, 64, 128];
    let sizes = [1, 3, 7, 15, 24, 31, 64, 100];
    for &align in &alignments {
        for &size in &sizes {
            let ptr = arena.place(size, align);
            assert!(ptr != 0);
            assert_eq!(ptr % align, 0, "Allocation of size {} not aligned to {}", size, align);
        }
    }
}

#[test]
fn test_arena_chunk_boundary_and_growth() {
    let mut arena = Planned::new();
    let p1 = arena.place(4096, 16);
    assert!(p1 != 0);
    assert_eq!(p1 % 16, 0);
    let p2 = arena.place(64, 32);
    assert!(p2 != 0);
    assert_eq!(p2 % 32, 0);
    let p3 = arena.place(16384, 64);
    assert!(p3 != 0);
    assert_eq!(p3 % 64, 0);
    assert_eq!(arena.arena.chunk_count(), 3);
    // The three allocations do not overlap.
    assert!(p1 + 4096 <= p2 || p2 + 64 <= p1);
    assert!(p2 + 64 <= p3 || p3 + 16384 <= p2);
}

#[test]
fn test_in_place_region_growth() {
    let mut arena = Planned::new();
    let ptr1 = arena.place(64, 8);
    assert!(ptr1 != 0);
    let grown_ptr = arena.try_grow(ptr1, 64, 256, 8);
    assert_eq!(ptr1, grown_ptr, "In-place growth must reuse identical pointer without memcpy");
    let grown_ptr2 = arena.try_grow(grown_ptr, 256, 1024, 8);
    assert_eq!(ptr1, grown_ptr2, "Second in-place growth must also preserve pointer");
    let interleaved = arena.place(32, 8);
    assert!(interleaved != 0);
    let fallback_ptr = arena.try_grow(ptr1, 1024, 2048, 8);
    assert_ne!(ptr1, fallback_ptr, "Interleaved growth must fall back to new allocation");
}

#[test]
fn test_arena_tail_growth_and_forced_relocation() {
    for &align in &[16, 32, 64, 128] {
        let mut arena = Planned::new();
        let a = arena.place(64, align);
        assert!(a != 0);
        assert_eq!(a % align, 0);
        let a_grown = arena.try_grow(a, 64, 128, align);
        assert_eq!(a, a_grown, "Tail allocation must grow in place with zero copy");
        assert_eq!(a_grown % align, 0);
        let b = arena.place(64, align);
        assert!(b != 0);
        assert_eq!(b % align, 0);
        let a_relocated = arena.try_grow(a_grown, 128, 256, align);
        assert_ne!(a_grown, a_relocated, "Non-tail allocation must relocate to preserve subsequent allocations");
        assert_eq!(a_relocated % align, 0);
        let b_relocated = arena.try_grow(b, 64, 128, align);
        assert_ne!(b, b_relocated, "B must relocate because A was allocated after B");
        assert_eq!(b_relocated % align, 0);
        let b_grown = arena.try_grow(b_relocated, 128, 256, align);
        assert_eq!(b_relocated, b_grown, "B_relocated is now the tail and must grow in-place");
        assert_eq!(b_grown % align, 0);
        let c = arena.place(64, align);
        assert!(c != 0);
        assert_eq!(c % align, 0);
        let b_relocated2 = arena.try_grow(b_grown, 256, 512, align);
        assert_ne!(b_grown, b_relocated2, "B must relocate because C occupies the tail");
    }
}

#[test]
fn test_miri_arena_alignments() {
    let mut arena = Planned::new();
    for &align in &[1, 2, 4, 8, 16, 32, 64, 128] {
        let ptr = arena.place(17, align);
        assert!(ptr != 0);
        assert_eq!(ptr % align, 0, "Address {:x} not aligned to {}", ptr, align);
    }
}

#[test]
fn test_miri_arena_chunk_growth() {
    let mut arena = Planned::new();
    for _ in 0..100 {
        let ptr = arena.place(512, 8);
        assert!(ptr != 0);
    }
    assert!(arena.arena.chunk_count() > 1, "Arena should have grown across multiple chunks");
}
