use vstd::prelude::*;

verus! {

/// Size of the heap in bytes (2 MiB for the demo kernel).
pub const HEAP_SIZE: usize = 2 * 1024 * 1024;

/// The first address at or after `base + next` that is a multiple of
/// `align` (a power of two), computed as the allocator computes it.
pub open spec fn aligned_addr(base: usize, next: usize, align: usize) -> usize {
    ((base + next + align - 1) as usize) & !((align - 1) as usize)
}

/// Whether `a` is a power of two.
pub open spec fn is_power_of_two(a: usize) -> bool {
    a > 0 && a & ((a - 1) as usize) == 0
}

/// Rounding up to a power of two lands on a multiple of it (its low bits
/// are zero), no lower than
/// the address and less than one alignment above it.
pub proof fn lemma_align_up(x: usize, a: usize)
    requires
        is_power_of_two(a),
        x + a - 1 <= usize::MAX,
    ensures
        x <= ((x + a - 1) as usize) & !((a - 1) as usize) <= x + a - 1,
        (((x + a - 1) as usize) & !((a - 1) as usize)) & ((a - 1) as usize) == 0,
{
    let y = (x + a - 1) as usize;
    let m = (a - 1) as usize;
    let r = y & !m;
    assert(r <= y) by (bit_vector)
        requires
            r == y & !m,
    ;
    assert(y - r == y & m) by (bit_vector)
        requires
            r == y & !m,
    ;
    assert(y & m <= m) by (bit_vector);
    assert(r & m == 0) by (bit_vector)
        requires
            r == y & !m,
    ;
}

/// Bump allocator: allocates memory by moving an offset forward.
/// Memory is never freed — this is intentional for a simple OS demo.
pub struct BumpAllocator {
    /// Byte offset of the next free slot inside the heap.
    next: usize,
}

impl View for BumpAllocator {
    /// The offset of the next free byte.
    type V = usize;

    closed spec fn view(&self) -> usize {
        self.next
    }
}

impl BumpAllocator {
    #[verifier::type_invariant]
    spec fn within_heap(&self) -> bool {
        self.next <= HEAP_SIZE
    }

    pub fn new() -> (r: Self)
        ensures
            r@ == 0,
    {
        BumpAllocator { next: 0 }
    }

    /// Claim `size` bytes aligned to `align` from the heap starting at
    /// address `heap_base`. Returns the address, or `None` when the heap is
    /// exhausted (the allocator then stays as it was).
    pub fn allocate(&mut self, heap_base: usize, size: usize, align: usize) -> (r: Option<usize>)
        requires
            is_power_of_two(align),
            size + align <= isize::MAX + 1,
            heap_base + HEAP_SIZE + align <= usize::MAX,
        ensures
            old(self)@ <= HEAP_SIZE,
            final(self)@ <= HEAP_SIZE,
            aligned_addr(heap_base, old(self)@, align) - heap_base + size > HEAP_SIZE ==> r is None
                && final(self)@ == old(self)@,
            aligned_addr(heap_base, old(self)@, align) - heap_base + size <= HEAP_SIZE ==> r
                == Some(aligned_addr(heap_base, old(self)@, align)) && final(self)@
                == aligned_addr(heap_base, old(self)@, align) - heap_base + size,
            r matches Some(a) ==> a & ((align - 1) as usize) == 0 && heap_base + old(self)@ <= a && a + size
                <= heap_base + HEAP_SIZE,
    {
        proof {
            use_type_invariant(&*self);
            lemma_align_up((heap_base + self.next) as usize, align);
        }
        let current = self.next;
        // Align the bump pointer.
        let aligned = (heap_base + current + align - 1) & !(align - 1);
        let new_next = aligned - heap_base + size;

        if new_next > HEAP_SIZE {
            // Out of heap memory.
            return None;
        }
        self.next = new_next;
        Some(aligned)
    }

    /// Bump allocators do not free memory.
    pub fn deallocate(&mut self, _addr: usize, _size: usize, _align: usize)
        ensures
            final(self)@ == old(self)@,
    {
    }
}

/// Allocations never overlap: after a successful allocation of `size` bytes
/// at `a`, every later allocation starts at or after `a + size`.
pub proof fn law_allocations_disjoint(
    base: usize,
    next: usize,
    size: usize,
    align: usize,
    size2: usize,
    align2: usize,
)
    requires
        next <= HEAP_SIZE,
        is_power_of_two(align),
        is_power_of_two(align2),
        size + align <= isize::MAX + 1,
        base + HEAP_SIZE + align <= usize::MAX,
        base + HEAP_SIZE + align2 <= usize::MAX,
        aligned_addr(base, next, align) - base + size <= HEAP_SIZE,
    ensures
        aligned_addr(base, (aligned_addr(base, next, align) - base + size) as usize, align2)
            >= aligned_addr(base, next, align) + size,
{
    lemma_align_up((base + next) as usize, align);
    let next2 = (aligned_addr(base, next, align) - base + size) as usize;
    lemma_align_up((base + next2) as usize, align2);
}

} // verus!
