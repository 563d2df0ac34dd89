//! The bump cursor: where the next allocation lands, given the arena's base,
//! the offset consumed so far and the request.
use vstd::arithmetic::div_mod::{lemma_fundamental_div_mod, lemma_mod_multiples_basic, lemma_mod_pos_bound};
use vstd::arithmetic::power2::{lemma_pow2_pos, pow2};
use vstd::bits::{low_bits_mask, lemma_usize_low_bits_mask_is_mod};
use vstd::prelude::*;

verus! {

/// Why an allocation request failed.
#[derive(Clone, Copy, Debug, PartialEq, Eq, Structural)]
pub enum AllocError {
    /// The operating system declined to reserve the arena.
    ReservationFailure,
    /// The arena's fixed capacity cannot hold the request.
    OutOfCapacity,
    /// The address arithmetic would leave the range of `usize`.
    Overflow,
}

/// `a` is two raised to some power that a `usize` can hold.
pub open spec fn is_power_of_two(a: usize) -> bool {
    exists|n: nat| n < usize::BITS && pow2(n) == a
}

/// The address `x` rounded up to a multiple of `align`, written as
/// `x + align - 1` rounded down.
pub open spec fn align_up(x: int, align: int) -> int {
    (x + align - 1) - (x + align - 1) % align
}

/// The bytes a request of `size` bytes takes from the arena: a request for
/// nothing still takes one, so that its address is its own.
pub open spec fn footprint(size: usize) -> int {
    if size == 0 {
        1
    } else {
        size as int
    }
}

/// The outcome of one bump on an arena that starts at `base`, holds
/// `capacity` bytes and has `offset` bytes consumed: the aligned address of
/// the block and the offset just past its footprint, or the reason it cannot
/// be placed.
pub open spec fn placement(base: usize, offset: usize, size: usize, align: usize, capacity: usize)
    -> Result<(usize, usize), AllocError>
{
    let start = base + offset;
    let end = align_up(start, align as int) + footprint(size);
    if start + align - 1 > usize::MAX || end > usize::MAX {
        Err(AllocError::Overflow)
    } else if end - base > capacity {
        Err(AllocError::OutOfCapacity)
    } else {
        Ok((align_up(start, align as int) as usize, (end - base) as usize))
    }
}

/// A power of two is at least one.
pub proof fn lemma_power_of_two_pos(a: usize)
    requires
        is_power_of_two(a),
    ensures
        a >= 1,
{
    let n = choose|n: nat| n < usize::BITS && pow2(n) == a;
    lemma_pow2_pos(n);
}

/// Rounding up lands on a multiple of `align`, no lower than `x` and less
/// than one `align` above it.
pub proof fn lemma_align_up(x: int, align: int)
    requires
        x >= 0,
        align > 0,
    ensures
        align_up(x, align) % align == 0,
        x <= align_up(x, align) < x + align,
{
    let b = x + align - 1;
    lemma_fundamental_div_mod(b, align);
    lemma_mod_pos_bound(b, align);
    lemma_mod_multiples_basic(b / align, align);
    assert(align * (b / align) == (b / align) * align) by (nonlinear_arith);
}

/// The bitwise rounding `(b & !(align - 1))` of `b = x + align - 1` is
/// `align_up(x, align)` when `align` is a power of two.
proof fn lemma_mask_rounds_up(x: usize, align: usize)
    requires
        is_power_of_two(align),
        x + align - 1 <= usize::MAX,
    ensures
        ((x + (align - 1)) as usize) & !((align - 1) as usize) == align_up(x as int, align as int),
{
    lemma_power_of_two_pos(align);
    let n = choose|n: nat| n < usize::BITS && pow2(n) == align;
    let b = (x + (align - 1)) as usize;
    let m = (align - 1) as usize;
    lemma_usize_low_bits_mask_is_mod(b, n);
    assert(low_bits_mask(n) as usize == m);
    assert(b & !m == b - (b & m)) by (bit_vector);
    assert(b & m == b % align);
}

/// A block that is placed lies at a multiple of its alignment, inside the
/// arena, past the consumed offset, and the new offset ends its footprint;
/// so every placement moves the offset up.
pub proof fn lemma_placement_fits(base: usize, offset: usize, size: usize, align: usize, capacity: usize)
    requires
        is_power_of_two(align),
    ensures
        placement(base, offset, size, align, capacity) matches Ok((a, n)) ==> {
            &&& a % align == 0
            &&& base + offset <= a
            &&& a + footprint(size) == base + n
            &&& a + size <= base + n
            &&& offset < n <= capacity
            &&& a + size <= base + capacity
        },
{
    lemma_power_of_two_pos(align);
    lemma_align_up(base + offset, align as int);
}

/// Once the address arithmetic fits, a request that reaches past the
/// capacity fails with `OutOfCapacity` and nothing else.
pub proof fn lemma_beyond_capacity(base: usize, offset: usize, size: usize, align: usize, capacity: usize)
    requires
        is_power_of_two(align),
        base + offset + align - 1 <= usize::MAX,
        align_up(base + offset, align as int) + footprint(size) <= usize::MAX,
        offset + footprint(size) > capacity,
    ensures
        placement(base, offset, size, align, capacity) == Err::<(usize, usize), AllocError>(
            AllocError::OutOfCapacity,
        ),
{
    lemma_power_of_two_pos(align);
    lemma_align_up(base + offset, align as int);
}

/// A run of requests `(sizes[k], aligns[k])` on one arena, the k-th served
/// from `offsets[k]`: each is placed, and each next one starts no lower than
/// where the previous one left the offset.
pub open spec fn is_run(
    base: usize,
    capacity: usize,
    offsets: Seq<usize>,
    sizes: Seq<usize>,
    aligns: Seq<usize>,
) -> bool {
    &&& sizes.len() == offsets.len()
    &&& aligns.len() == offsets.len()
    &&& forall|k: int| 0 <= k < offsets.len() ==> #[trigger] is_power_of_two(aligns[k])
    &&& forall|k: int|
        0 <= k < offsets.len() ==> #[trigger] placement(base, offsets[k], sizes[k], aligns[k], capacity) is Ok
    &&& forall|k: int|
        0 <= k < offsets.len() - 1 ==> #[trigger] placement(
            base,
            offsets[k],
            sizes[k],
            aligns[k],
            capacity,
        )->Ok_0.1 <= offsets[k + 1]
}

/// In a run, the offset goes up and the block placed earlier ends where the
/// later one may start or before: no two blocks overlap, and no two share an
/// address, empty ones included.
pub proof fn lemma_run_disjoint(
    base: usize,
    capacity: usize,
    offsets: Seq<usize>,
    sizes: Seq<usize>,
    aligns: Seq<usize>,
    i: int,
    j: int,
)
    requires
        is_run(base, capacity, offsets, sizes, aligns),
        0 <= i < j < offsets.len(),
    ensures
        offsets[i] < offsets[j],
        placement(base, offsets[i], sizes[i], aligns[i], capacity)->Ok_0.0 + sizes[i]
            <= placement(base, offsets[j], sizes[j], aligns[j], capacity)->Ok_0.0,
        placement(base, offsets[i], sizes[i], aligns[i], capacity)->Ok_0.0
            < placement(base, offsets[j], sizes[j], aligns[j], capacity)->Ok_0.0,
    decreases j - i,
{
    assert(is_power_of_two(aligns[i]));
    assert(is_power_of_two(aligns[j]));
    assert(placement(base, offsets[i], sizes[i], aligns[i], capacity) is Ok);
    assert(placement(base, offsets[j], sizes[j], aligns[j], capacity) is Ok);
    lemma_placement_fits(base, offsets[i], sizes[i], aligns[i], capacity);
    lemma_placement_fits(base, offsets[j], sizes[j], aligns[j], capacity);
    if j == i + 1 {
        assert(placement(base, offsets[i], sizes[i], aligns[i], capacity)->Ok_0.1 <= offsets[i + 1]);
    } else {
        lemma_run_disjoint(base, capacity, offsets, sizes, aligns, i, j - 1);
        assert(is_power_of_two(aligns[j - 1]));
        assert(placement(base, offsets[j - 1], sizes[j - 1], aligns[j - 1], capacity) is Ok);
        lemma_placement_fits(base, offsets[j - 1], sizes[j - 1], aligns[j - 1], capacity);
        assert(placement(base, offsets[j - 1], sizes[j - 1], aligns[j - 1], capacity)->Ok_0.1
            <= offsets[j]);
    }
}

/// Computes `placement` for one request.
pub fn place(base: usize, offset: usize, size: usize, align: usize, capacity: usize) -> (r: Result<
    (usize, usize),
    AllocError,
>)
    requires
        is_power_of_two(align),
    ensures
        r == placement(base, offset, size, align, capacity),
{
    proof {
        lemma_power_of_two_pos(align);
    }
    let start = match base.checked_add(offset) {
        Some(s) => s,
        None => return Err(AllocError::Overflow),
    };
    let bumped = match start.checked_add(align - 1) {
        Some(b) => b,
        None => return Err(AllocError::Overflow),
    };
    let aligned = bumped & !(align - 1);
    proof {
        lemma_mask_rounds_up(start, align);
        lemma_align_up(start as int, align as int);
    }
    let taken: usize = if size == 0 {
        1
    } else {
        size
    };
    let end = match aligned.checked_add(taken) {
        Some(e) => e,
        None => return Err(AllocError::Overflow),
    };
    let new_offset = end - base;
    if new_offset > capacity {
        return Err(AllocError::OutOfCapacity);
    }
    Ok((aligned, new_offset))
}

} // verus!
