//! The arena: one region reserved lazily on the first request, and the
//! atomic cursor that hands it out.
use crate::cursor::{is_power_of_two, lemma_placement_fits, place, placement, AllocError};
use once_cell::sync::OnceCell;
use std::sync::atomic::{AtomicUsize, Ordering};
use vstd::prelude::*;

verus! {

#[verifier::external_type_specification]
#[verifier::external_body]
#[verifier::reject_recursive_types(T)]
pub struct ExOnceCell<T>(OnceCell<T>);

pub assume_specification<T>[ OnceCell::<T>::new ]() -> OnceCell<T>;

/// The default capacity of an arena: one gibibyte.
pub const DEFAULT_CAPACITY: usize = 1073741824;

/// Where the arena's memory comes from.
pub trait RegionSource {
    /// Reserves `size` bytes of zeroed, readable and writable memory that
    /// never moves, and returns its address, or 0 where none could be had.
    fn reserve(&self, size: usize) -> usize;
}

/// An allocator that bumps an offset through one fixed region and never
/// reuses memory.
pub struct BumpAlloc {
    mmap: OnceCell<usize>,
    offset: AtomicUsize,
    size: usize,
}

/// The address the arena behind `cell` is reserved at: what the one
/// reservation that filled the cell returned.
pub uninterp spec fn reserved_base(cell: OnceCell<usize>) -> usize;

/// Relies on once_cell's `sync::OnceCell::get_or_init`: it returns the
/// cell's value, and runs the reservation only where the cell is empty, once
/// over all threads. Once set, a `sync::OnceCell` is never changed through a
/// shared reference, so every call on one cell returns the same value.
#[verifier::external_body]
fn base_or_reserve<R: RegionSource>(cell: &OnceCell<usize>, region: &R, size: usize) -> (r: usize)
    ensures
        r == reserved_base(*cell),
{
    *cell.get_or_init(|| region.reserve(size))
}

/// The offset just past the block that `place` puts at `offset`, if it fits.
pub fn next_offset(base: usize, offset: usize, size: usize, align: usize, capacity: usize) -> (r:
    Option<usize>)
    requires
        is_power_of_two(align),
    ensures
        r == match placement(base, offset, size, align, capacity) {
            Ok((_, n)) => Some(n),
            Err(_) => None::<usize>,
        },
{
    match place(base, offset, size, align, capacity) {
        Ok((_, n)) => Some(n),
        Err(_) => None,
    }
}

/// Relies on `AtomicUsize::fetch_update`: it reads the offset, stores what
/// `next_offset` gives for it, retrying while other threads change it, and
/// returns `Ok` of the value it read where `next_offset` gave `Some`, else
/// `Err` of that value.
#[verifier::external_body]
fn advance(offset: &AtomicUsize, base: usize, size: usize, align: usize, capacity: usize) -> (r:
    Result<usize, usize>)
    requires
        is_power_of_two(align),
    ensures
        match r {
            Ok(p) => placement(base, p, size, align, capacity) is Ok,
            Err(p) => placement(base, p, size, align, capacity) is Err,
        },
{
    offset.fetch_update(Ordering::Relaxed, Ordering::Relaxed, |o| next_offset(base, o, size, align, capacity))
}

impl BumpAlloc {
    /// The number of bytes the arena reserves.
    pub closed spec fn capacity(&self) -> usize {
        self.size
    }

    /// The address of the arena, fixed by its one reservation; 0 where the
    /// reservation failed.
    pub closed spec fn base(&self) -> usize {
        reserved_base(self.mmap)
    }

    /// An allocator over an arena of the default capacity.
    pub fn new() -> (r: BumpAlloc)
        ensures
            r.capacity() == DEFAULT_CAPACITY,
    {
        BumpAlloc::with_size(DEFAULT_CAPACITY)
    }

    /// An allocator over an arena of `size` bytes, not reserved yet.
    pub fn with_size(size: usize) -> (r: BumpAlloc)
        ensures
            r.capacity() == size,
    {
        BumpAlloc { mmap: OnceCell::new(), offset: AtomicUsize::new(0), size }
    }

    /// The number of bytes the arena reserves.
    pub fn size(&self) -> (r: usize)
        ensures
            r == self.capacity(),
    {
        self.size
    }

    /// Allocates `size` bytes aligned to `align` from the arena that starts
    /// at `base`. Some offset was consumed when the cursor moved; whatever it
    /// was, the result is what `placement` gives there.
    pub fn allocate_from(&self, base: usize, size: usize, align: usize) -> (r: Result<
        usize,
        AllocError,
    >)
        requires
            is_power_of_two(align),
        ensures
            base == 0 <==> r == Err::<usize, AllocError>(AllocError::ReservationFailure),
            base != 0 ==> match r {
                Ok(a) => exists|o: usize|
                    #[trigger] placement(base, o, size, align, self.capacity()) matches Ok((p, _)) && p == a,
                Err(e) => exists|o: usize| #[trigger]
                    placement(base, o, size, align, self.capacity()) == Err::<(usize, usize), AllocError>(e),
            },
            r matches Ok(a) ==> a != 0 && a % align == 0 && base <= a && a + size <= base + self.capacity(),
    {
        if base == 0 {
            return Err(AllocError::ReservationFailure);
        }
        let o = match advance(&self.offset, base, size, align, self.size) {
            Ok(p) => p,
            Err(p) => p,
        };
        let r = place(base, o, size, align, self.size);
        proof {
            lemma_placement_fits(base, o, size, align, self.size);
        }
        match r {
            Ok((a, _)) => {
                assert(placement(base, o, size, align, self.capacity()) matches Ok((p, _)) && p == a);
                Ok(a)
            },
            Err(e) => Err(e),
        }
    }

    /// Allocates `size` bytes aligned to `align`, reserving the arena from
    /// `region` on the first request. Every call on one allocator works in
    /// the same arena.
    pub fn allocate<R: RegionSource>(&self, region: &R, size: usize, align: usize) -> (r: Result<
        usize,
        AllocError,
    >)
        requires
            is_power_of_two(align),
        ensures
            self.base() == 0 <==> r == Err::<usize, AllocError>(AllocError::ReservationFailure),
            self.base() != 0 ==> match r {
                Ok(a) => exists|o: usize|
                    #[trigger] placement(self.base(), o, size, align, self.capacity()) matches Ok((p, _))
                        && p == a,
                Err(e) => exists|o: usize| #[trigger]
                    placement(self.base(), o, size, align, self.capacity()) == Err::<(usize, usize), AllocError>(
                        e,
                    ),
            },
            r matches Ok(a) ==> a != 0 && a % align == 0 && self.base() <= a && a + size <= self.base()
                + self.capacity(),
    {
        let base = base_or_reserve(&self.mmap, region, self.size);
        self.allocate_from(base, size, align)
    }

    /// Gives memory back, which this allocator never reuses: nothing happens.
    pub fn dealloc(&self, _addr: usize, _size: usize, _align: usize) {
    }
}

} // verus!
