//! The shared-object allocator: memory that the host reaches through a
//! pointer and the GPU through a virtual address.

use vstd::prelude::*;
use vstd::arithmetic::power2::is_pow2;
use vstd::layout::{align_of, size_of};
use core::marker::PhantomData;
use crate::error::Error;
use crate::object::{GPUArray, GPUObject, GPUStruct, GPUWeakPointer, Placed};
use crate::mmu::{
    is_valid_align, lemma_page_ceil, lemma_page_size_pow2, lemma_pow2_divides, page_align_up,
    page_aligned, page_ceil, is_page_aligned, UAT_PGSZ,
};

verus! {

/// One allocation: where the host finds it, where the GPU finds it, and how
/// many bytes it spans.
pub trait Allocation<T> {
    /// The host address of the first byte.
    spec fn spec_ptr(&self) -> usize;

    /// The GPU virtual address of the first byte.
    spec fn spec_gpu_ptr(&self) -> u64;

    /// The number of usable bytes.
    spec fn spec_size(&self) -> usize;

    /// Returns the host address of the first byte.
    fn ptr(&self) -> (r: usize)
        ensures
            r == self.spec_ptr(),
    ;

    /// Returns the GPU virtual address of the first byte.
    fn gpu_ptr(&self) -> (r: u64)
        ensures
            r == self.spec_gpu_ptr(),
    ;

    /// Returns the number of usable bytes.
    fn size(&self) -> (r: usize)
        ensures
            r == self.spec_size(),
    ;
}

/// An allocation that lies inside one run of pages.
#[derive(Debug)]
pub struct SimpleAllocation<T> {
    ptr: usize,
    gpu_ptr: u64,
    size: usize,
    _kind: PhantomData<T>,
}

impl<T> SimpleAllocation<T> {
    /// Describes `size` bytes that the host sees at `ptr` and the GPU at `gpu_ptr`.
    pub fn new(ptr: usize, gpu_ptr: u64, size: usize) -> (r: Self)
        ensures
            r.spec_ptr() == ptr,
            r.spec_gpu_ptr() == gpu_ptr,
            r.spec_size() == size,
    {
        SimpleAllocation { ptr, gpu_ptr, size, _kind: PhantomData }
    }
}

impl<T> Allocation<T> for SimpleAllocation<T> {
    closed spec fn spec_ptr(&self) -> usize {
        self.ptr
    }

    closed spec fn spec_gpu_ptr(&self) -> u64 {
        self.gpu_ptr
    }

    closed spec fn spec_size(&self) -> usize {
        self.size
    }

    fn ptr(&self) -> (r: usize) {
        self.ptr
    }

    fn gpu_ptr(&self) -> (r: u64) {
        self.gpu_ptr
    }

    fn size(&self) -> (r: usize) {
        self.size
    }
}

/// How an allocation of `size` bytes sits in its run of pages.
#[derive(Clone, Copy, Debug, PartialEq, Eq, Structural)]
pub struct Geometry {
    /// Bytes asked for.
    pub size: usize,
    /// Bytes of the run of pages: `size` rounded up to whole pages.
    pub size_aligned: usize,
    /// Alignment of the first byte within the run.
    pub align: usize,
    /// Distance from the start of the run to the first byte.
    pub offset: usize,
}

/// Whether a geometry exists for `size` bytes at alignment `align`.
pub open spec fn geometry_defined(size: usize, align: usize) -> bool {
    is_pow2(align as int) && page_ceil(size as int) <= usize::MAX
}

/// The geometry of `size` bytes at alignment `align`: as far towards the end
/// of the pages as the alignment allows.
pub open spec fn geometry_of(size: usize, align: usize) -> Geometry {
    let slack = page_ceil(size as int) - size;
    Geometry {
        size,
        size_aligned: page_ceil(size as int) as usize,
        align,
        offset: (slack - slack % (align as int)) as usize,
    }
}

/// What holds of every geometry: the bytes lie inside the pages, start on
/// the alignment, and leave less than one alignment unit behind them.
pub proof fn lemma_geometry(size: usize, align: usize)
    requires
        geometry_defined(size, align),
    ensures
        ({
            let g = geometry_of(size, align);
            &&& page_aligned(g.size_aligned as int)
            &&& size <= g.size_aligned < size + UAT_PGSZ
            &&& g.offset % align == 0
            &&& g.offset + size <= g.size_aligned
            &&& g.size_aligned - (g.offset + size) < align
            &&& align >= UAT_PGSZ ==> g.offset == 0
        }),
{
    lemma_page_ceil(size as int);
    lemma_align_positive(align as int);
    let slack = page_ceil(size as int) - size;
    let a = align as int;
    vstd::arithmetic::div_mod::lemma_fundamental_div_mod(slack, a);
    assert((a * (slack / a)) % a == 0) by (nonlinear_arith)
        requires
            a > 0,
    ;
    if align >= UAT_PGSZ {
        vstd::arithmetic::div_mod::lemma_small_mod(slack as nat, a as nat);
    }
}

/// A power of two is at least one.
pub proof fn lemma_align_positive(a: int)
    requires
        is_pow2(a),
    ensures
        a >= 1,
{
    reveal(is_pow2);
}

/// Computes how `size` bytes at alignment `align` sit in their pages.
///
/// Fails with `InvalidArgument` where `align` is no power of two, and with
/// `NoMemory` where the pages would reach past the end of the address range.
pub fn geometry(size: usize, align: usize) -> (r: Result<Geometry, Error>)
    ensures
        match r {
            Ok(g) => geometry_defined(size, align) && g == geometry_of(size, align),
            Err(e) => !geometry_defined(size, align) && e == (if is_pow2(align as int) {
                Error::NoMemory
            } else {
                Error::InvalidArgument
            }),
        },
{
    if !is_valid_align(align) {
        return Err(Error::InvalidArgument);
    }
    match page_align_up(size) {
        Some(size_aligned) => {
            proof {
                lemma_page_ceil(size as int);
                lemma_align_positive(align as int);
            }
            let slack = size_aligned - size;
            proof {
                vstd::arithmetic::div_mod::lemma_mod_decreases(slack as nat, align as nat);
            }
            let offset = slack - slack % align;
            Ok(Geometry { size, size_aligned, align, offset })
        },
        None => Err(Error::NoMemory),
    }
}

/// A run of pages that the platform has made visible to both sides: to the
/// host from `host_base`, to the GPU from `gpu_base`.
#[derive(Clone, Copy, Debug, PartialEq, Eq, Structural)]
pub struct Region {
    host_base: usize,
    gpu_base: u64,
    len: usize,
}

impl Region {
    /// The host address of the first byte.
    pub closed spec fn spec_host_base(&self) -> usize {
        self.host_base
    }

    /// The GPU virtual address of the first byte.
    pub closed spec fn spec_gpu_base(&self) -> u64 {
        self.gpu_base
    }

    /// The number of bytes.
    pub closed spec fn spec_len(&self) -> usize {
        self.len
    }

    /// Whether three numbers describe a region: both addresses non-null and on
    /// page boundaries, whole pages, and no address past the end of its range.
    pub open spec fn valid(host_base: usize, gpu_base: u64, len: usize) -> bool {
        &&& host_base != 0
        &&& gpu_base != 0
        &&& page_aligned(host_base as int)
        &&& page_aligned(gpu_base as int)
        &&& page_aligned(len as int)
        &&& host_base + len <= usize::MAX
        &&& gpu_base + len <= u64::MAX
    }

    /// Every region is valid.
    pub open spec fn wf(&self) -> bool {
        Self::valid(self.spec_host_base(), self.spec_gpu_base(), self.spec_len())
    }

    /// Describes the `len` bytes at `host_base` and `gpu_base`, or fails with
    /// `InvalidArgument` where the three numbers describe no region.
    pub fn new(host_base: usize, gpu_base: u64, len: usize) -> (r: Result<Region, Error>)
        ensures
            match r {
                Ok(region) => {
                    &&& Self::valid(host_base, gpu_base, len)
                    &&& region.wf()
                    &&& region.spec_host_base() == host_base
                    &&& region.spec_gpu_base() == gpu_base
                    &&& region.spec_len() == len
                },
                Err(e) => !Self::valid(host_base, gpu_base, len) && e == Error::InvalidArgument,
            },
    {
        assert(gpu_base & 0x3fff == gpu_base % 0x4000) by (bit_vector);
        if host_base == 0 || gpu_base == 0 || !is_page_aligned(host_base) || gpu_base & 0x3fff != 0
            || !is_page_aligned(len) {
            return Err(Error::InvalidArgument);
        }
        if len > usize::MAX - host_base || len as u64 > u64::MAX - gpu_base {
            return Err(Error::InvalidArgument);
        }
        Ok(Region { host_base, gpu_base, len })
    }

    /// Returns the host address of the first byte.
    pub fn host_base(&self) -> (r: usize)
        ensures
            r == self.spec_host_base(),
    {
        self.host_base
    }

    /// Returns the GPU virtual address of the first byte.
    pub fn gpu_base(&self) -> (r: u64)
        ensures
            r == self.spec_gpu_base(),
    {
        self.gpu_base
    }

    /// Returns the number of bytes.
    pub fn len(&self) -> (r: usize)
        ensures
            r == self.spec_len(),
    {
        self.len
    }
}

/// How much of its region an allocator had handed out at some moment.
#[derive(Clone, Copy, Debug, PartialEq, Eq, Structural)]
pub struct Mark {
    used: usize,
}

impl Mark {
    /// The bytes of the region that were taken at that moment.
    pub closed spec fn spec_used(&self) -> usize {
        self.used
    }
}

/// Hands out allocations from a region, each in pages of its own.
#[derive(Debug)]
pub struct SimpleAllocator {
    region: Region,
    used: usize,
    min_align: usize,
}

impl SimpleAllocator {
    /// The region that the allocations come from.
    pub closed spec fn spec_region(&self) -> Region {
        self.region
    }

    /// The bytes of the region that earlier allocations have taken.
    pub closed spec fn spec_used(&self) -> usize {
        self.used
    }

    /// The least alignment of every allocation.
    pub closed spec fn spec_min_align(&self) -> usize {
        self.min_align
    }

    /// The region is valid and whole pages of it are taken.
    pub open spec fn wf(&self) -> bool {
        &&& self.spec_region().wf()
        &&& self.spec_used() <= self.spec_region().spec_len()
        &&& page_aligned(self.spec_used() as int)
    }

    /// Whether `self` is what `pre` can become by allocating: the region and
    /// the least alignment stay, and what was taken stays taken.
    pub open spec fn follows(&self, pre: SimpleAllocator) -> bool {
        &&& self.spec_region() == pre.spec_region()
        &&& self.spec_min_align() == pre.spec_min_align()
        &&& self.spec_used() >= pre.spec_used()
    }

    /// Whether `self` is as `pre` was: the same region, the same least
    /// alignment, and the same bytes taken.
    pub open spec fn restored(&self, pre: SimpleAllocator) -> bool {
        &&& self.wf()
        &&& self.spec_region() == pre.spec_region()
        &&& self.spec_min_align() == pre.spec_min_align()
        &&& self.spec_used() == pre.spec_used()
    }

    /// The bytes of the region that no allocation has taken.
    pub open spec fn room(&self) -> int {
        self.spec_region().spec_len() - self.spec_used()
    }

    /// How an allocation of `size` bytes at alignment `align` ends once
    /// `taken` more bytes of the region are gone: `InvalidArgument` where
    /// `align` is no power of two, else `NoMemory` where the pages cannot be
    /// had.
    pub open spec fn fits(&self, size: int, align: usize, taken: int) -> Result<(), Error> {
        if !is_pow2(align as int) {
            Err(Error::InvalidArgument)
        } else if page_ceil(size) > usize::MAX || page_ceil(size) > self.room() - taken {
            Err(Error::NoMemory)
        } else {
            Ok(())
        }
    }

    /// Whether `size` bytes at alignment `align` can still be had.
    pub open spec fn can_allocate(&self, size: usize, align: usize) -> bool {
        &&& geometry_defined(size, align)
        &&& page_ceil(size as int) <= self.room()
    }

    /// The host address that the next allocation of this geometry gets.
    pub open spec fn next_ptr(&self, size: usize, align: usize) -> int {
        self.spec_region().spec_host_base() + self.spec_used() + geometry_of(size, align).offset
    }

    /// The GPU virtual address that the next allocation of this geometry gets.
    pub open spec fn next_gpu_ptr(&self, size: usize, align: usize) -> int {
        self.spec_region().spec_gpu_base() + self.spec_used() + geometry_of(size, align).offset
    }

    /// What one allocation of `size` bytes at alignment `align` does: how the
    /// allocator `post` and the result `r` follow from the allocator `pre`.
    ///
    /// On success the addresses are those that `next_ptr` and `next_gpu_ptr`
    /// give: they are not null, honour `align` up to the size of a page, and
    /// the bytes end inside their address ranges. A failure changes nothing.
    pub open spec fn allocated<T>(
        pre: SimpleAllocator,
        post: SimpleAllocator,
        size: usize,
        align: usize,
        r: Result<SimpleAllocation<T>, Error>,
    ) -> bool {
        &&& post.wf()
        &&& post.spec_region() == pre.spec_region()
        &&& post.spec_min_align() == pre.spec_min_align()
        &&& match r {
            Ok(a) => {
                &&& pre.can_allocate(size, align)
                &&& a.spec_ptr() == pre.next_ptr(size, align)
                &&& a.spec_gpu_ptr() == pre.next_gpu_ptr(size, align)
                &&& a.spec_size() == size
                &&& post.spec_used() == pre.spec_used() + page_ceil(size as int)
                &&& a.spec_ptr() != 0
                &&& a.spec_gpu_ptr() != 0
                &&& a.spec_ptr() + size <= usize::MAX
                &&& a.spec_gpu_ptr() + size <= u64::MAX
                &&& align <= UAT_PGSZ ==> a.spec_ptr() % align == 0 && a.spec_gpu_ptr() % (
                align as u64) == 0
                &&& align >= UAT_PGSZ ==> page_aligned(a.spec_ptr() as int) && page_aligned(
                    a.spec_gpu_ptr() as int,
                )
            },
            Err(e) => {
                &&& !pre.can_allocate(size, align)
                &&& post.spec_used() == pre.spec_used()
                &&& e == (if is_pow2(align as int) {
                    Error::NoMemory
                } else {
                    Error::InvalidArgument
                })
            },
        }
    }

    /// What one allocation for the firmware layout of a `T` does: the size is
    /// that of the layout, the alignment the larger of the layout's own and
    /// the allocator's least alignment.
    pub open spec fn object_allocated<T: GPUStruct>(
        pre: SimpleAllocator,
        post: SimpleAllocator,
        r: Result<SimpleAllocation<T>, Error>,
    ) -> bool {
        &&& size_of::<T::Raw>() <= usize::MAX
        &&& align_of::<T::Raw>() <= usize::MAX
        &&& Self::allocated(
            pre,
            post,
            size_of::<T::Raw>() as usize,
            pre.align_for(align_of::<T::Raw>()),
            r,
        )
    }

    /// The alignment of an allocation for a type whose own alignment is
    /// `natural`: the larger of that and the allocator's least alignment.
    pub open spec fn align_for(&self, natural: nat) -> usize {
        if self.spec_min_align() >= natural {
            self.spec_min_align()
        } else {
            natural as usize
        }
    }

    /// An allocator over `region` that has handed out nothing yet.
    pub fn new(region: Region, min_align: usize) -> (r: SimpleAllocator)
        requires
            region.wf(),
        ensures
            r.wf(),
            r.spec_region() == region,
            r.spec_used() == 0,
            r.spec_min_align() == min_align,
    {
        SimpleAllocator { region, used: 0, min_align }
    }

    /// Returns the least alignment of every allocation.
    pub fn min_align(&self) -> (r: usize)
        ensures
            r == self.spec_min_align(),
    {
        self.min_align
    }

    /// Returns the region that the allocations come from.
    pub fn region(&self) -> (r: Region)
        ensures
            r == self.spec_region(),
    {
        self.region
    }

    /// Returns the bytes of the region that earlier allocations have taken.
    pub fn used(&self) -> (r: usize)
        ensures
            r == self.spec_used(),
    {
        self.used
    }

    /// Returns how much of the region is handed out now.
    pub fn mark(&self) -> (r: Mark)
        ensures
            r.spec_used() == self.spec_used(),
    {
        Mark { used: self.used }
    }

    /// Takes back every allocation made since `mark`, whose holders must
    /// have let go of them: the allocator is as it was at `mark`.
    ///
    /// A mark that lies ahead of what is handed out changes nothing.
    pub fn rewind(&mut self, mark: Mark)
        requires
            old(self).wf(),
            page_aligned(mark.spec_used() as int),
        ensures
            final(self).wf(),
            final(self).spec_region() == old(self).spec_region(),
            final(self).spec_min_align() == old(self).spec_min_align(),
            final(self).spec_used() == (if mark.spec_used() <= old(self).spec_used() {
                mark.spec_used()
            } else {
                old(self).spec_used()
            }),
            mark.spec_used() >= old(self).spec_used() ==> *final(self) == *old(self),
    {
        if mark.used <= self.used {
            self.used = mark.used;
        }
    }

    /// Allocates `size` bytes whose first byte lies on `align`.
    ///
    /// The bytes get whole pages of their own, taken from the region behind
    /// what earlier allocations took. Fails with `InvalidArgument` where
    /// `align` is no power of two, and with `NoMemory` where the region has
    /// not that many pages left; a failure changes nothing.
    pub fn allocate<T>(&mut self, size: usize, align: usize) -> (r: Result<
        SimpleAllocation<T>,
        Error,
    >)
        requires
            old(self).wf(),
        ensures
            Self::allocated(*old(self), *final(self), size, align, r),
    {
        let g = match geometry(size, align) {
            Ok(g) => g,
            Err(e) => {
                return Err(e);
            },
        };
        if g.size_aligned > self.region.len - self.used {
            return Err(Error::NoMemory);
        }
        proof {
            lemma_geometry(size, align);
            lemma_allocation(*self, size, align);
        }
        let start = self.used + g.offset;
        let ptr = self.region.host_base + start;
        let gpu_ptr = self.region.gpu_base + start as u64;
        self.used = self.used + g.size_aligned;
        Ok(SimpleAllocation::new(ptr, gpu_ptr, size))
    }

    /// Allocates room for the firmware layout of a `T`.
    ///
    /// The size is that of the layout; the alignment is the larger of the
    /// layout's own and the allocator's least alignment.
    pub fn prealloc<T: GPUStruct>(&mut self) -> (r: Result<SimpleAllocation<T>, Error>)
        requires
            old(self).wf(),
        ensures
            Self::object_allocated(*old(self), *final(self), r),
    {
        let size = core::mem::size_of::<T::Raw>();
        let natural = core::mem::align_of::<T::Raw>();
        let align = if self.min_align >= natural {
            self.min_align
        } else {
            natural
        };
        self.allocate(size, align)
    }

    /// Allocates an object whose layout is what `callback` makes of `inner`.
    ///
    /// Fails where the allocation fails, and then without calling
    /// `callback`.
    pub fn new_object<T: GPUStruct, F: FnOnce(&T) -> T::Raw>(
        &mut self,
        inner: T,
        callback: F,
    ) -> (r: Result<GPUObject<T, SimpleAllocation<T>>, Error>)
        requires
            old(self).wf(),
            callback.requires((&inner,)),
        ensures
            match r {
                Ok(o) => {
                    &&& Self::object_allocated(*old(self), *final(self), Ok(o.spec_alloc()),
                    )
                    &&& o.wf()
                    &&& o.spec_inner() == inner
                    &&& callback.ensures((&inner,), o.spec_raw())
                },
                Err(e) => Self::object_allocated::<T>(*old(self), *final(self), Err(e),
                ),
            },
    {
        let alloc = match self.prealloc::<T>() {
            Ok(a) => a,
            Err(e) => {
                return Err(e);
            },
        };
        GPUObject::new(alloc, inner, callback)
    }

    /// Allocates an object whose layout and host value are the defaults of
    /// their types.
    ///
    /// Fails where the allocation fails.
    pub fn new_default_object<T: GPUStruct + Default>(&mut self) -> (r: Result<
        GPUObject<T, SimpleAllocation<T>>,
        Error,
    >) where T::Raw: Default
        requires
            old(self).wf(),
        ensures
            match r {
                Ok(o) => {
                    &&& Self::object_allocated(*old(self), *final(self), Ok(o.spec_alloc()),
                    )
                    &&& o.wf()
                    &&& call_ensures(T::default, (), o.spec_inner())
                    &&& call_ensures(<T::Raw as Default>::default, (), o.spec_raw())
                },
                Err(e) => Self::object_allocated::<T>(*old(self), *final(self), Err(e),
                ),
            },
    {
        let alloc = match self.prealloc::<T>() {
            Ok(a) => a,
            Err(e) => {
                return Err(e);
            },
        };
        GPUObject::new_default(alloc)
    }

    /// Allocates an object around the boxed `inner`; `callback` fills the
    /// layout as for `GPUObject::new_boxed`.
    ///
    /// Fails where the allocation fails, without calling `callback`; else as
    /// `GPUObject::new_boxed`, and then the allocation is given back.
    pub fn new_boxed_object<
        T: GPUStruct,
        F: FnOnce(&T, usize) -> Result<Placed<T::Raw>, Error>,
    >(&mut self, inner: Box<T>, callback: F) -> (r: Result<
        GPUObject<T, SimpleAllocation<T>>,
        Error,
    >)
        requires
            old(self).wf(),
            forall|place: usize| #[trigger] callback.requires((&*inner, place)),
        ensures
            Self::object_allocated::<T>(*old(self), *final(self), Err(r->Err_0)) && r is Err
                || exists|
                alloc: SimpleAllocation<T>,
                answer: Result<Placed<T::Raw>, Error>,
                mid: SimpleAllocator,
            |
                {
                    &&& #[trigger] Self::object_allocated(*old(self), mid, Ok(alloc))
                    &&& #[trigger] callback.ensures((&*inner, alloc.spec_ptr()), answer)
                    &&& #[trigger] GPUObject::<T, SimpleAllocation<T>>::placed(
                        alloc,
                        *inner,
                        answer,
                        r,
                    )
                    &&& if (r is Ok) {
                        *final(self) == mid
                    } else {
                        final(self).restored(*old(self))
                    }
                },
    {
        let mark = self.mark();
        let alloc = match self.prealloc::<T>() {
            Ok(a) => a,
            Err(e) => {
                return Err(e);
            },
        };
        let ghost place = alloc;
        let ghost host = *inner;
        let ghost mid = *self;
        let r = GPUObject::new_boxed(alloc, inner, callback);
        if r.is_err() {
            self.rewind(mark);
        }
        proof {
            let answer = choose|answer: Result<Placed<T::Raw>, Error>|
                {
                    &&& #[trigger] callback.ensures((&host, place.spec_ptr()), answer)
                    &&& GPUObject::<T, SimpleAllocation<T>>::placed(place, host, answer, r)
                };
            assert(callback.ensures((&host, place.spec_ptr()), answer));
            assert(GPUObject::<T, SimpleAllocation<T>>::placed(place, host, answer, r));
            assert(Self::object_allocated(*old(self), mid, Ok(place)));
        }
        r
    }

    /// As `new_boxed_object`, with `inner` boxed here.
    pub fn new_inplace_object<
        T: GPUStruct,
        F: FnOnce(&T, usize) -> Result<Placed<T::Raw>, Error>,
    >(&mut self, inner: T, callback: F) -> (r: Result<GPUObject<T, SimpleAllocation<T>>, Error>)
        requires
            old(self).wf(),
            forall|place: usize| #[trigger] callback.requires((&inner, place)),
        ensures
            Self::object_allocated::<T>(*old(self), *final(self), Err(r->Err_0)) && r is Err
                || exists|
                alloc: SimpleAllocation<T>,
                answer: Result<Placed<T::Raw>, Error>,
                mid: SimpleAllocator,
            |
                {
                    &&& #[trigger] Self::object_allocated(*old(self), mid, Ok(alloc))
                    &&& #[trigger] callback.ensures((&inner, alloc.spec_ptr()), answer)
                    &&& #[trigger] GPUObject::<T, SimpleAllocation<T>>::placed(
                        alloc,
                        inner,
                        answer,
                        r,
                    )
                    &&& if (r is Ok) {
                        *final(self) == mid
                    } else {
                        final(self).restored(*old(self))
                    }
                },
    {
        let mark = self.mark();
        let alloc = match self.prealloc::<T>() {
            Ok(a) => a,
            Err(e) => {
                return Err(e);
            },
        };
        let ghost place = alloc;
        let ghost host = inner;
        let ghost mid = *self;
        let r = GPUObject::new_inplace(alloc, inner, callback);
        if r.is_err() {
            self.rewind(mark);
        }
        proof {
            let answer = choose|answer: Result<Placed<T::Raw>, Error>|
                {
                    &&& #[trigger] callback.ensures((&host, place.spec_ptr()), answer)
                    &&& GPUObject::<T, SimpleAllocation<T>>::placed(place, host, answer, r)
                };
            assert(callback.ensures((&host, place.spec_ptr()), answer));
            assert(GPUObject::<T, SimpleAllocation<T>>::placed(place, host, answer, r));
            assert(Self::object_allocated(*old(self), mid, Ok(place)));
        }
        r
    }

    /// Allocates an object whose host value must know the object's GPU
    /// address: `inner_cb` makes the host value from the address, then
    /// `raw_cb` fills the layout.
    ///
    /// Fails where the allocation fails, without calling either callback;
    /// else as `GPUObject::new_prealloc`, and then the allocation is given
    /// back.
    pub fn new_prealloc_object<
        T: GPUStruct,
        G: FnOnce(GPUWeakPointer<T>) -> Result<Box<T>, Error>,
        F: FnOnce(&T, usize) -> Result<Placed<T::Raw>, Error>,
    >(&mut self, inner_cb: G, raw_cb: F) -> (r: Result<GPUObject<T, SimpleAllocation<T>>, Error>)
        requires
            old(self).wf(),
            forall|p: GPUWeakPointer<T>| #[trigger] inner_cb.requires((p,)),
            forall|inner: &T, place: usize| #[trigger] raw_cb.requires((inner, place)),
        ensures
            Self::object_allocated::<T>(*old(self), *final(self), Err(r->Err_0)) && r is Err
                || exists|
                alloc: SimpleAllocation<T>,
                p: GPUWeakPointer<T>,
                made: Result<Box<T>, Error>,
                mid: SimpleAllocator,
            |
                {
                    &&& #[trigger] Self::object_allocated(*old(self), mid, Ok(alloc))
                    &&& p.spec_addr() == alloc.spec_gpu_ptr()
                    &&& #[trigger] inner_cb.ensures((p,), made)
                    &&& match made {
                        Err(e) => r == Err::<GPUObject<T, SimpleAllocation<T>>, Error>(e),
                        Ok(inner) => exists|answer: Result<Placed<T::Raw>, Error>|
                            {
                                &&& #[trigger] raw_cb.ensures((&*inner, alloc.spec_ptr()), answer)
                                &&& GPUObject::<T, SimpleAllocation<T>>::placed(
                                    alloc,
                                    *inner,
                                    answer,
                                    r,
                                )
                            },
                    }
                    &&& if (r is Ok) {
                        *final(self) == mid
                    } else {
                        final(self).restored(*old(self))
                    }
                },
    {
        let mark = self.mark();
        let alloc = match self.prealloc::<T>() {
            Ok(a) => a,
            Err(e) => {
                return Err(e);
            },
        };
        let ghost place = alloc;
        let ghost mid = *self;
        let r = GPUObject::new_prealloc(alloc, inner_cb, raw_cb);
        if r.is_err() {
            self.rewind(mark);
        }
        proof {
            let (p, made) = choose|p: GPUWeakPointer<T>, made: Result<Box<T>, Error>|
                {
                    &&& p.spec_addr() == place.spec_gpu_ptr()
                    &&& #[trigger] inner_cb.ensures((p,), made)
                    &&& match made {
                        Err(e) => r == Err::<GPUObject<T, SimpleAllocation<T>>, Error>(e),
                        Ok(inner) => exists|answer: Result<Placed<T::Raw>, Error>|
                            {
                                &&& #[trigger] raw_cb.ensures((&*inner, place.spec_ptr()), answer)
                                &&& GPUObject::<T, SimpleAllocation<T>>::placed(
                                    place,
                                    *inner,
                                    answer,
                                    r,
                                )
                            },
                    }
                };
            assert(inner_cb.ensures((p,), made));
            assert(Self::object_allocated(*old(self), mid, Ok(place)));
        }
        r
    }

    /// Allocates an array of `count` elements, each the default of its type.
    ///
    /// The size is that of `count` elements; the alignment is the larger of
    /// the element's own and the allocator's least alignment. Fails with
    /// `NoMemory` where that size is no `usize`, else where the allocation
    /// fails.
    pub fn new_array<T: Default>(&mut self, count: usize) -> (r: Result<
        GPUArray<T, SimpleAllocation<T>>,
        Error,
    >)
        requires
            old(self).wf(),
        ensures
            if count * size_of::<T>() > usize::MAX {
                r is Err && r->Err_0 == Error::NoMemory && *final(self) == *old(self)
            } else {
                match r {
                    Ok(a) => {
                        &&& Self::allocated(
                            *old(self),
                            *final(self),
                            (count * size_of::<T>()) as usize,
                            old(self).align_for(align_of::<T>()),
                            Ok(a.spec_alloc()),
                        )
                        &&& a.wf()
                        &&& a@.len() == count
                        &&& forall|i: int|
                            0 <= i < count ==> call_ensures(T::default, (), #[trigger] a@[i])
                    },
                    Err(e) => Self::allocated::<T>(
                        *old(self),
                        *final(self),
                        (count * size_of::<T>()) as usize,
                        old(self).align_for(align_of::<T>()),
                        Err(e),
                    ),
                }
            },
    {
        let size = match count.checked_mul(core::mem::size_of::<T>()) {
            Some(s) => s,
            None => {
                return Err(Error::NoMemory);
            },
        };
        let natural = core::mem::align_of::<T>();
        let align = if self.min_align >= natural {
            self.min_align
        } else {
            natural
        };
        let alloc = match self.allocate::<T>(size, align) {
            Ok(a) => a,
            Err(e) => {
                return Err(e);
            },
        };
        GPUArray::empty(alloc, count)
    }
}

/// A sum of two multiples of `a` is a multiple of `a`.
proof fn lemma_mod_sum(x: int, y: int, a: int)
    requires
        a > 0,
        x % a == 0,
        y % a == 0,
    ensures
        (x + y) % a == 0,
{
    vstd::arithmetic::div_mod::lemma_fundamental_div_mod(x, a);
    vstd::arithmetic::div_mod::lemma_fundamental_div_mod(y, a);
    let k = x / a + y / a;
    assert(x + y == a * k) by (nonlinear_arith)
        requires
            x == a * (x / a),
            y == a * (y / a),
            k == x / a + y / a,
    ;
    assert((a * k) % a == 0) by (nonlinear_arith)
        requires
            a > 0,
    ;
}

/// A multiple of `p` is a multiple of every divisor of `p`.
proof fn lemma_mod_chain(x: int, p: int, a: int)
    requires
        a > 0,
        p > 0,
        x % p == 0,
        p % a == 0,
    ensures
        x % a == 0,
{
    vstd::arithmetic::div_mod::lemma_fundamental_div_mod(x, p);
    vstd::arithmetic::div_mod::lemma_fundamental_div_mod(p, a);
    let k = (p / a) * (x / p);
    assert(x == a * k) by (nonlinear_arith)
        requires
            x == p * (x / p),
            p == a * (p / a),
            k == (p / a) * (x / p),
    ;
    assert((a * k) % a == 0) by (nonlinear_arith)
        requires
            a > 0,
    ;
}

/// Every allocation that succeeds gives addresses that are not null, that
/// honour the alignment asked for up to the size of a page, and that lie
/// with all their bytes in pages that no earlier allocation has.
pub proof fn lemma_allocation(a: SimpleAllocator, size: usize, align: usize)
    requires
        a.wf(),
        a.can_allocate(size, align),
    ensures
        a.next_ptr(size, align) != 0,
        a.next_gpu_ptr(size, align) != 0,
        align <= UAT_PGSZ ==> a.next_ptr(size, align) % (align as int) == 0 && a.next_gpu_ptr(
            size,
            align,
        ) % (align as int) == 0,
        align >= UAT_PGSZ ==> page_aligned(a.next_ptr(size, align)) && page_aligned(
            a.next_gpu_ptr(size, align),
        ),
        a.spec_region().spec_host_base() + a.spec_used() <= a.next_ptr(size, align),
        a.next_ptr(size, align) + size <= a.spec_region().spec_host_base() + a.spec_used()
            + page_ceil(size as int),
        a.spec_region().spec_gpu_base() + a.spec_used() <= a.next_gpu_ptr(size, align),
        a.next_gpu_ptr(size, align) + size <= a.spec_region().spec_gpu_base() + a.spec_used()
            + page_ceil(size as int),
        a.next_ptr(size, align) + size <= usize::MAX,
        a.next_gpu_ptr(size, align) + size <= u64::MAX,
{
    lemma_geometry(size, align);
    lemma_align_positive(align as int);
    lemma_page_size_pow2();
    let g = geometry_of(size, align);
    let hb = a.spec_region().spec_host_base() as int;
    let gb = a.spec_region().spec_gpu_base() as int;
    let used = a.spec_used() as int;
    let al = align as int;
    let pg = UAT_PGSZ as int;
    lemma_mod_sum(hb, used, pg);
    lemma_mod_sum(gb, used, pg);
    if align <= UAT_PGSZ {
        lemma_pow2_divides(al, pg);
        lemma_mod_chain(hb + used, pg, al);
        lemma_mod_chain(gb + used, pg, al);
        lemma_mod_sum(hb + used, g.offset as int, al);
        lemma_mod_sum(gb + used, g.offset as int, al);
    }
    if align >= UAT_PGSZ {
        assert(g.offset == 0);
    }
}

/// Allocations never alias: of two allocations that one allocator has made
/// one after the other, the bytes of the first end before the bytes of the
/// second begin, for the host and for the GPU, with the unused end of the
/// first's pages between them.
pub proof fn lemma_allocations_disjoint<T, U>(
    a0: SimpleAllocator,
    a1: SimpleAllocator,
    a2: SimpleAllocator,
    first: SimpleAllocation<T>,
    second: SimpleAllocation<U>,
    size1: usize,
    align1: usize,
    size2: usize,
    align2: usize,
)
    requires
        a0.wf(),
        SimpleAllocator::allocated(a0, a1, size1, align1, Ok(first)),
        SimpleAllocator::allocated(a1, a2, size2, align2, Ok(second)),
    ensures
        first.spec_ptr() + first.spec_size() <= second.spec_ptr(),
        first.spec_gpu_ptr() + first.spec_size() <= second.spec_gpu_ptr(),
        second.spec_ptr() - a0.spec_region().spec_host_base() == second.spec_gpu_ptr()
            - a0.spec_region().spec_gpu_base(),
        first.spec_ptr() - a0.spec_region().spec_host_base() == first.spec_gpu_ptr()
            - a0.spec_region().spec_gpu_base(),
{
    lemma_allocation(a0, size1, align1);
    lemma_allocation(a1, size2, align2);
}

/// Reads the size and the alignment of a `T`. Both are machine words.
pub fn layout_of<T>() -> (r: (usize, usize))
    ensures
        r.0 == size_of::<T>(),
        r.1 == align_of::<T>(),
{
    (core::mem::size_of::<T>(), core::mem::align_of::<T>())
}

/// With a least alignment that is a power of two, an allocation for a type
/// fails for want of room only: it succeeds exactly where the pages of its
/// size are left in the region.
pub proof fn lemma_fits<T>(a: SimpleAllocator, size: int, taken: int)
    requires
        a.wf(),
        is_pow2(a.spec_min_align() as int),
        align_of::<T>() <= usize::MAX,
        0 <= size,
        0 <= taken,
    ensures
        is_pow2(a.align_for(align_of::<T>()) as int),
        a.fits(size, a.align_for(align_of::<T>()), taken) == (if page_ceil(size) <= a.room()
            - taken {
            Ok::<(), Error>(())
        } else {
            Err::<(), Error>(Error::NoMemory)
        }),
        0 <= page_ceil(size),
{
    broadcast use vstd::layout::align_properties;

    lemma_page_ceil(size);
}

} // verus!
