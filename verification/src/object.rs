//! Typed objects and arrays in shared memory. Each pairs the fixed layout
//! that the firmware reads and writes with the value that the host keeps
//! beside it.

use vstd::prelude::*;
use vstd::layout::size_of;
use core::marker::PhantomData;
use crate::allocator::Allocation;
use crate::error::Error;

verus! {

/// The GPU virtual address of a `T` that some object keeps alive for `'a`.
#[derive(Debug)]
pub struct GPUPointer<'a, T>(u64, PhantomData<&'a T>);

impl<'a, T> GPUPointer<'a, T> {
    /// The address.
    pub closed spec fn spec_addr(&self) -> u64 {
        self.0
    }

    #[verifier::type_invariant]
    spec fn nonnull(&self) -> bool {
        self.0 != 0
    }

    /// Returns the address, which is never null.
    pub fn addr(&self) -> (r: u64)
        ensures
            r == self.spec_addr(),
            r != 0,
    {
        proof {
            use_type_invariant(self);
        }
        self.0
    }

    /// The pointer with the bits of `other` set in its address.
    pub fn or(&self, other: u64) -> (r: GPUPointer<'a, T>)
        ensures
            r.spec_addr() == self.spec_addr() | other,
            r.spec_addr() != 0,
    {
        proof {
            use_type_invariant(self);
        }
        let a = self.0;
        assert(a != 0 ==> a | other != 0) by (bit_vector);
        GPUPointer(a | other, PhantomData)
    }

    /// The pointer `off` bytes further on, to a `U` inside the `T`.
    pub fn offset<U>(&self, off: usize) -> (r: GPUPointer<'a, U>)
        requires
            self.spec_addr() + off <= u64::MAX,
        ensures
            r.spec_addr() == self.spec_addr() + off,
    {
        proof {
            use_type_invariant(self);
        }
        GPUPointer(self.0 + off as u64, PhantomData)
    }
}

/// The GPU virtual address of a `T`, with no promise that the `T` is still
/// there: what one firmware structure holds to refer to another.
#[derive(Debug)]
pub struct GPUWeakPointer<T>(u64, PhantomData<T>);

impl<T> Clone for GPUWeakPointer<T> {
    fn clone(&self) -> (r: Self)
        ensures
            r.spec_addr() == self.spec_addr(),
    {
        proof {
            use_type_invariant(self);
        }
        GPUWeakPointer(self.0, PhantomData)
    }
}

impl<T> Copy for GPUWeakPointer<T> {

}

impl<T> GPUWeakPointer<T> {
    /// The address.
    pub closed spec fn spec_addr(&self) -> u64 {
        self.0
    }

    #[verifier::type_invariant]
    spec fn nonnull(&self) -> bool {
        self.0 != 0
    }

    /// Returns the address, which is never null.
    pub fn addr(&self) -> (r: u64)
        ensures
            r == self.spec_addr(),
            r != 0,
    {
        proof {
            use_type_invariant(self);
        }
        self.0
    }

    /// The pointer with the bits of `other` set in its address.
    pub fn or(&self, other: u64) -> (r: GPUWeakPointer<T>)
        ensures
            r.spec_addr() == self.spec_addr() | other,
            r.spec_addr() != 0,
    {
        proof {
            use_type_invariant(self);
        }
        let a = self.0;
        assert(a != 0 ==> a | other != 0) by (bit_vector);
        GPUWeakPointer(a | other, PhantomData)
    }

    /// The pointer `off` bytes further on, to a `U` inside the `T`.
    pub fn offset<U>(&self, off: usize) -> (r: GPUWeakPointer<U>)
        requires
            self.spec_addr() + off <= u64::MAX,
        ensures
            r.spec_addr() == self.spec_addr() + off,
    {
        proof {
            use_type_invariant(self);
        }
        GPUWeakPointer(self.0 + off as u64, PhantomData)
    }
}

/// A host value that has a firmware layout.
pub trait GPUStruct: Sized {
    /// The layout that the firmware reads and writes.
    type Raw;
}

/// What a construction callback hands back: the layout it has filled in, and
/// the host address of the place it filled.
pub struct Placed<R> {
    /// Host address of the place that was filled.
    pub ptr: usize,
    /// What the place now holds.
    pub raw: R,
}

/// An object in shared memory: the firmware's layout of a `T`, the host's
/// `T` beside it, and the allocation that holds the layout.
pub struct GPUObject<T: GPUStruct, U: Allocation<T>> {
    raw: T::Raw,
    alloc: U,
    gpu_ptr: GPUWeakPointer<T>,
    inner: Box<T>,
}

impl<T: GPUStruct, U: Allocation<T>> GPUObject<T, U> {
    /// What the firmware sees.
    pub closed spec fn spec_raw(&self) -> T::Raw {
        self.raw
    }

    /// What the host keeps.
    pub closed spec fn spec_inner(&self) -> T {
        *self.inner
    }

    /// The allocation that holds the layout.
    pub closed spec fn spec_alloc(&self) -> U {
        self.alloc
    }

    /// The GPU virtual address of the layout.
    pub closed spec fn spec_gpu_va(&self) -> u64 {
        self.gpu_ptr.spec_addr()
    }

    /// The layout fits its allocation and sits at the allocation's address,
    /// which is not null.
    pub open spec fn wf(&self) -> bool {
        &&& self.spec_alloc().spec_size() >= size_of::<T::Raw>()
        &&& self.spec_gpu_va() == self.spec_alloc().spec_gpu_ptr()
        &&& self.spec_gpu_va() != 0
    }

    /// Whether `alloc` can hold an object: `NoMemory` where it is too small
    /// for the layout, else `InvalidArgument` where its GPU address is null.
    pub open spec fn admits(alloc: U) -> Result<(), Error> {
        if alloc.spec_size() < size_of::<T::Raw>() {
            Err(Error::NoMemory)
        } else if alloc.spec_gpu_ptr() == 0 {
            Err(Error::InvalidArgument)
        } else {
            Ok(())
        }
    }

    fn check(alloc: &U) -> (r: Result<GPUWeakPointer<T>, Error>)
        ensures
            match r {
                Ok(p) => Self::admits(*alloc) is Ok && p.spec_addr() == alloc.spec_gpu_ptr(),
                Err(e) => Self::admits(*alloc) == Err::<(), Error>(e),
            },
    {
        if alloc.size() < core::mem::size_of::<T::Raw>() {
            return Err(Error::NoMemory);
        }
        let gpu_ptr = alloc.gpu_ptr();
        if gpu_ptr == 0 {
            return Err(Error::InvalidArgument);
        }
        Ok(GPUWeakPointer(gpu_ptr, PhantomData))
    }

    /// Builds an object in `alloc` whose layout is what `callback` makes of
    /// `inner`.
    ///
    /// Fails as `admits` says, and then without calling `callback`.
    pub fn new<F: FnOnce(&T) -> T::Raw>(alloc: U, inner: T, callback: F) -> (r: Result<
        Self,
        Error,
    >)
        requires
            callback.requires((&inner,)),
        ensures
            match r {
                Ok(o) => {
                    &&& Self::admits(alloc) is Ok
                    &&& o.wf()
                    &&& o.spec_alloc() == alloc
                    &&& o.spec_inner() == inner
                    &&& callback.ensures((&inner,), o.spec_raw())
                },
                Err(e) => Self::admits(alloc) == Err::<(), Error>(e),
            },
    {
        let gpu_ptr = match Self::check(&alloc) {
            Ok(p) => p,
            Err(e) => {
                return Err(e);
            },
        };
        let raw = callback(&inner);
        Ok(Self { raw, gpu_ptr, alloc, inner: Box::new(inner) })
    }

    /// How `new_boxed` ends once the callback has answered `answer`.
    pub open spec fn placed(alloc: U, inner: T, answer: Result<Placed<T::Raw>, Error>, r: Result<
        Self,
        Error,
    >) -> bool {
        match answer {
            Err(e) => r == Err::<Self, Error>(e),
            Ok(p) => if p.ptr != alloc.spec_ptr() {
                r == Err::<Self, Error>(Error::InvalidArgument)
            } else {
                &&& r matches Ok(o)
                &&& o.wf()
                &&& o.spec_alloc() == alloc
                &&& o.spec_inner() == inner
                &&& o.spec_raw() == p.raw
            },
        }
    }

    /// Builds an object in `alloc` around the boxed `inner`. The callback is
    /// shown `inner` and the host address of the place to fill, and answers
    /// with what it put there.
    ///
    /// Fails as `admits` says, without calling `callback`; with the
    /// callback's own error; and with `InvalidArgument` where the callback
    /// answers for another place than it was shown.
    pub fn new_boxed<F: FnOnce(&T, usize) -> Result<Placed<T::Raw>, Error>>(
        alloc: U,
        inner: Box<T>,
        callback: F,
    ) -> (r: Result<Self, Error>)
        requires
            callback.requires((&*inner, alloc.spec_ptr())),
        ensures
            match Self::admits(alloc) {
                Err(e) => r == Err::<Self, Error>(e),
                Ok(_) => exists|answer: Result<Placed<T::Raw>, Error>|
                    {
                        &&& #[trigger] callback.ensures((&*inner, alloc.spec_ptr()), answer)
                        &&& Self::placed(alloc, *inner, answer, r)
                    },
            },
    {
        let gpu_ptr = match Self::check(&alloc) {
            Ok(p) => p,
            Err(e) => {
                return Err(e);
            },
        };
        let p = alloc.ptr();
        let answer = callback(&*inner, p);
        let ghost shown = answer;
        let r = match answer {
            Ok(placed) => {
                if placed.ptr != p {
                    Err(Error::InvalidArgument)
                } else {
                    Ok(Self { raw: placed.raw, gpu_ptr, alloc, inner })
                }
            },
            Err(e) => Err(e),
        };
        assert(Self::placed(alloc, *inner, shown, r));
        r
    }

    /// As `new_boxed`, with `inner` boxed here.
    pub fn new_inplace<F: FnOnce(&T, usize) -> Result<Placed<T::Raw>, Error>>(
        alloc: U,
        inner: T,
        callback: F,
    ) -> (r: Result<Self, Error>)
        requires
            callback.requires((&inner, alloc.spec_ptr())),
        ensures
            match Self::admits(alloc) {
                Err(e) => r == Err::<Self, Error>(e),
                Ok(_) => exists|answer: Result<Placed<T::Raw>, Error>|
                    {
                        &&& #[trigger] callback.ensures((&inner, alloc.spec_ptr()), answer)
                        &&& Self::placed(alloc, inner, answer, r)
                    },
            },
    {
        Self::new_boxed(alloc, Box::new(inner), callback)
    }

    /// Builds an object whose host value must know the object's GPU address:
    /// `inner_cb` makes the host value from the address, then `raw_cb` fills
    /// the layout as in `new_boxed`.
    ///
    /// Fails as `admits` says, without calling either callback; with the
    /// error of `inner_cb`, without calling `raw_cb`; else as `new_boxed`.
    pub fn new_prealloc<
        G: FnOnce(GPUWeakPointer<T>) -> Result<Box<T>, Error>,
        F: FnOnce(&T, usize) -> Result<Placed<T::Raw>, Error>,
    >(alloc: U, inner_cb: G, raw_cb: F) -> (r: Result<Self, Error>)
        requires
            forall|p: GPUWeakPointer<T>|
                p.spec_addr() == alloc.spec_gpu_ptr() ==> #[trigger] inner_cb.requires((p,)),
            forall|inner: &T| #[trigger] raw_cb.requires((inner, alloc.spec_ptr())),
        ensures
            match Self::admits(alloc) {
                Err(e) => r == Err::<Self, Error>(e),
                Ok(_) => exists|p: GPUWeakPointer<T>, made: Result<Box<T>, Error>|
                    {
                        &&& p.spec_addr() == alloc.spec_gpu_ptr()
                        &&& #[trigger] inner_cb.ensures((p,), made)
                        &&& match made {
                            Err(e) => r == Err::<Self, Error>(e),
                            Ok(inner) => exists|answer: Result<Placed<T::Raw>, Error>|
                                {
                                    &&& #[trigger] raw_cb.ensures(
                                        (&*inner, alloc.spec_ptr()),
                                        answer,
                                    )
                                    &&& Self::placed(alloc, *inner, answer, r)
                                },
                        }
                    },
            },
    {
        let gpu_ptr = match Self::check(&alloc) {
            Ok(p) => p,
            Err(e) => {
                return Err(e);
            },
        };
        let made = inner_cb(gpu_ptr);
        let ghost made_shown = made;
        let r = match made {
            Err(e) => Err(e),
            Ok(inner) => {
                let p = alloc.ptr();
                let answer = raw_cb(&*inner, p);
                let ghost shown = answer;
                let r = match answer {
                    Ok(placed) => {
                        if placed.ptr != p {
                            Err(Error::InvalidArgument)
                        } else {
                            Ok(Self { raw: placed.raw, gpu_ptr, alloc, inner })
                        }
                    },
                    Err(e) => Err(e),
                };
                assert(raw_cb.ensures((&*made_shown.unwrap(), alloc.spec_ptr()), shown));
                assert(Self::placed(alloc, *made_shown.unwrap(), shown, r));
                r
            },
        };
        assert(inner_cb.ensures((gpu_ptr,), made_shown));
        r
    }

    /// Returns the GPU virtual address of the layout, which is never null.
    pub fn gpu_va(&self) -> (r: u64)
        ensures
            r == self.spec_gpu_va(),
            r != 0,
    {
        self.gpu_ptr.addr()
    }

    /// Returns a pointer to the layout that lives as long as this borrow.
    pub fn gpu_pointer(&self) -> (r: GPUPointer<'_, T>)
        ensures
            r.spec_addr() == self.spec_gpu_va(),
    {
        let a = self.gpu_ptr.addr();
        GPUPointer(a, PhantomData)
    }

    /// Returns a pointer to the layout that promises nothing about its life.
    pub fn weak_pointer(&self) -> (r: GPUWeakPointer<T>)
        ensures
            r.spec_addr() == self.spec_gpu_va(),
    {
        let a = self.gpu_ptr.addr();
        GPUWeakPointer(a, PhantomData)
    }

    /// Shows `callback` the layout and the host value together, for reading.
    pub fn with<RetVal, F: FnOnce(&T::Raw, &T) -> RetVal>(&self, callback: F) -> (r: RetVal)
        requires
            callback.requires((&self.spec_raw(), &self.spec_inner())),
        ensures
            callback.ensures((&self.spec_raw(), &self.spec_inner()), r),
    {
        callback(&self.raw, &*self.inner)
    }

    /// Hands `callback` the layout and the host value together, for writing.
    /// Nothing else of the object changes.
    pub fn with_mut<RetVal, F: FnOnce(&mut T::Raw, &mut T) -> RetVal>(
        &mut self,
        callback: F,
    ) -> (r: RetVal)
        requires
            forall|raw: &mut T::Raw, inner: &mut T|
                *raw == old(self).spec_raw() && *inner == old(self).spec_inner()
                    ==> #[trigger] callback.requires((raw, inner)),
        ensures
            exists|raw: &mut T::Raw, inner: &mut T|
                {
                    &&& *raw == old(self).spec_raw()
                    &&& *inner == old(self).spec_inner()
                    &&& *final(raw) == final(self).spec_raw()
                    &&& *final(inner) == final(self).spec_inner()
                    &&& #[trigger] callback.ensures((raw, inner), r)
                },
            final(self).spec_alloc() == old(self).spec_alloc(),
            final(self).spec_gpu_va() == old(self).spec_gpu_va(),
    {
        let raw = &mut self.raw;
        let boxed: &mut Box<T> = &mut self.inner;
        let inner: &mut T = &mut **boxed;
        callback(raw, inner)
    }

    /// The host value.
    pub fn deref(&self) -> (r: &T)
        ensures
            *r == self.spec_inner(),
    {
        &*self.inner
    }

    /// The host value, for writing. Nothing else of the object changes.
    pub fn deref_mut(&mut self) -> (r: &mut T)
        ensures
            *r == old(self).spec_inner(),
            final(self).spec_inner() == *final(r),
            final(self).spec_raw() == old(self).spec_raw(),
            final(self).spec_alloc() == old(self).spec_alloc(),
            final(self).spec_gpu_va() == old(self).spec_gpu_va(),
    {
        let boxed: &mut Box<T> = &mut self.inner;
        &mut **boxed
    }
}

impl<T: GPUStruct + Default, U: Allocation<T>> GPUObject<T, U> where T::Raw: Default {
    /// Builds an object in `alloc` whose layout and host value are the
    /// defaults of their types.
    ///
    /// Fails as `admits` says.
    pub fn new_default(alloc: U) -> (r: Result<Self, Error>)
        ensures
            match r {
                Ok(o) => {
                    &&& Self::admits(alloc) is Ok
                    &&& o.wf()
                    &&& o.spec_alloc() == alloc
                    &&& call_ensures(T::default, (), o.spec_inner())
                    &&& call_ensures(<T::Raw as Default>::default, (), o.spec_raw())
                },
                Err(e) => Self::admits(alloc) == Err::<(), Error>(e),
            },
    {
        let gpu_ptr = match Self::check(&alloc) {
            Ok(p) => p,
            Err(e) => {
                return Err(e);
            },
        };
        let inner = T::default();
        let raw = <T::Raw as Default>::default();
        Ok(Self { raw, gpu_ptr, alloc, inner: Box::new(inner) })
    }
}

/// An array in shared memory: `len` elements of `T` in one allocation.
pub struct GPUArray<T, U: Allocation<T>> {
    raw: Vec<T>,
    alloc: U,
    gpu_ptr: u64,
}

impl<T, U: Allocation<T>> View for GPUArray<T, U> {
    type V = Seq<T>;

    closed spec fn view(&self) -> Seq<T> {
        self.raw@
    }
}

impl<T, U: Allocation<T>> GPUArray<T, U> {
    /// The allocation that holds the elements.
    pub closed spec fn spec_alloc(&self) -> U {
        self.alloc
    }

    /// The GPU virtual address of the first element.
    pub closed spec fn spec_gpu_va(&self) -> u64 {
        self.gpu_ptr
    }

    /// The elements fit their allocation and start at the allocation's
    /// address, which is not null; every element has a GPU address.
    pub open spec fn wf(&self) -> bool {
        &&& self.spec_gpu_va() != 0
        &&& self.spec_gpu_va() == self.spec_alloc().spec_gpu_ptr()
        &&& self@.len() * size_of::<T>() <= self.spec_alloc().spec_size()
        &&& self.spec_gpu_va() + self@.len() * size_of::<T>() <= u64::MAX
    }

    /// Whether `alloc` can hold `count` elements: `InvalidArgument` where its
    /// GPU address is null, else `NoMemory` where it is too small, else
    /// `InvalidArgument` where the last element would have no GPU address.
    pub open spec fn admits(alloc: U, count: nat) -> Result<(), Error> {
        if alloc.spec_gpu_ptr() == 0 {
            Err(Error::InvalidArgument)
        } else if alloc.spec_size() < count * size_of::<T>() {
            Err(Error::NoMemory)
        } else if alloc.spec_gpu_ptr() + count * size_of::<T>() > u64::MAX {
            Err(Error::InvalidArgument)
        } else {
            Ok(())
        }
    }

    fn check(alloc: &U, count: usize) -> (r: Result<u64, Error>)
        ensures
            match r {
                Ok(p) => Self::admits(*alloc, count as nat) is Ok && p == alloc.spec_gpu_ptr(),
                Err(e) => Self::admits(*alloc, count as nat) == Err::<(), Error>(e),
            },
    {
        let gpu_ptr = alloc.gpu_ptr();
        if gpu_ptr == 0 {
            return Err(Error::InvalidArgument);
        }
        let bytes = match count.checked_mul(core::mem::size_of::<T>()) {
            Some(b) => b,
            None => {
                return Err(Error::NoMemory);
            },
        };
        if alloc.size() < bytes {
            return Err(Error::NoMemory);
        }
        if bytes as u64 > u64::MAX - gpu_ptr {
            return Err(Error::InvalidArgument);
        }
        Ok(gpu_ptr)
    }

    /// Returns the GPU virtual address of the first element, never null.
    pub fn gpu_va(&self) -> (r: u64)
        requires
            self.wf(),
        ensures
            r == self.spec_gpu_va(),
            r != 0,
    {
        self.gpu_ptr
    }

    /// Returns a pointer to the elements that lives as long as this borrow.
    pub fn gpu_pointer(&self) -> (r: GPUPointer<'_, &'_ [T]>)
        requires
            self.wf(),
        ensures
            r.spec_addr() == self.spec_gpu_va(),
    {
        GPUPointer(self.gpu_ptr, PhantomData)
    }

    /// Returns a pointer to the elements that promises nothing about their
    /// life.
    pub fn weak_pointer(&self) -> (r: GPUWeakPointer<Vec<T>>)
        requires
            self.wf(),
        ensures
            r.spec_addr() == self.spec_gpu_va(),
    {
        GPUWeakPointer(self.gpu_ptr, PhantomData)
    }

    /// The GPU virtual address of the element at `index`.
    pub open spec fn spec_item_va(&self, index: int) -> int {
        self.spec_gpu_va() + index * size_of::<T>()
    }

    /// Every element has a GPU address that is not null, and lies with all
    /// its bytes inside the array.
    pub proof fn lemma_item_va(&self, index: int)
        requires
            self.wf(),
            0 <= index < self@.len(),
        ensures
            0 < self.spec_item_va(index) <= u64::MAX,
            index * size_of::<T>() <= usize::MAX,
            self.spec_gpu_va() <= self.spec_item_va(index),
            self.spec_item_va(index) + size_of::<T>() <= self.spec_gpu_va() + self@.len()
                * size_of::<T>(),
    {
        let s = size_of::<T>() as int;
        let n = self@.len() as int;
        assert(0 <= index * s && index * s + s <= n * s) by (nonlinear_arith)
            requires
                0 <= index < n,
                0 <= s,
        ;
    }

    /// Returns a pointer to the element at `index` that lives as long as
    /// this borrow. The element lies inside the array.
    pub fn gpu_item_pointer(&self, index: usize) -> (r: GPUPointer<'_, &'_ T>)
        requires
            self.wf(),
            index < self@.len(),
        ensures
            r.spec_addr() == self.spec_item_va(index as int),
            self.spec_gpu_va() <= r.spec_addr(),
            r.spec_addr() + size_of::<T>() <= self.spec_gpu_va() + self@.len() * size_of::<T>(),
    {
        proof {
            self.lemma_item_va(index as int);
        }
        let off = index * core::mem::size_of::<T>();
        GPUPointer(self.gpu_ptr + off as u64, PhantomData)
    }

    /// Returns a pointer to the element at `index` that promises nothing
    /// about the element's life. The element lies inside the array.
    pub fn weak_item_pointer(&self, index: usize) -> (r: GPUWeakPointer<T>)
        requires
            self.wf(),
            index < self@.len(),
        ensures
            r.spec_addr() == self.spec_item_va(index as int),
            self.spec_gpu_va() <= r.spec_addr(),
            r.spec_addr() + size_of::<T>() <= self.spec_gpu_va() + self@.len() * size_of::<T>(),
    {
        proof {
            self.lemma_item_va(index as int);
        }
        let off = index * core::mem::size_of::<T>();
        GPUWeakPointer(self.gpu_ptr + off as u64, PhantomData)
    }

    /// Returns the number of elements.
    pub fn len(&self) -> (r: usize)
        ensures
            r == self@.len(),
    {
        self.raw.len()
    }

    /// The elements as a slice.
    pub fn as_slice(&self) -> (r: &[T])
        ensures
            r@ == self@,
    {
        self.raw.as_slice()
    }

    /// The elements as a slice, for writing. Their number stays, and
    /// nothing else of the array changes.
    pub fn as_mut_slice(&mut self) -> (r: &mut [T])
        ensures
            r@ == old(self)@,
            final(self)@ == final(r)@,
            final(self).spec_alloc() == old(self).spec_alloc(),
            final(self).spec_gpu_va() == old(self).spec_gpu_va(),
    {
        self.raw.as_mut_slice()
    }

    /// The element at `index`.
    pub fn index(&self, index: usize) -> (r: &T)
        requires
            index < self@.len(),
        ensures
            *r == self@[index as int],
    {
        &self.raw[index]
    }

    /// The element at `index`, for writing. Nothing else of the array
    /// changes.
    pub fn index_mut(&mut self, index: usize) -> (r: &mut T)
        requires
            index < old(self)@.len(),
        ensures
            *r == old(self)@[index as int],
            final(self)@ == old(self)@.update(index as int, *final(r)),
            final(self).spec_alloc() == old(self).spec_alloc(),
            final(self).spec_gpu_va() == old(self).spec_gpu_va(),
    {
        &mut self.raw[index]
    }
}

impl<T: Copy, U: Allocation<T>> GPUArray<T, U> {
    /// Builds an array in `alloc` that holds a copy of `data`.
    ///
    /// Fails as `admits` says.
    pub fn new(alloc: U, data: &[T]) -> (r: Result<GPUArray<T, U>, Error>)
        ensures
            match r {
                Ok(a) => {
                    &&& Self::admits(alloc, data@.len()) is Ok
                    &&& a.wf()
                    &&& a.spec_alloc() == alloc
                    &&& a@ == data@
                },
                Err(e) => Self::admits(alloc, data@.len()) == Err::<(), Error>(e),
            },
    {
        let gpu_ptr = match Self::check(&alloc, data.len()) {
            Ok(p) => p,
            Err(e) => {
                return Err(e);
            },
        };
        let mut raw: Vec<T> = Vec::new();
        let mut i: usize = 0;
        while i < data.len()
            invariant
                i <= data@.len(),
                raw@ == data@.take(i as int),
            decreases data@.len() - i,
        {
            raw.push(data[i]);
            i = i + 1;
        }
        assert(data@.take(data@.len() as int) == data@);
        Ok(Self { raw, alloc, gpu_ptr })
    }
}

impl<T: Default, U: Allocation<T>> GPUArray<T, U> {
    /// Builds an array in `alloc` of `count` elements, each the default of
    /// its type.
    ///
    /// Fails as `admits` says.
    pub fn empty(alloc: U, count: usize) -> (r: Result<GPUArray<T, U>, Error>)
        ensures
            match r {
                Ok(a) => {
                    &&& Self::admits(alloc, count as nat) is Ok
                    &&& a.wf()
                    &&& a.spec_alloc() == alloc
                    &&& a@.len() == count
                    &&& forall|i: int|
                        0 <= i < count ==> call_ensures(T::default, (), #[trigger] a@[i])
                },
                Err(e) => Self::admits(alloc, count as nat) == Err::<(), Error>(e),
            },
    {
        let gpu_ptr = match Self::check(&alloc, count) {
            Ok(p) => p,
            Err(e) => {
                return Err(e);
            },
        };
        let mut raw: Vec<T> = Vec::new();
        let mut i: usize = 0;
        while i < count
            invariant
                i <= count,
                raw@.len() == i,
                forall|k: int| 0 <= k < i ==> call_ensures(T::default, (), #[trigger] raw@[k]),
            decreases count - i,
        {
            raw.push(T::default());
            i = i + 1;
        }
        Ok(Self { raw, alloc, gpu_ptr })
    }
}

} // verus!
