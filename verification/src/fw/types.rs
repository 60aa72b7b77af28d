//! Common building blocks of firmware structure definitions.

use vstd::prelude::*;

verus! {

/// A 64-bit word that firmware structures hold at 4-byte alignment.
#[derive(Clone, Copy, Debug, PartialEq, Eq, Structural)]
pub struct U64(pub u64);

impl Default for U64 {
    fn default() -> (r: Self)
        ensures
            r.0 == 0,
    {
        U64(0)
    }
}

/// `N` bytes that a firmware structure reserves and the host keeps zero.
#[derive(Clone, Copy, Debug, PartialEq, Eq)]
pub struct Pad<const N: usize>([u8; N]);

impl<const N: usize> View for Pad<N> {
    type V = Seq<u8>;

    closed spec fn view(&self) -> Seq<u8> {
        self.0@
    }
}

impl<const N: usize> Default for Pad<N> {
    fn default() -> (r: Self)
        ensures
            r@ == Seq::new(N as nat, |i: int| 0u8),
    {
        let zeros = [0u8; N];
        proof {
            assert(zeros == vstd::array::spec_array_fill_for_copy_type::<u8, N>(0u8));
            assert(zeros@ =~= Seq::new(N as nat, |i: int| 0u8));
        }
        Pad(zeros)
    }
}

/// A fixed-size array embedded in a firmware structure.
#[derive(Clone, Copy, Debug, PartialEq, Eq)]
pub struct Array<const N: usize, T>(pub [T; N]);

impl<const N: usize, T> View for Array<N, T> {
    type V = Seq<T>;

    open spec fn view(&self) -> Seq<T> {
        self.0@
    }
}

impl<const N: usize, T> Array<N, T> {
    /// Wraps `data` without changing any element.
    pub fn new(data: [T; N]) -> (r: Self)
        ensures
            r@ == data@,
    {
        Self(data)
    }

    /// The element at `index`.
    pub fn index(&self, index: usize) -> (r: &T)
        requires
            index < N,
        ensures
            *r == self@[index as int],
    {
        &self.0[index]
    }

    /// The element at `index`, for writing.
    pub fn index_mut(&mut self, index: usize) -> (r: &mut T)
        requires
            index < N,
        ensures
            *r == old(self)@[index as int],
            final(self)@ == old(self)@.update(index as int, *final(r)),
    {
        &mut self.0[index]
    }

    /// The elements as a plain array.
    pub fn deref(&self) -> (r: &[T; N])
        ensures
            r@ == self@,
    {
        &self.0
    }

    /// The elements as a plain array, for writing.
    pub fn deref_mut(&mut self) -> (r: &mut [T; N])
        ensures
            r@ == old(self)@,
            final(self)@ == final(r)@,
    {
        &mut self.0
    }
}

impl<const N: usize, T: Default + Copy> Default for Array<N, T> {
    fn default() -> (r: Self)
        ensures
            r@.len() == N,
            forall|i: int| 0 <= i < N ==> call_ensures(T::default, (), #[trigger] r@[i]),
    {
        let d = T::default();
        let filled = [d; N];
        assert(filled == vstd::array::spec_array_fill_for_copy_type::<T, N>(d));
        Array(filled)
    }
}

/// The four bytes of `v` as the firmware stores them: lowest first.
pub open spec fn le_bytes(v: u32) -> Seq<u8> {
    seq![
        (v % 0x100) as u8,
        (v / 0x100 % 0x100) as u8,
        (v / 0x1_0000 % 0x100) as u8,
        (v / 0x100_0000) as u8,
    ]
}

/// The 32-bit word that the firmware reads at `offset` in `bytes`: four
/// bytes, lowest first.
pub open spec fn le_u32(bytes: Seq<u8>, offset: int) -> u32 {
    (bytes[offset] + bytes[offset + 1] * 0x100 + bytes[offset + 2] * 0x1_0000 + bytes[offset + 3]
        * 0x100_0000) as u32
}

/// `n` bytes of zero.
pub open spec fn zeros(n: nat) -> Seq<u8> {
    Seq::new(n, |i: int| 0u8)
}

/// A word that was stored is read back as it was, wherever it stands among
/// other bytes.
pub proof fn lemma_le_roundtrip(before: Seq<u8>, v: u32, after: Seq<u8>)
    ensures
        le_bytes(v).len() == 4,
        le_u32(before + le_bytes(v) + after, before.len() as int) == v,
        le_u32(le_bytes(v), 0) == v,
{
    let b = le_bytes(v);
    let all = before + b + after;
    let n = before.len() as int;
    assert(all[n] == b[0]);
    assert(all[n + 1] == b[1]);
    assert(all[n + 2] == b[2]);
    assert(all[n + 3] == b[3]);
}

/// Appends the four bytes of `v`, lowest first.
pub fn put_u32(out: &mut Vec<u8>, v: u32)
    ensures
        final(out)@ == old(out)@ + le_bytes(v),
{
    out.push((v % 0x100) as u8);
    out.push((v / 0x100 % 0x100) as u8);
    out.push((v / 0x1_0000 % 0x100) as u8);
    out.push((v / 0x100_0000) as u8);
    assert(out@ =~= old(out)@ + le_bytes(v));
}

/// Appends `n` bytes of zero.
pub fn put_zeros(out: &mut Vec<u8>, n: usize)
    ensures
        final(out)@ == old(out)@ + zeros(n as nat),
{
    let mut i: usize = 0;
    assert(out@ =~= old(out)@ + zeros(0));
    while i < n
        invariant
            i <= n,
            out@ == old(out)@ + zeros(i as nat),
        decreases n - i,
    {
        out.push(0);
        i = i + 1;
        assert(out@ =~= old(out)@ + zeros(i as nat));
    }
}

/// Reads the 32-bit word at `offset` in `bytes`.
pub fn get_u32(bytes: &[u8], offset: usize) -> (r: u32)
    requires
        offset + 4 <= bytes@.len(),
    ensures
        r == le_u32(bytes@, offset as int),
{
    let b0 = bytes[offset] as u32;
    let b1 = bytes[offset + 1] as u32;
    let b2 = bytes[offset + 2] as u32;
    let b3 = bytes[offset + 3] as u32;
    b0 + b1 * 0x100 + b2 * 0x1_0000 + b3 * 0x100_0000
}

} // verus!
