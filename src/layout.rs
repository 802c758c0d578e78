//! Guest memory layout: the exact bytes that a value occupies in guest memory.
//!
//! Every layout is little-endian and without padding, whatever the host's own
//! byte order, and every byte pattern of the right length is a valid value.
use vstd::bytes::*;
use vstd::prelude::*;

verus! {

/// A plain value with a fixed little-endian layout in guest memory.
pub trait GuestLayout: Sized + Copy {
    /// The size of the layout in bytes.
    spec fn spec_size() -> nat;

    /// The alignment that the guest allocator is asked for.
    spec fn spec_align() -> nat;

    spec fn spec_encode(v: Self) -> Seq<u8>;

    /// The value that `spec_size()` bytes hold.
    spec fn spec_decode(b: Seq<u8>) -> Self;

    fn size_32() -> (r: u32)
        ensures
            r == Self::spec_size(),
    ;

    fn align_32() -> (r: u32)
        ensures
            r == Self::spec_align(),
    ;

    fn decode(b: &[u8]) -> (r: Self)
        requires
            b@.len() == Self::spec_size(),
        ensures
            r == Self::spec_decode(b@),
    ;

    fn encode(v: &Self, out: &mut Vec<u8>)
        ensures
            final(out)@ == old(out)@ + Self::spec_encode(*v),
    ;

    /// The layout is not empty, its alignment is a power of two, and the
    /// encoding of a value has the layout's size and decodes to the value.
    proof fn lemma_layout(v: Self)
        ensures
            Self::spec_size() > 0,
            Self::spec_align() >= 1,
            is_pow2(Self::spec_align()),
            Self::spec_encode(v).len() == Self::spec_size(),
            Self::spec_decode(Self::spec_encode(v)) == v,
    ;

    /// Every byte sequence of the layout's size encodes the value it decodes
    /// to: a decoded value gives back exactly its bytes.
    proof fn lemma_bytes(b: Seq<u8>)
        requires
            b.len() == Self::spec_size(),
        ensures
            Self::spec_encode(Self::spec_decode(b)) == b,
    ;
}

/// `n` is a power of two.
pub open spec fn is_pow2(n: nat) -> bool
    decreases n,
{
    if n <= 1 {
        n == 1
    } else {
        n % 2 == 0 && is_pow2(n / 2)
    }
}

/// The alignments that the layouts of this crate use are powers of two.
pub proof fn lemma_small_pow2()
    ensures
        is_pow2(1),
        is_pow2(2),
        is_pow2(4),
        is_pow2(8),
{
    reveal_with_fuel(is_pow2, 4);
}

/// The size of `T` in guest memory.
pub fn size_of_32<T: GuestLayout>() -> (r: u32)
    ensures
        r == T::spec_size(),
{
    T::size_32()
}

/// The alignment of `T` in guest memory.
pub fn align_of_32<T: GuestLayout>() -> (r: u32)
    ensures
        r == T::spec_align(),
{
    T::align_32()
}

impl GuestLayout for u8 {
    open spec fn spec_size() -> nat {
        1
    }

    open spec fn spec_align() -> nat {
        1
    }

    open spec fn spec_encode(v: u8) -> Seq<u8> {
        seq![v]
    }

    open spec fn spec_decode(b: Seq<u8>) -> u8 {
        b[0]
    }

    fn size_32() -> (r: u32) {
        1
    }

    fn align_32() -> (r: u32) {
        1
    }

    fn decode(b: &[u8]) -> (r: u8) {
        b[0]
    }

    fn encode(v: &u8, out: &mut Vec<u8>) {
        out.push(*v);
    }

    proof fn lemma_layout(v: u8) {
        lemma_small_pow2();
    }

    proof fn lemma_bytes(b: Seq<u8>) {
        assert(seq![b[0]] =~= b);
    }
}

impl GuestLayout for u16 {
    open spec fn spec_size() -> nat {
        2
    }

    open spec fn spec_align() -> nat {
        2
    }

    open spec fn spec_encode(v: u16) -> Seq<u8> {
        spec_u16_to_le_bytes(v)
    }

    open spec fn spec_decode(b: Seq<u8>) -> u16 {
        spec_u16_from_le_bytes(b)
    }

    fn size_32() -> (r: u32) {
        2
    }

    fn align_32() -> (r: u32) {
        2
    }

    fn decode(b: &[u8]) -> (r: u16) {
        u16_from_le_bytes(b)
    }

    fn encode(v: &u16, out: &mut Vec<u8>) {
        let mut b = u16_to_le_bytes(*v);
        out.append(&mut b);
    }

    proof fn lemma_bytes(b: Seq<u8>) {
        lemma_auto_spec_u16_to_from_le_bytes();
    }

    proof fn lemma_layout(v: u16) {
        lemma_small_pow2();
        lemma_auto_spec_u16_to_from_le_bytes();
        assert(spec_u16_to_le_bytes(v).len() == 2);
    }
}

impl GuestLayout for u32 {
    open spec fn spec_size() -> nat {
        4
    }

    open spec fn spec_align() -> nat {
        4
    }

    open spec fn spec_encode(v: u32) -> Seq<u8> {
        spec_u32_to_le_bytes(v)
    }

    open spec fn spec_decode(b: Seq<u8>) -> u32 {
        spec_u32_from_le_bytes(b)
    }

    fn size_32() -> (r: u32) {
        4
    }

    fn align_32() -> (r: u32) {
        4
    }

    fn decode(b: &[u8]) -> (r: u32) {
        u32_from_le_bytes(b)
    }

    fn encode(v: &u32, out: &mut Vec<u8>) {
        let mut b = u32_to_le_bytes(*v);
        out.append(&mut b);
    }

    proof fn lemma_bytes(b: Seq<u8>) {
        lemma_auto_spec_u32_to_from_le_bytes();
    }

    proof fn lemma_layout(v: u32) {
        lemma_small_pow2();
        lemma_auto_spec_u32_to_from_le_bytes();
        assert(spec_u32_to_le_bytes(v).len() == 4);
    }
}

impl GuestLayout for u64 {
    open spec fn spec_size() -> nat {
        8
    }

    open spec fn spec_align() -> nat {
        8
    }

    open spec fn spec_encode(v: u64) -> Seq<u8> {
        spec_u64_to_le_bytes(v)
    }

    open spec fn spec_decode(b: Seq<u8>) -> u64 {
        spec_u64_from_le_bytes(b)
    }

    fn size_32() -> (r: u32) {
        8
    }

    fn align_32() -> (r: u32) {
        8
    }

    fn decode(b: &[u8]) -> (r: u64) {
        u64_from_le_bytes(b)
    }

    fn encode(v: &u64, out: &mut Vec<u8>) {
        let mut b = u64_to_le_bytes(*v);
        out.append(&mut b);
    }

    proof fn lemma_bytes(b: Seq<u8>) {
        lemma_auto_spec_u64_to_from_le_bytes();
    }

    proof fn lemma_layout(v: u64) {
        lemma_small_pow2();
        lemma_auto_spec_u64_to_from_le_bytes();
        assert(spec_u64_to_le_bytes(v).len() == 8);
    }
}

} // verus!
