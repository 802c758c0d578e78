//! Guest address types: bare little-endian offsets into guest memory, typed on
//! the host side only.
use core::marker::PhantomData;
use vstd::prelude::*;

use crate::layout::GuestLayout;
use crate::le::LeU32;
use crate::marshal::MarshaledTy;

verus! {

/// The address of a `T` in guest memory.
pub struct WasmPtr<T> {
    pub _ty: PhantomData<T>,
    pub addr: LeU32,
}

impl<T> Clone for WasmPtr<T> {
    fn clone(&self) -> (r: Self)
        ensures
            r == *self,
    {
        *self
    }
}

impl<T> Copy for WasmPtr<T> {
}

impl<T> WasmPtr<T> {
    pub open spec fn spec_addr(self) -> u32 {
        self.addr@
    }

    pub open spec fn spec_at(addr: u32) -> WasmPtr<T> {
        WasmPtr { _ty: PhantomData, addr: LeU32::spec_new(addr) }
    }

    pub fn new(addr: LeU32) -> (r: WasmPtr<T>)
        ensures
            r.addr == addr,
    {
        WasmPtr { _ty: PhantomData, addr }
    }

    /// The pointer at `addr`.
    pub fn at(addr: u32) -> (r: WasmPtr<T>)
        ensures
            r == Self::spec_at(addr),
            r.spec_addr() == addr,
    {
        WasmPtr { _ty: PhantomData, addr: LeU32::new(addr) }
    }

    /// The pointer to guest data at the guest address `addr`.
    pub fn new_guest(addr: usize) -> (r: WasmPtr<T>)
        requires
            addr <= u32::MAX,
        ensures
            r.spec_addr() == addr,
    {
        Self::at(usize_to_u32(addr))
    }
}

/// A guest address or length; guest addresses are 32 bits wide.
fn usize_to_u32(v: usize) -> (r: u32)
    requires
        v <= u32::MAX,
    ensures
        r == v,
{
    v as u32
}

impl<T> MarshaledTy for WasmPtr<T> {
    type Prim = u32;

    open spec fn spec_into_prim(me: WasmPtr<T>) -> u32 {
        me.addr@
    }

    open spec fn spec_from_prim(p: u32) -> Option<WasmPtr<T>> {
        Some(Self::spec_at(p))
    }

    fn into_prim(me: WasmPtr<T>) -> (r: u32) {
        me.addr.get()
    }

    fn from_prim(me: u32) -> (r: Option<WasmPtr<T>>) {
        Some(Self::at(me))
    }

    proof fn lemma_round_trip(v: WasmPtr<T>) {
        LeU32::lemma_view(v.addr);
    }

    proof fn lemma_no_truncation(p: u32) {
        LeU32::lemma_new(p);
    }
}

impl<T> GuestLayout for WasmPtr<T> {
    open spec fn spec_size() -> nat {
        4
    }

    open spec fn spec_align() -> nat {
        4
    }

    open spec fn spec_encode(v: WasmPtr<T>) -> Seq<u8> {
        LeU32::spec_encode(v.addr)
    }

    open spec fn spec_decode(b: Seq<u8>) -> WasmPtr<T> {
        WasmPtr { _ty: PhantomData, addr: LeU32::spec_decode(b) }
    }

    fn size_32() -> (r: u32) {
        4
    }

    fn align_32() -> (r: u32) {
        4
    }

    fn decode(b: &[u8]) -> (r: WasmPtr<T>) {
        WasmPtr { _ty: PhantomData, addr: LeU32::decode(b) }
    }

    fn encode(v: &WasmPtr<T>, out: &mut Vec<u8>) {
        LeU32::encode(&v.addr, out);
    }

    proof fn lemma_layout(v: WasmPtr<T>) {
        LeU32::lemma_layout(v.addr);
    }

    proof fn lemma_bytes(b: Seq<u8>) {
        LeU32::lemma_bytes(b);
    }
}

/// `len` values of type `T` laid out one after another from `base`.
pub struct WasmSlice<T> {
    pub base: WasmPtr<T>,
    pub len: LeU32,
}

impl<T> Clone for WasmSlice<T> {
    fn clone(&self) -> (r: Self)
        ensures
            r == *self,
    {
        *self
    }
}

impl<T> Copy for WasmSlice<T> {
}

/// The `u64` that carries an address and a length across the call boundary: the
/// address in the low half, the length in the high half.
pub open spec fn pack_u32_pair(lo: u32, hi: u32) -> u64 {
    (lo + hi * 0x1_0000_0000) as u64
}

impl<T> WasmSlice<T> {
    pub open spec fn spec_base(self) -> u32 {
        self.base.addr@
    }

    pub open spec fn spec_len(self) -> u32 {
        self.len@
    }

    pub open spec fn spec_new(base: u32, len: u32) -> WasmSlice<T> {
        WasmSlice { base: WasmPtr::spec_at(base), len: LeU32::spec_new(len) }
    }

    /// The slice of `len` elements from `base`.
    pub fn from_parts(base: u32, len: u32) -> (r: WasmSlice<T>)
        ensures
            r == Self::spec_new(base, len),
            r.spec_base() == base,
            r.spec_len() == len,
    {
        WasmSlice { base: WasmPtr::at(base), len: LeU32::new(len) }
    }

    /// The slice of `len` elements at the guest address `base`.
    pub fn new_guest(base: usize, len: usize) -> (r: WasmSlice<T>)
        requires
            base <= u32::MAX,
            len <= u32::MAX,
        ensures
            r.spec_base() == base,
            r.spec_len() == len,
    {
        WasmSlice { base: WasmPtr::new_guest(base), len: LeU32::new(usize_to_u32(len)) }
    }

    proof fn lemma_parts(v: WasmSlice<T>)
        ensures
            Self::spec_new(v.spec_base(), v.spec_len()) == v,
    {
        LeU32::lemma_view(v.base.addr);
        LeU32::lemma_view(v.len);
    }
}

impl<T> MarshaledTy for WasmSlice<T> {
    type Prim = u64;

    open spec fn spec_into_prim(me: WasmSlice<T>) -> u64 {
        pack_u32_pair(me.spec_base(), me.spec_len())
    }

    open spec fn spec_from_prim(p: u64) -> Option<WasmSlice<T>> {
        Some(Self::spec_new((p % 0x1_0000_0000) as u32, (p / 0x1_0000_0000) as u32))
    }

    fn into_prim(me: WasmSlice<T>) -> (r: u64) {
        me.base.addr.get() as u64 + me.len.get() as u64 * 0x1_0000_0000
    }

    fn from_prim(me: u64) -> (r: Option<WasmSlice<T>>) {
        Some(Self::from_parts((me % 0x1_0000_0000) as u32, (me / 0x1_0000_0000) as u32))
    }

    proof fn lemma_round_trip(v: WasmSlice<T>) {
        Self::lemma_parts(v);
    }

    proof fn lemma_no_truncation(p: u64) {
        LeU32::lemma_new((p % 0x1_0000_0000) as u32);
        LeU32::lemma_new((p / 0x1_0000_0000) as u32);
    }
}

impl<T> GuestLayout for WasmSlice<T> {
    open spec fn spec_size() -> nat {
        8
    }

    open spec fn spec_align() -> nat {
        4
    }

    open spec fn spec_encode(v: WasmSlice<T>) -> Seq<u8> {
        LeU32::spec_encode(v.base.addr) + LeU32::spec_encode(v.len)
    }

    open spec fn spec_decode(b: Seq<u8>) -> WasmSlice<T> {
        WasmSlice {
            base: WasmPtr::spec_decode(b.subrange(0, 4)),
            len: LeU32::spec_decode(b.subrange(4, 8)),
        }
    }

    fn size_32() -> (r: u32) {
        8
    }

    fn align_32() -> (r: u32) {
        4
    }

    fn decode(b: &[u8]) -> (r: WasmSlice<T>) {
        WasmSlice { base: WasmPtr::decode(&b[0..4]), len: LeU32::decode(&b[4..8]) }
    }

    fn encode(v: &WasmSlice<T>, out: &mut Vec<u8>) {
        LeU32::encode(&v.base.addr, out);
        LeU32::encode(&v.len, out);
        assert(final(out)@ =~= old(out)@ + Self::spec_encode(*v));
    }

    proof fn lemma_bytes(b: Seq<u8>) {
        LeU32::lemma_bytes(b.subrange(0, 4));
        LeU32::lemma_bytes(b.subrange(4, 8));
        assert(Self::spec_encode(Self::spec_decode(b)) =~= b);
    }

    proof fn lemma_layout(v: WasmSlice<T>) {
        LeU32::lemma_layout(v.base.addr);
        LeU32::lemma_layout(v.len);
        let e = Self::spec_encode(v);
        assert(e.subrange(0, 4) =~= LeU32::spec_encode(v.base.addr));
        assert(e.subrange(4, 8) =~= LeU32::spec_encode(v.len));
    }
}

/// A guest string: a byte slice that must hold UTF-8.
#[derive(Clone, Copy)]
pub struct WasmStr(pub WasmSlice<u8>);

impl WasmStr {
    /// The string of `len` bytes at the guest address `base`.
    pub fn new_guest(base: usize, len: usize) -> (r: WasmStr)
        requires
            base <= u32::MAX,
            len <= u32::MAX,
        ensures
            r.0.spec_base() == base,
            r.0.spec_len() == len,
    {
        WasmStr(WasmSlice::new_guest(base, len))
    }
}

impl MarshaledTy for WasmStr {
    type Prim = u64;

    open spec fn spec_into_prim(me: WasmStr) -> u64 {
        WasmSlice::<u8>::spec_into_prim(me.0)
    }

    open spec fn spec_from_prim(p: u64) -> Option<WasmStr> {
        match WasmSlice::<u8>::spec_from_prim(p) {
            Some(s) => Some(WasmStr(s)),
            None => None,
        }
    }

    fn into_prim(me: WasmStr) -> (r: u64) {
        WasmSlice::into_prim(me.0)
    }

    fn from_prim(me: u64) -> (r: Option<WasmStr>) {
        match WasmSlice::from_prim(me) {
            Some(s) => Some(WasmStr(s)),
            None => None,
        }
    }

    proof fn lemma_round_trip(v: WasmStr) {
        WasmSlice::<u8>::lemma_round_trip(v.0);
    }

    proof fn lemma_no_truncation(p: u64) {
        WasmSlice::<u8>::lemma_no_truncation(p);
    }
}

impl GuestLayout for WasmStr {
    open spec fn spec_size() -> nat {
        8
    }

    open spec fn spec_align() -> nat {
        4
    }

    open spec fn spec_encode(v: WasmStr) -> Seq<u8> {
        WasmSlice::<u8>::spec_encode(v.0)
    }

    open spec fn spec_decode(b: Seq<u8>) -> WasmStr {
        WasmStr(WasmSlice::<u8>::spec_decode(b))
    }

    fn size_32() -> (r: u32) {
        8
    }

    fn align_32() -> (r: u32) {
        4
    }

    fn decode(b: &[u8]) -> (r: WasmStr) {
        WasmStr(WasmSlice::decode(b))
    }

    fn encode(v: &WasmStr, out: &mut Vec<u8>) {
        WasmSlice::encode(&v.0, out);
    }

    proof fn lemma_bytes(b: Seq<u8>) {
        WasmSlice::<u8>::lemma_bytes(b);
    }

    proof fn lemma_layout(v: WasmStr) {
        WasmSlice::<u8>::lemma_layout(v.0);
    }
}

} // verus!
