//! Calling behaviour that the guest implements behind a vtable.
//!
//! A dynamic object is a pair of guest addresses: its data, and its metadata,
//! which holds the destructor's function-table index, whether the destructor
//! must run, and the address of the vtable. The functions here resolve what to
//! call and with which arguments; the call itself goes through the guest's
//! function table.
use core::marker::PhantomData;
use vstd::prelude::*;

use crate::error::MarshalError;
use crate::layout::GuestLayout;
use crate::le::LeU32;
use crate::marshal::MarshaledTy;
use crate::memory::{spec_load_struct, MemoryRead};
use crate::ptr::WasmPtr;

verus! {

/// An index into the guest's function table, for a function that takes the
/// marshaled list `A` and returns the marshaled list `R`.
pub struct WasmFunc<A, R> {
    pub _ty: PhantomData<(A, R)>,
    pub addr: LeU32,
}

impl<A, R> Clone for WasmFunc<A, R> {
    fn clone(&self) -> (r: Self)
        ensures
            r == *self,
    {
        *self
    }
}

impl<A, R> Copy for WasmFunc<A, R> {
}

impl<A, R> WasmFunc<A, R> {
    pub open spec fn spec_index(self) -> u32 {
        self.addr@
    }

    pub open spec fn spec_at(index: u32) -> WasmFunc<A, R> {
        WasmFunc { _ty: PhantomData, addr: LeU32::spec_new(index) }
    }

    /// The function at `index` of the table.
    pub fn at(index: u32) -> (r: WasmFunc<A, R>)
        ensures
            r == Self::spec_at(index),
            r.spec_index() == index,
    {
        WasmFunc { _ty: PhantomData, addr: LeU32::new(index) }
    }
}

impl<A, R> MarshaledTy for WasmFunc<A, R> {
    type Prim = u32;

    open spec fn spec_into_prim(me: WasmFunc<A, R>) -> u32 {
        me.addr@
    }

    open spec fn spec_from_prim(p: u32) -> Option<WasmFunc<A, R>> {
        Some(Self::spec_at(p))
    }

    fn into_prim(me: WasmFunc<A, R>) -> (r: u32) {
        me.addr.get()
    }

    fn from_prim(me: u32) -> (r: Option<WasmFunc<A, R>>) {
        Some(Self::at(me))
    }

    proof fn lemma_round_trip(v: WasmFunc<A, R>) {
        LeU32::lemma_view(v.addr);
    }

    proof fn lemma_no_truncation(p: u32) {
        LeU32::lemma_new(p);
    }
}

impl<A, R> GuestLayout for WasmFunc<A, R> {
    open spec fn spec_size() -> nat {
        4
    }

    open spec fn spec_align() -> nat {
        4
    }

    open spec fn spec_encode(v: WasmFunc<A, R>) -> Seq<u8> {
        LeU32::spec_encode(v.addr)
    }

    open spec fn spec_decode(b: Seq<u8>) -> WasmFunc<A, R> {
        WasmFunc { _ty: PhantomData, addr: LeU32::spec_decode(b) }
    }

    fn size_32() -> (r: u32) {
        4
    }

    fn align_32() -> (r: u32) {
        4
    }

    fn decode(b: &[u8]) -> (r: WasmFunc<A, R>) {
        WasmFunc { _ty: PhantomData, addr: LeU32::decode(b) }
    }

    fn encode(v: &WasmFunc<A, R>, out: &mut Vec<u8>) {
        LeU32::encode(&v.addr, out);
    }

    proof fn lemma_layout(v: WasmFunc<A, R>) {
        LeU32::lemma_layout(v.addr);
    }

    proof fn lemma_bytes(b: Seq<u8>) {
        LeU32::lemma_bytes(b);
    }
}

/// The arguments of a destructor: the object's data and its metadata.
pub type DtorArgs = (WasmPtr<()>, (WasmPtr<()>, ()));

/// The metadata of a dynamic object whose vtable has type `V`.
pub struct WasmDynamicMeta<V> {
    pub dtor: WasmFunc<DtorArgs, ()>,
    pub needs_drop: LeU32,
    pub vtable: WasmPtr<V>,
}

impl<V> Clone for WasmDynamicMeta<V> {
    fn clone(&self) -> (r: Self)
        ensures
            r == *self,
    {
        *self
    }
}

impl<V> Copy for WasmDynamicMeta<V> {
}

impl<V> GuestLayout for WasmDynamicMeta<V> {
    open spec fn spec_size() -> nat {
        12
    }

    open spec fn spec_align() -> nat {
        4
    }

    open spec fn spec_encode(v: WasmDynamicMeta<V>) -> Seq<u8> {
        WasmFunc::<DtorArgs, ()>::spec_encode(v.dtor) + LeU32::spec_encode(v.needs_drop)
            + WasmPtr::<V>::spec_encode(v.vtable)
    }

    open spec fn spec_decode(b: Seq<u8>) -> WasmDynamicMeta<V> {
        WasmDynamicMeta {
            dtor: WasmFunc::<DtorArgs, ()>::spec_decode(b.subrange(0, 4)),
            needs_drop: LeU32::spec_decode(b.subrange(4, 8)),
            vtable: WasmPtr::<V>::spec_decode(b.subrange(8, 12)),
        }
    }

    fn size_32() -> (r: u32) {
        12
    }

    fn align_32() -> (r: u32) {
        4
    }

    fn decode(b: &[u8]) -> (r: WasmDynamicMeta<V>) {
        WasmDynamicMeta {
            dtor: WasmFunc::decode(&b[0..4]),
            needs_drop: LeU32::decode(&b[4..8]),
            vtable: WasmPtr::decode(&b[8..12]),
        }
    }

    fn encode(v: &WasmDynamicMeta<V>, out: &mut Vec<u8>) {
        WasmFunc::encode(&v.dtor, out);
        LeU32::encode(&v.needs_drop, out);
        WasmPtr::encode(&v.vtable, out);
        assert(final(out)@ =~= old(out)@ + Self::spec_encode(*v));
    }

    proof fn lemma_bytes(b: Seq<u8>) {
        WasmFunc::<DtorArgs, ()>::lemma_bytes(b.subrange(0, 4));
        LeU32::lemma_bytes(b.subrange(4, 8));
        WasmPtr::<V>::lemma_bytes(b.subrange(8, 12));
        assert(Self::spec_encode(Self::spec_decode(b)) =~= b);
    }

    proof fn lemma_layout(v: WasmDynamicMeta<V>) {
        WasmFunc::<DtorArgs, ()>::lemma_layout(v.dtor);
        LeU32::lemma_layout(v.needs_drop);
        WasmPtr::<V>::lemma_layout(v.vtable);
        let e = Self::spec_encode(v);
        assert(e.subrange(0, 4) =~= WasmFunc::<DtorArgs, ()>::spec_encode(v.dtor));
        assert(e.subrange(4, 8) =~= LeU32::spec_encode(v.needs_drop));
        assert(e.subrange(8, 12) =~= WasmPtr::<V>::spec_encode(v.vtable));
    }
}

/// An opaque guest object whose behaviour is reached through a vtable of type
/// `V`.
pub struct WasmDynamic<V> {
    pub base: WasmPtr<()>,
    pub meta: WasmPtr<WasmDynamicMeta<V>>,
}

impl<V> Clone for WasmDynamic<V> {
    fn clone(&self) -> (r: Self)
        ensures
            r == *self,
    {
        *self
    }
}

impl<V> Copy for WasmDynamic<V> {
}

/// What `get_vtable` gives for a memory holding `mem`.
pub open spec fn spec_get_vtable<V: GuestLayout>(mem: Seq<u8>, obj: WasmDynamic<V>) -> Result<
    V,
    MarshalError,
> {
    match spec_load_struct::<WasmDynamicMeta<V>>(mem, obj.meta.spec_addr()) {
        Ok(m) => spec_load_struct::<V>(mem, m.vtable.spec_addr()),
        Err(e) => Err(e),
    }
}

impl<V> WasmDynamic<V> {
    /// The data address and the metadata address, which a destructor receives.
    pub open spec fn spec_dtor_args(self) -> DtorArgs {
        (self.base, (WasmPtr::spec_at(self.meta.spec_addr()), ()))
    }

    /// The object's vtable: the metadata is read first, then the vtable it
    /// points to.
    pub fn get_vtable(self, mem: &[u8]) -> (r: Result<V, MarshalError>)
        where
            V: GuestLayout,
        ensures
            r == spec_get_vtable(mem@, self),
    {
        let meta = mem.load_struct(self.meta)?;
        mem.load_struct(meta.vtable)
    }

    /// The destructor call that destroys the object: none where the metadata
    /// says that nothing needs to be dropped, else one call to the destructor's
    /// table index with the data and metadata addresses.
    pub fn dtor_call(self, mem: &[u8]) -> (r: Result<
        Option<(WasmFunc<DtorArgs, ()>, DtorArgs)>,
        MarshalError,
    >)
        ensures
            match spec_load_struct::<WasmDynamicMeta<V>>(mem@, self.meta.spec_addr()) {
                Err(e) => r == Err::<Option<(WasmFunc<DtorArgs, ()>, DtorArgs)>, MarshalError>(e),
                Ok(m) => if m.needs_drop@ == 0 {
                    r == Ok::<Option<(WasmFunc<DtorArgs, ()>, DtorArgs)>, MarshalError>(None)
                } else {
                    r == Ok::<Option<(WasmFunc<DtorArgs, ()>, DtorArgs)>, MarshalError>(
                        Some((m.dtor, self.spec_dtor_args())),
                    )
                },
            },
    {
        let meta = mem.load_struct(self.meta)?;
        if meta.needs_drop.get() != 0 {
            let args: DtorArgs = (self.base, (WasmPtr::at(self.meta.addr.get()), ()));
            Ok(Some((meta.dtor, args)))
        } else {
            Ok(None)
        }
    }
}

/// A dynamic object whose vtable is one function, which takes the object's
/// data address followed by the arguments `A` and returns `R`.
pub struct WasmDynamicFunc<A, R>(pub WasmDynamic<WasmFunc<(WasmPtr<()>, A), R>>);

impl<A, R> WasmDynamicFunc<A, R> {
    /// The function to call and its arguments: the vtable's function, with the
    /// object's data address put before `args`.
    pub fn call_target(self, mem: &[u8], args: A) -> (r: Result<
        (WasmFunc<(WasmPtr<()>, A), R>, (WasmPtr<()>, A)),
        MarshalError,
    >)
        ensures
            match spec_get_vtable(mem@, self.0) {
                Ok(f) => r == Ok::<
                    (WasmFunc<(WasmPtr<()>, A), R>, (WasmPtr<()>, A)),
                    MarshalError,
                >((f, (self.0.base, args))),
                Err(e) => r == Err::<
                    (WasmFunc<(WasmPtr<()>, A), R>, (WasmPtr<()>, A)),
                    MarshalError,
                >(e),
            },
    {
        let func = self.0.get_vtable(mem)?;
        Ok((func, (self.0.base, args)))
    }
}

} // verus!
