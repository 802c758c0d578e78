//! Integers that guest memory always holds in little-endian byte order.
use vstd::prelude::*;

use crate::layout::GuestLayout;
use crate::marshal::MarshaledTy;

verus! {

/// A `i16` that guest memory holds in little-endian byte order; `get` and `set`
/// work in host terms.
#[derive(Clone, Copy)]
pub struct LeI16(i16);

impl View for LeI16 {
    type V = i16;

    closed spec fn view(&self) -> i16 {
        self.0
    }
}

impl LeI16 {
    pub closed spec fn spec_new(value: i16) -> LeI16 {
        LeI16(value)
    }

    pub proof fn lemma_new(value: i16)
        ensures
            Self::spec_new(value)@ == value,
    {
    }

    pub proof fn lemma_view(me: LeI16)
        ensures
            Self::spec_new(me@) == me,
    {
    }

    pub fn new(value: i16) -> (r: LeI16)
        ensures
            r == Self::spec_new(value),
            r@ == value,
    {
        LeI16(value)
    }

    pub fn get(self) -> (r: i16)
        ensures
            r == self@,
    {
        self.0
    }

    pub fn set(&mut self, v: i16)
        ensures
            final(self)@ == v,
    {
        *self = Self::new(v)
    }

    /// The value that `f` makes of this one.
    pub fn map<F: FnOnce(i16) -> i16>(self, f: F) -> (r: LeI16)
        requires
            f.requires((self@,)),
        ensures
            f.ensures((self@,), r@),
    {
        Self::new(f(self.get()))
    }
}

impl MarshaledTy for LeI16 {
    type Prim = i32;

    open spec fn spec_into_prim(me: LeI16) -> i32 {
        <i16 as MarshaledTy>::spec_into_prim(me@)
    }

    open spec fn spec_from_prim(p: i32) -> Option<LeI16> {
        match <i16 as MarshaledTy>::spec_from_prim(p) {
            Some(v) => Some(LeI16::spec_new(v)),
            None => None,
        }
    }

    fn into_prim(me: LeI16) -> (r: i32) {
        <i16 as MarshaledTy>::into_prim(me.get())
    }

    fn from_prim(me: i32) -> (r: Option<LeI16>) {
        match <i16 as MarshaledTy>::from_prim(me) {
            Some(v) => Some(LeI16::new(v)),
            None => None,
        }
    }

    proof fn lemma_round_trip(v: LeI16) {
        <i16 as MarshaledTy>::lemma_round_trip(v@);
    }

    proof fn lemma_no_truncation(p: i32) {
        <i16 as MarshaledTy>::lemma_no_truncation(p);
    }
}


/// A `u16` that guest memory holds in little-endian byte order; `get` and `set`
/// work in host terms.
#[derive(Clone, Copy)]
pub struct LeU16(u16);

impl View for LeU16 {
    type V = u16;

    closed spec fn view(&self) -> u16 {
        self.0
    }
}

impl LeU16 {
    pub closed spec fn spec_new(value: u16) -> LeU16 {
        LeU16(value)
    }

    pub proof fn lemma_new(value: u16)
        ensures
            Self::spec_new(value)@ == value,
    {
    }

    pub proof fn lemma_view(me: LeU16)
        ensures
            Self::spec_new(me@) == me,
    {
    }

    pub fn new(value: u16) -> (r: LeU16)
        ensures
            r == Self::spec_new(value),
            r@ == value,
    {
        LeU16(value)
    }

    pub fn get(self) -> (r: u16)
        ensures
            r == self@,
    {
        self.0
    }

    pub fn set(&mut self, v: u16)
        ensures
            final(self)@ == v,
    {
        *self = Self::new(v)
    }

    /// The value that `f` makes of this one.
    pub fn map<F: FnOnce(u16) -> u16>(self, f: F) -> (r: LeU16)
        requires
            f.requires((self@,)),
        ensures
            f.ensures((self@,), r@),
    {
        Self::new(f(self.get()))
    }
}

impl MarshaledTy for LeU16 {
    type Prim = u32;

    open spec fn spec_into_prim(me: LeU16) -> u32 {
        <u16 as MarshaledTy>::spec_into_prim(me@)
    }

    open spec fn spec_from_prim(p: u32) -> Option<LeU16> {
        match <u16 as MarshaledTy>::spec_from_prim(p) {
            Some(v) => Some(LeU16::spec_new(v)),
            None => None,
        }
    }

    fn into_prim(me: LeU16) -> (r: u32) {
        <u16 as MarshaledTy>::into_prim(me.get())
    }

    fn from_prim(me: u32) -> (r: Option<LeU16>) {
        match <u16 as MarshaledTy>::from_prim(me) {
            Some(v) => Some(LeU16::new(v)),
            None => None,
        }
    }

    proof fn lemma_round_trip(v: LeU16) {
        <u16 as MarshaledTy>::lemma_round_trip(v@);
    }

    proof fn lemma_no_truncation(p: u32) {
        <u16 as MarshaledTy>::lemma_no_truncation(p);
    }
}


impl GuestLayout for LeU16 {
    open spec fn spec_size() -> nat {
        2
    }

    open spec fn spec_align() -> nat {
        2
    }

    open spec fn spec_encode(v: LeU16) -> Seq<u8> {
        <u16 as GuestLayout>::spec_encode(v@)
    }

    open spec fn spec_decode(b: Seq<u8>) -> LeU16 {
        LeU16::spec_new(<u16 as GuestLayout>::spec_decode(b))
    }

    fn size_32() -> (r: u32) {
        2
    }

    fn align_32() -> (r: u32) {
        2
    }

    fn decode(b: &[u8]) -> (r: LeU16) {
        LeU16::new(<u16 as GuestLayout>::decode(b))
    }

    fn encode(v: &LeU16, out: &mut Vec<u8>) {
        <u16 as GuestLayout>::encode(&v.get(), out);
    }

    proof fn lemma_layout(v: LeU16) {
        <u16 as GuestLayout>::lemma_layout(v@);
    }

    proof fn lemma_bytes(b: Seq<u8>) {
        LeU16::lemma_new(<u16 as GuestLayout>::spec_decode(b));
        <u16 as GuestLayout>::lemma_bytes(b);
    }
}

/// A `i32` that guest memory holds in little-endian byte order; `get` and `set`
/// work in host terms.
#[derive(Clone, Copy)]
pub struct LeI32(i32);

impl View for LeI32 {
    type V = i32;

    closed spec fn view(&self) -> i32 {
        self.0
    }
}

impl LeI32 {
    pub closed spec fn spec_new(value: i32) -> LeI32 {
        LeI32(value)
    }

    pub proof fn lemma_new(value: i32)
        ensures
            Self::spec_new(value)@ == value,
    {
    }

    pub proof fn lemma_view(me: LeI32)
        ensures
            Self::spec_new(me@) == me,
    {
    }

    pub fn new(value: i32) -> (r: LeI32)
        ensures
            r == Self::spec_new(value),
            r@ == value,
    {
        LeI32(value)
    }

    pub fn get(self) -> (r: i32)
        ensures
            r == self@,
    {
        self.0
    }

    pub fn set(&mut self, v: i32)
        ensures
            final(self)@ == v,
    {
        *self = Self::new(v)
    }

    /// The value that `f` makes of this one.
    pub fn map<F: FnOnce(i32) -> i32>(self, f: F) -> (r: LeI32)
        requires
            f.requires((self@,)),
        ensures
            f.ensures((self@,), r@),
    {
        Self::new(f(self.get()))
    }
}

impl MarshaledTy for LeI32 {
    type Prim = i32;

    open spec fn spec_into_prim(me: LeI32) -> i32 {
        <i32 as MarshaledTy>::spec_into_prim(me@)
    }

    open spec fn spec_from_prim(p: i32) -> Option<LeI32> {
        match <i32 as MarshaledTy>::spec_from_prim(p) {
            Some(v) => Some(LeI32::spec_new(v)),
            None => None,
        }
    }

    fn into_prim(me: LeI32) -> (r: i32) {
        <i32 as MarshaledTy>::into_prim(me.get())
    }

    fn from_prim(me: i32) -> (r: Option<LeI32>) {
        match <i32 as MarshaledTy>::from_prim(me) {
            Some(v) => Some(LeI32::new(v)),
            None => None,
        }
    }

    proof fn lemma_round_trip(v: LeI32) {
        <i32 as MarshaledTy>::lemma_round_trip(v@);
    }

    proof fn lemma_no_truncation(p: i32) {
        <i32 as MarshaledTy>::lemma_no_truncation(p);
    }
}


/// A `u32` that guest memory holds in little-endian byte order; `get` and `set`
/// work in host terms.
#[derive(Clone, Copy)]
pub struct LeU32(u32);

impl View for LeU32 {
    type V = u32;

    closed spec fn view(&self) -> u32 {
        self.0
    }
}

impl LeU32 {
    pub closed spec fn spec_new(value: u32) -> LeU32 {
        LeU32(value)
    }

    pub proof fn lemma_new(value: u32)
        ensures
            Self::spec_new(value)@ == value,
    {
    }

    pub proof fn lemma_view(me: LeU32)
        ensures
            Self::spec_new(me@) == me,
    {
    }

    pub fn new(value: u32) -> (r: LeU32)
        ensures
            r == Self::spec_new(value),
            r@ == value,
    {
        LeU32(value)
    }

    pub fn get(self) -> (r: u32)
        ensures
            r == self@,
    {
        self.0
    }

    pub fn set(&mut self, v: u32)
        ensures
            final(self)@ == v,
    {
        *self = Self::new(v)
    }

    /// The value that `f` makes of this one.
    pub fn map<F: FnOnce(u32) -> u32>(self, f: F) -> (r: LeU32)
        requires
            f.requires((self@,)),
        ensures
            f.ensures((self@,), r@),
    {
        Self::new(f(self.get()))
    }
}

impl MarshaledTy for LeU32 {
    type Prim = u32;

    open spec fn spec_into_prim(me: LeU32) -> u32 {
        <u32 as MarshaledTy>::spec_into_prim(me@)
    }

    open spec fn spec_from_prim(p: u32) -> Option<LeU32> {
        match <u32 as MarshaledTy>::spec_from_prim(p) {
            Some(v) => Some(LeU32::spec_new(v)),
            None => None,
        }
    }

    fn into_prim(me: LeU32) -> (r: u32) {
        <u32 as MarshaledTy>::into_prim(me.get())
    }

    fn from_prim(me: u32) -> (r: Option<LeU32>) {
        match <u32 as MarshaledTy>::from_prim(me) {
            Some(v) => Some(LeU32::new(v)),
            None => None,
        }
    }

    proof fn lemma_round_trip(v: LeU32) {
        <u32 as MarshaledTy>::lemma_round_trip(v@);
    }

    proof fn lemma_no_truncation(p: u32) {
        <u32 as MarshaledTy>::lemma_no_truncation(p);
    }
}


impl GuestLayout for LeU32 {
    open spec fn spec_size() -> nat {
        4
    }

    open spec fn spec_align() -> nat {
        4
    }

    open spec fn spec_encode(v: LeU32) -> Seq<u8> {
        <u32 as GuestLayout>::spec_encode(v@)
    }

    open spec fn spec_decode(b: Seq<u8>) -> LeU32 {
        LeU32::spec_new(<u32 as GuestLayout>::spec_decode(b))
    }

    fn size_32() -> (r: u32) {
        4
    }

    fn align_32() -> (r: u32) {
        4
    }

    fn decode(b: &[u8]) -> (r: LeU32) {
        LeU32::new(<u32 as GuestLayout>::decode(b))
    }

    fn encode(v: &LeU32, out: &mut Vec<u8>) {
        <u32 as GuestLayout>::encode(&v.get(), out);
    }

    proof fn lemma_layout(v: LeU32) {
        <u32 as GuestLayout>::lemma_layout(v@);
    }

    proof fn lemma_bytes(b: Seq<u8>) {
        LeU32::lemma_new(<u32 as GuestLayout>::spec_decode(b));
        <u32 as GuestLayout>::lemma_bytes(b);
    }
}

/// A `i64` that guest memory holds in little-endian byte order; `get` and `set`
/// work in host terms.
#[derive(Clone, Copy)]
pub struct LeI64(i64);

impl View for LeI64 {
    type V = i64;

    closed spec fn view(&self) -> i64 {
        self.0
    }
}

impl LeI64 {
    pub closed spec fn spec_new(value: i64) -> LeI64 {
        LeI64(value)
    }

    pub proof fn lemma_new(value: i64)
        ensures
            Self::spec_new(value)@ == value,
    {
    }

    pub proof fn lemma_view(me: LeI64)
        ensures
            Self::spec_new(me@) == me,
    {
    }

    pub fn new(value: i64) -> (r: LeI64)
        ensures
            r == Self::spec_new(value),
            r@ == value,
    {
        LeI64(value)
    }

    pub fn get(self) -> (r: i64)
        ensures
            r == self@,
    {
        self.0
    }

    pub fn set(&mut self, v: i64)
        ensures
            final(self)@ == v,
    {
        *self = Self::new(v)
    }

    /// The value that `f` makes of this one.
    pub fn map<F: FnOnce(i64) -> i64>(self, f: F) -> (r: LeI64)
        requires
            f.requires((self@,)),
        ensures
            f.ensures((self@,), r@),
    {
        Self::new(f(self.get()))
    }
}

impl MarshaledTy for LeI64 {
    type Prim = i64;

    open spec fn spec_into_prim(me: LeI64) -> i64 {
        <i64 as MarshaledTy>::spec_into_prim(me@)
    }

    open spec fn spec_from_prim(p: i64) -> Option<LeI64> {
        match <i64 as MarshaledTy>::spec_from_prim(p) {
            Some(v) => Some(LeI64::spec_new(v)),
            None => None,
        }
    }

    fn into_prim(me: LeI64) -> (r: i64) {
        <i64 as MarshaledTy>::into_prim(me.get())
    }

    fn from_prim(me: i64) -> (r: Option<LeI64>) {
        match <i64 as MarshaledTy>::from_prim(me) {
            Some(v) => Some(LeI64::new(v)),
            None => None,
        }
    }

    proof fn lemma_round_trip(v: LeI64) {
        <i64 as MarshaledTy>::lemma_round_trip(v@);
    }

    proof fn lemma_no_truncation(p: i64) {
        <i64 as MarshaledTy>::lemma_no_truncation(p);
    }
}


/// A `u64` that guest memory holds in little-endian byte order; `get` and `set`
/// work in host terms.
#[derive(Clone, Copy)]
pub struct LeU64(u64);

impl View for LeU64 {
    type V = u64;

    closed spec fn view(&self) -> u64 {
        self.0
    }
}

impl LeU64 {
    pub closed spec fn spec_new(value: u64) -> LeU64 {
        LeU64(value)
    }

    pub proof fn lemma_new(value: u64)
        ensures
            Self::spec_new(value)@ == value,
    {
    }

    pub proof fn lemma_view(me: LeU64)
        ensures
            Self::spec_new(me@) == me,
    {
    }

    pub fn new(value: u64) -> (r: LeU64)
        ensures
            r == Self::spec_new(value),
            r@ == value,
    {
        LeU64(value)
    }

    pub fn get(self) -> (r: u64)
        ensures
            r == self@,
    {
        self.0
    }

    pub fn set(&mut self, v: u64)
        ensures
            final(self)@ == v,
    {
        *self = Self::new(v)
    }

    /// The value that `f` makes of this one.
    pub fn map<F: FnOnce(u64) -> u64>(self, f: F) -> (r: LeU64)
        requires
            f.requires((self@,)),
        ensures
            f.ensures((self@,), r@),
    {
        Self::new(f(self.get()))
    }
}

impl MarshaledTy for LeU64 {
    type Prim = u64;

    open spec fn spec_into_prim(me: LeU64) -> u64 {
        <u64 as MarshaledTy>::spec_into_prim(me@)
    }

    open spec fn spec_from_prim(p: u64) -> Option<LeU64> {
        match <u64 as MarshaledTy>::spec_from_prim(p) {
            Some(v) => Some(LeU64::spec_new(v)),
            None => None,
        }
    }

    fn into_prim(me: LeU64) -> (r: u64) {
        <u64 as MarshaledTy>::into_prim(me.get())
    }

    fn from_prim(me: u64) -> (r: Option<LeU64>) {
        match <u64 as MarshaledTy>::from_prim(me) {
            Some(v) => Some(LeU64::new(v)),
            None => None,
        }
    }

    proof fn lemma_round_trip(v: LeU64) {
        <u64 as MarshaledTy>::lemma_round_trip(v@);
    }

    proof fn lemma_no_truncation(p: u64) {
        <u64 as MarshaledTy>::lemma_no_truncation(p);
    }
}


impl GuestLayout for LeU64 {
    open spec fn spec_size() -> nat {
        8
    }

    open spec fn spec_align() -> nat {
        8
    }

    open spec fn spec_encode(v: LeU64) -> Seq<u8> {
        <u64 as GuestLayout>::spec_encode(v@)
    }

    open spec fn spec_decode(b: Seq<u8>) -> LeU64 {
        LeU64::spec_new(<u64 as GuestLayout>::spec_decode(b))
    }

    fn size_32() -> (r: u32) {
        8
    }

    fn align_32() -> (r: u32) {
        8
    }

    fn decode(b: &[u8]) -> (r: LeU64) {
        LeU64::new(<u64 as GuestLayout>::decode(b))
    }

    fn encode(v: &LeU64, out: &mut Vec<u8>) {
        <u64 as GuestLayout>::encode(&v.get(), out);
    }

    proof fn lemma_layout(v: LeU64) {
        <u64 as GuestLayout>::lemma_layout(v@);
    }

    proof fn lemma_bytes(b: Seq<u8>) {
        LeU64::lemma_new(<u64 as GuestLayout>::spec_decode(b));
        <u64 as GuestLayout>::lemma_bytes(b);
    }
}

} // verus!
