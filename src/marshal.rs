//! Primitive encoding: every marshaled type maps to exactly one machine primitive.
use vstd::prelude::*;

use crate::wasm_primitive;
use crate::wasm_primitive_list;
use vstd::utf8::{char_is_scalar, char_u32_cast, is_scalar};

verus! {

/// A machine primitive as it crosses the call boundary.
#[derive(Debug, Clone, Copy, PartialEq, Eq, Structural)]
pub enum PrimValue {
    U32(u32),
    I32(i32),
    U64(u64),
    I64(i64),
}

/// The type of a machine primitive.
#[derive(Debug, Clone, Copy, PartialEq, Eq, Structural)]
pub enum PrimKind {
    U32,
    I32,
    U64,
    I64,
}

/// A machine primitive type of the call convention.
pub trait WasmPrimitive: wasm_primitive::Sealed + Sized + Copy {
    spec fn spec_kind() -> PrimKind;

    fn kind() -> (r: PrimKind)
        ensures
            r == Self::spec_kind(),
    ;

    spec fn spec_into_value(me: Self) -> PrimValue;

    spec fn spec_from_value(v: PrimValue) -> Option<Self>;

    fn into_value(me: Self) -> (r: PrimValue)
        ensures
            r == Self::spec_into_value(me),
    ;

    fn from_value(v: PrimValue) -> (r: Option<Self>)
        ensures
            r == Self::spec_from_value(v),
    ;

    /// A primitive survives the trip through a boundary value.
    proof fn lemma_value_round_trip(me: Self)
        ensures
            Self::spec_from_value(Self::spec_into_value(me)) == Some(me),
    ;
}

impl WasmPrimitive for u32 {
    open spec fn spec_kind() -> PrimKind {
        PrimKind::U32
    }

    fn kind() -> (r: PrimKind) {
        PrimKind::U32
    }

    open spec fn spec_into_value(me: u32) -> PrimValue {
        PrimValue::U32(me)
    }

    open spec fn spec_from_value(v: PrimValue) -> Option<u32> {
        match v {
            PrimValue::U32(x) => Some(x),
            _ => None,
        }
    }

    fn into_value(me: u32) -> (r: PrimValue) {
        PrimValue::U32(me)
    }

    fn from_value(v: PrimValue) -> (r: Option<u32>) {
        match v {
            PrimValue::U32(x) => Some(x),
            _ => None,
        }
    }

    proof fn lemma_value_round_trip(me: u32) {
    }
}
impl WasmPrimitive for i32 {
    open spec fn spec_kind() -> PrimKind {
        PrimKind::I32
    }

    fn kind() -> (r: PrimKind) {
        PrimKind::I32
    }

    open spec fn spec_into_value(me: i32) -> PrimValue {
        PrimValue::I32(me)
    }

    open spec fn spec_from_value(v: PrimValue) -> Option<i32> {
        match v {
            PrimValue::I32(x) => Some(x),
            _ => None,
        }
    }

    fn into_value(me: i32) -> (r: PrimValue) {
        PrimValue::I32(me)
    }

    fn from_value(v: PrimValue) -> (r: Option<i32>) {
        match v {
            PrimValue::I32(x) => Some(x),
            _ => None,
        }
    }

    proof fn lemma_value_round_trip(me: i32) {
    }
}
impl WasmPrimitive for u64 {
    open spec fn spec_kind() -> PrimKind {
        PrimKind::U64
    }

    fn kind() -> (r: PrimKind) {
        PrimKind::U64
    }

    open spec fn spec_into_value(me: u64) -> PrimValue {
        PrimValue::U64(me)
    }

    open spec fn spec_from_value(v: PrimValue) -> Option<u64> {
        match v {
            PrimValue::U64(x) => Some(x),
            _ => None,
        }
    }

    fn into_value(me: u64) -> (r: PrimValue) {
        PrimValue::U64(me)
    }

    fn from_value(v: PrimValue) -> (r: Option<u64>) {
        match v {
            PrimValue::U64(x) => Some(x),
            _ => None,
        }
    }

    proof fn lemma_value_round_trip(me: u64) {
    }
}
impl WasmPrimitive for i64 {
    open spec fn spec_kind() -> PrimKind {
        PrimKind::I64
    }

    fn kind() -> (r: PrimKind) {
        PrimKind::I64
    }

    open spec fn spec_into_value(me: i64) -> PrimValue {
        PrimValue::I64(me)
    }

    open spec fn spec_from_value(v: PrimValue) -> Option<i64> {
        match v {
            PrimValue::I64(x) => Some(x),
            _ => None,
        }
    }

    fn into_value(me: i64) -> (r: PrimValue) {
        PrimValue::I64(me)
    }

    fn from_value(v: PrimValue) -> (r: Option<i64>) {
        match v {
            PrimValue::I64(x) => Some(x),
            _ => None,
        }
    }

    proof fn lemma_value_round_trip(me: i64) {
    }
}
/// A value type with an encoding into exactly one machine primitive.
pub trait MarshaledTy: Sized {
    type Prim: WasmPrimitive;

    spec fn spec_into_prim(me: Self) -> Self::Prim;

    spec fn spec_from_prim(p: Self::Prim) -> Option<Self>;

    fn into_prim(me: Self) -> (r: Self::Prim)
        ensures
            r == Self::spec_into_prim(me),
    ;

    fn from_prim(me: Self::Prim) -> (r: Option<Self>)
        ensures
            r == Self::spec_from_prim(me),
    ;

    /// Decoding an encoded value gives the value back.
    proof fn lemma_round_trip(v: Self)
        ensures
            Self::spec_from_prim(Self::spec_into_prim(v)) == Some(v),
    ;

    /// Decoding never truncates: a decoded value encodes to exactly the primitive
    /// it came from, so a primitive that no value encodes to is rejected.
    proof fn lemma_no_truncation(p: Self::Prim)
        ensures
            match Self::spec_from_prim(p) {
                Some(v) => Self::spec_into_prim(v) == p,
                None => true,
            },
    ;
}

impl MarshaledTy for u8 {
    type Prim = u32;

    open spec fn spec_into_prim(me: u8) -> u32 {
        me as u32
    }

    open spec fn spec_from_prim(p: u32) -> Option<u8> {
        if p <= u8::MAX {
            Some(p as u8)
        } else {
            None
        }
    }

    fn into_prim(me: u8) -> (r: u32) {
        me as u32
    }

    fn from_prim(me: u32) -> (r: Option<u8>) {
        if me <= u8::MAX as u32 {
            Some(me as u8)
        } else {
            None
        }
    }

    proof fn lemma_round_trip(v: u8) {
    }

    proof fn lemma_no_truncation(p: u32) {
    }
}
impl MarshaledTy for u16 {
    type Prim = u32;

    open spec fn spec_into_prim(me: u16) -> u32 {
        me as u32
    }

    open spec fn spec_from_prim(p: u32) -> Option<u16> {
        if p <= u16::MAX {
            Some(p as u16)
        } else {
            None
        }
    }

    fn into_prim(me: u16) -> (r: u32) {
        me as u32
    }

    fn from_prim(me: u32) -> (r: Option<u16>) {
        if me <= u16::MAX as u32 {
            Some(me as u16)
        } else {
            None
        }
    }

    proof fn lemma_round_trip(v: u16) {
    }

    proof fn lemma_no_truncation(p: u32) {
    }
}
impl MarshaledTy for u32 {
    type Prim = u32;

    open spec fn spec_into_prim(me: u32) -> u32 {
        me
    }

    open spec fn spec_from_prim(p: u32) -> Option<u32> {
        Some(p)
    }

    fn into_prim(me: u32) -> (r: u32) {
        me
    }

    fn from_prim(me: u32) -> (r: Option<u32>) {
        Some(me)
    }

    proof fn lemma_round_trip(v: u32) {
    }

    proof fn lemma_no_truncation(p: u32) {
    }
}
impl MarshaledTy for i8 {
    type Prim = i32;

    open spec fn spec_into_prim(me: i8) -> i32 {
        me as i32
    }

    open spec fn spec_from_prim(p: i32) -> Option<i8> {
        if i8::MIN <= p && p <= i8::MAX {
            Some(p as i8)
        } else {
            None
        }
    }

    fn into_prim(me: i8) -> (r: i32) {
        me as i32
    }

    fn from_prim(me: i32) -> (r: Option<i8>) {
        if i8::MIN as i32 <= me && me <= i8::MAX as i32 {
            Some(me as i8)
        } else {
            None
        }
    }

    proof fn lemma_round_trip(v: i8) {
    }

    proof fn lemma_no_truncation(p: i32) {
    }
}
impl MarshaledTy for i16 {
    type Prim = i32;

    open spec fn spec_into_prim(me: i16) -> i32 {
        me as i32
    }

    open spec fn spec_from_prim(p: i32) -> Option<i16> {
        if i16::MIN <= p && p <= i16::MAX {
            Some(p as i16)
        } else {
            None
        }
    }

    fn into_prim(me: i16) -> (r: i32) {
        me as i32
    }

    fn from_prim(me: i32) -> (r: Option<i16>) {
        if i16::MIN as i32 <= me && me <= i16::MAX as i32 {
            Some(me as i16)
        } else {
            None
        }
    }

    proof fn lemma_round_trip(v: i16) {
    }

    proof fn lemma_no_truncation(p: i32) {
    }
}
impl MarshaledTy for i32 {
    type Prim = i32;

    open spec fn spec_into_prim(me: i32) -> i32 {
        me
    }

    open spec fn spec_from_prim(p: i32) -> Option<i32> {
        Some(p)
    }

    fn into_prim(me: i32) -> (r: i32) {
        me
    }

    fn from_prim(me: i32) -> (r: Option<i32>) {
        Some(me)
    }

    proof fn lemma_round_trip(v: i32) {
    }

    proof fn lemma_no_truncation(p: i32) {
    }
}
impl MarshaledTy for u64 {
    type Prim = u64;

    open spec fn spec_into_prim(me: u64) -> u64 {
        me
    }

    open spec fn spec_from_prim(p: u64) -> Option<u64> {
        Some(p)
    }

    fn into_prim(me: u64) -> (r: u64) {
        me
    }

    fn from_prim(me: u64) -> (r: Option<u64>) {
        Some(me)
    }

    proof fn lemma_round_trip(v: u64) {
    }

    proof fn lemma_no_truncation(p: u64) {
    }
}
impl MarshaledTy for i64 {
    type Prim = i64;

    open spec fn spec_into_prim(me: i64) -> i64 {
        me
    }

    open spec fn spec_from_prim(p: i64) -> Option<i64> {
        Some(p)
    }

    fn into_prim(me: i64) -> (r: i64) {
        me
    }

    fn from_prim(me: i64) -> (r: Option<i64>) {
        Some(me)
    }

    proof fn lemma_round_trip(v: i64) {
    }

    proof fn lemma_no_truncation(p: i64) {
    }
}
impl MarshaledTy for bool {
    type Prim = u32;

    open spec fn spec_into_prim(me: bool) -> u32 {
        if me {
            1
        } else {
            0
        }
    }

    open spec fn spec_from_prim(p: u32) -> Option<bool> {
        if p == 0 {
            Some(false)
        } else if p == 1 {
            Some(true)
        } else {
            None
        }
    }

    fn into_prim(me: bool) -> (r: u32) {
        me as u32
    }

    fn from_prim(me: u32) -> (r: Option<bool>) {
        match me {
            0 => Some(false),
            1 => Some(true),
            _ => None,
        }
    }

    proof fn lemma_round_trip(v: bool) {
    }

    proof fn lemma_no_truncation(p: u32) {
    }
}

/// Relies on `char::from_u32`: `Some` exactly for the Unicode scalar values,
/// holding the character with that code point.
#[verifier::external_body]
fn char_from_u32(v: u32) -> (r: Option<char>)
    ensures
        r == (if is_scalar(v) {
            Some(v as char)
        } else {
            None::<char>
        }),
{
    char::from_u32(v)
}

impl MarshaledTy for char {
    type Prim = u32;

    open spec fn spec_into_prim(me: char) -> u32 {
        me as u32
    }

    open spec fn spec_from_prim(p: u32) -> Option<char> {
        if is_scalar(p) {
            Some(p as char)
        } else {
            None
        }
    }

    fn into_prim(me: char) -> (r: u32) {
        me as u32
    }

    fn from_prim(me: u32) -> (r: Option<char>) {
        char_from_u32(me)
    }

    proof fn lemma_round_trip(v: char) {
        char_is_scalar(v);
        char_u32_cast(v, v as u32);
    }

    proof fn lemma_no_truncation(p: u32) {
    }
}

impl wasm_primitive_list::Sealed for () {}

impl<T: WasmPrimitive> wasm_primitive_list::Sealed for T {}

impl<H: WasmPrimitive, T: WasmPrimitiveList> wasm_primitive_list::Sealed for (H, T) {}

/// A flat list of machine primitives: `()`, one primitive, or a primitive
/// followed by a list, `(a, (b, (c, ())))`, which covers every arity.
pub trait WasmPrimitiveList: wasm_primitive_list::Sealed + Sized {
    spec fn spec_arity() -> nat;

    /// The types of the list's primitives, in order.
    spec fn spec_kinds() -> Seq<PrimKind>;

    fn append_kinds(out: &mut Vec<PrimKind>)
        ensures
            final(out)@ == old(out)@ + Self::spec_kinds(),
    ;

    /// The boundary values of the list, in order.
    spec fn spec_values(me: Self) -> Seq<PrimValue>;

    /// The list read from exactly `spec_arity()` boundary values.
    spec fn spec_from_values(v: Seq<PrimValue>) -> Option<Self>;

    fn append_values(me: Self, out: &mut Vec<PrimValue>)
        ensures
            final(out)@ == old(out)@ + Self::spec_values(me),
    ;

    fn from_values(v: &[PrimValue]) -> (r: Option<Self>)
        ensures
            r == Self::spec_from_values(v@),
    ;

    proof fn lemma_values(me: Self)
        ensures
            Self::spec_values(me).len() == Self::spec_arity(),
            Self::spec_from_values(Self::spec_values(me)) == Some(me),
    ;
}

impl WasmPrimitiveList for () {
    open spec fn spec_arity() -> nat {
        0
    }

    open spec fn spec_kinds() -> Seq<PrimKind> {
        Seq::empty()
    }

    fn append_kinds(out: &mut Vec<PrimKind>) {
        assert(out@ =~= out@ + Seq::<PrimKind>::empty());
    }

    open spec fn spec_values(me: ()) -> Seq<PrimValue> {
        Seq::empty()
    }

    open spec fn spec_from_values(v: Seq<PrimValue>) -> Option<()> {
        if v.len() == 0 {
            Some(())
        } else {
            None
        }
    }

    fn append_values(me: (), out: &mut Vec<PrimValue>) {
        assert(out@ == out@ + Seq::<PrimValue>::empty());
    }

    fn from_values(v: &[PrimValue]) -> (r: Option<()>) {
        if v.len() == 0 {
            Some(())
        } else {
            None
        }
    }

    proof fn lemma_values(me: ()) {
    }
}

impl<T: WasmPrimitive> WasmPrimitiveList for T {
    open spec fn spec_arity() -> nat {
        1
    }

    open spec fn spec_kinds() -> Seq<PrimKind> {
        seq![T::spec_kind()]
    }

    fn append_kinds(out: &mut Vec<PrimKind>) {
        out.push(T::kind());
    }

    open spec fn spec_values(me: T) -> Seq<PrimValue> {
        seq![T::spec_into_value(me)]
    }

    open spec fn spec_from_values(v: Seq<PrimValue>) -> Option<T> {
        if v.len() == 1 {
            T::spec_from_value(v[0])
        } else {
            None
        }
    }

    fn append_values(me: T, out: &mut Vec<PrimValue>) {
        out.push(T::into_value(me));
    }

    fn from_values(v: &[PrimValue]) -> (r: Option<T>) {
        if v.len() == 1 {
            T::from_value(v[0])
        } else {
            None
        }
    }

    proof fn lemma_values(me: T) {
        T::lemma_value_round_trip(me);
    }
}

impl<H: WasmPrimitive, T: WasmPrimitiveList> WasmPrimitiveList for (H, T) {
    open spec fn spec_arity() -> nat {
        1 + T::spec_arity()
    }

    open spec fn spec_kinds() -> Seq<PrimKind> {
        seq![H::spec_kind()] + T::spec_kinds()
    }

    fn append_kinds(out: &mut Vec<PrimKind>) {
        out.push(H::kind());
        T::append_kinds(out);
        assert(final(out)@ =~= old(out)@ + Self::spec_kinds());
    }

    open spec fn spec_values(me: (H, T)) -> Seq<PrimValue> {
        seq![H::spec_into_value(me.0)] + T::spec_values(me.1)
    }

    open spec fn spec_from_values(v: Seq<PrimValue>) -> Option<(H, T)> {
        if v.len() == 0 {
            None
        } else {
            match (H::spec_from_value(v[0]), T::spec_from_values(v.drop_first())) {
                (Some(h), Some(t)) => Some((h, t)),
                _ => None,
            }
        }
    }

    fn append_values(me: (H, T), out: &mut Vec<PrimValue>) {
        let (h, t) = me;
        out.push(H::into_value(h));
        T::append_values(t, out);
        assert(final(out)@ =~= old(out)@ + Self::spec_values(me));
    }

    fn from_values(v: &[PrimValue]) -> (r: Option<(H, T)>) {
        if v.len() == 0 {
            return None;
        }
        let rest = &v[1..v.len()];
        assert(rest@ =~= v@.drop_first());
        match H::from_value(v[0]) {
            Some(h) => match T::from_values(rest) {
                Some(t) => Some((h, t)),
                None => None,
            },
            None => None,
        }
    }

    proof fn lemma_values(me: (H, T)) {
        H::lemma_value_round_trip(me.0);
        T::lemma_values(me.1);
        assert(Self::spec_values(me).drop_first() =~= T::spec_values(me.1));
    }
}

/// A list of marshaled values: `()`, one value, or a value followed by a list,
/// `(a, (b, (c, ())))`. It flattens to the list of the components' primitives,
/// in order.
pub trait MarshaledTyList: Sized {
    type Prims: WasmPrimitiveList;

    spec fn spec_arity() -> nat;

    spec fn spec_into_prims(me: Self) -> Self::Prims;

    spec fn spec_from_prims(p: Self::Prims) -> Option<Self>;

    /// The position of the first component whose primitive does not decode.
    spec fn spec_first_invalid(p: Self::Prims) -> Option<nat>;

    fn into_prims(me: Self) -> (r: Self::Prims)
        ensures
            r == Self::spec_into_prims(me),
    ;

    fn from_prims(me: Self::Prims) -> (r: Option<Self>)
        ensures
            r == Self::spec_from_prims(me),
    ;

    /// Decodes the components in order and stops at the first that fails,
    /// reporting its position.
    fn try_from_prims(me: Self::Prims) -> (r: Result<Self, usize>)
        requires
            Self::spec_arity() <= usize::MAX,
        ensures
            match r {
                Ok(v) => Self::spec_from_prims(me) == Some(v),
                Err(i) => Self::spec_from_prims(me) is None && Self::spec_first_invalid(me) == Some(
                    i as nat,
                ),
            },
    ;

    /// Unflattening a flattened list gives it back.
    proof fn lemma_round_trip(v: Self)
        ensures
            Self::spec_from_prims(Self::spec_into_prims(v)) == Some(v),
    ;

    /// Unflattening fails exactly when some component fails, and the first
    /// failing component lies within the list.
    proof fn lemma_first_invalid(p: Self::Prims)
        ensures
            Self::spec_from_prims(p) is None <==> Self::spec_first_invalid(p) is Some,
            match Self::spec_first_invalid(p) {
                Some(i) => i < Self::spec_arity(),
                None => true,
            },
    ;
}

impl MarshaledTyList for () {
    type Prims = ();

    open spec fn spec_arity() -> nat {
        0
    }

    open spec fn spec_into_prims(me: ()) -> () {
        ()
    }

    open spec fn spec_from_prims(p: ()) -> Option<()> {
        Some(())
    }

    open spec fn spec_first_invalid(p: ()) -> Option<nat> {
        None
    }

    fn into_prims(me: ()) -> (r: ()) {
        ()
    }

    fn from_prims(me: ()) -> (r: Option<()>) {
        Some(())
    }

    fn try_from_prims(me: ()) -> (r: Result<(), usize>) {
        Ok(())
    }

    proof fn lemma_round_trip(v: ()) {
    }

    proof fn lemma_first_invalid(p: ()) {
    }
}

impl<T: MarshaledTy> MarshaledTyList for T {
    type Prims = T::Prim;

    open spec fn spec_arity() -> nat {
        1
    }

    open spec fn spec_into_prims(me: T) -> T::Prim {
        T::spec_into_prim(me)
    }

    open spec fn spec_from_prims(p: T::Prim) -> Option<T> {
        T::spec_from_prim(p)
    }

    open spec fn spec_first_invalid(p: T::Prim) -> Option<nat> {
        if T::spec_from_prim(p) is None {
            Some(0)
        } else {
            None
        }
    }

    fn into_prims(me: T) -> (r: T::Prim) {
        T::into_prim(me)
    }

    fn from_prims(me: T::Prim) -> (r: Option<T>) {
        T::from_prim(me)
    }

    fn try_from_prims(me: T::Prim) -> (r: Result<T, usize>) {
        match T::from_prim(me) {
            Some(v) => Ok(v),
            None => Err(0),
        }
    }

    proof fn lemma_round_trip(v: T) {
        T::lemma_round_trip(v);
    }

    proof fn lemma_first_invalid(p: T::Prim) {
    }
}

impl<H: MarshaledTy, T: MarshaledTyList> MarshaledTyList for (H, T) {
    type Prims = (H::Prim, T::Prims);

    open spec fn spec_arity() -> nat {
        1 + T::spec_arity()
    }

    open spec fn spec_into_prims(me: (H, T)) -> (H::Prim, T::Prims) {
        (H::spec_into_prim(me.0), T::spec_into_prims(me.1))
    }

    open spec fn spec_from_prims(p: (H::Prim, T::Prims)) -> Option<(H, T)> {
        match (H::spec_from_prim(p.0), T::spec_from_prims(p.1)) {
            (Some(h), Some(t)) => Some((h, t)),
            _ => None,
        }
    }

    open spec fn spec_first_invalid(p: (H::Prim, T::Prims)) -> Option<nat> {
        if H::spec_from_prim(p.0) is None {
            Some(0)
        } else {
            match T::spec_first_invalid(p.1) {
                Some(i) => Some(i + 1),
                None => None,
            }
        }
    }

    fn into_prims(me: (H, T)) -> (r: (H::Prim, T::Prims)) {
        let (h, t) = me;
        (H::into_prim(h), T::into_prims(t))
    }

    fn from_prims(me: (H::Prim, T::Prims)) -> (r: Option<(H, T)>) {
        let (ph, pt) = me;
        match H::from_prim(ph) {
            Some(h) => match T::from_prims(pt) {
                Some(t) => Some((h, t)),
                None => None,
            },
            None => None,
        }
    }

    fn try_from_prims(me: (H::Prim, T::Prims)) -> (r: Result<(H, T), usize>) {
        let (ph, pt) = me;
        match H::from_prim(ph) {
            Some(h) => match T::try_from_prims(pt) {
                Ok(t) => Ok((h, t)),
                Err(i) => {
                    proof {
                        T::lemma_first_invalid(pt);
                    }
                    Err(i + 1)
                },
            },
            None => Err(0),
        }
    }

    proof fn lemma_round_trip(v: (H, T)) {
        H::lemma_round_trip(v.0);
        T::lemma_round_trip(v.1);
    }

    proof fn lemma_first_invalid(p: (H::Prim, T::Prims)) {
        T::lemma_first_invalid(p.1);
    }
}

} // verus!
