use wasm_marshal::call::{call_host, finish_guest_call, flatten, unflatten};
use wasm_marshal::error::{Malformed, MarshalError};
use wasm_marshal::le::{LeI16, LeU32};
use wasm_marshal::marshal::{MarshaledTy, MarshaledTyList, PrimValue};
use wasm_marshal::ptr::{WasmPtr, WasmSlice, WasmStr};

#[test]
fn round_trip_integers() {
    assert_eq!(u8::from_prim(u8::into_prim(200)), Some(200u8));
    assert_eq!(u16::from_prim(u16::into_prim(65535)), Some(65535u16));
    assert_eq!(u32::from_prim(u32::into_prim(u32::MAX)), Some(u32::MAX));
    assert_eq!(i8::from_prim(i8::into_prim(-128)), Some(-128i8));
    assert_eq!(i16::from_prim(i16::into_prim(-300)), Some(-300i16));
    assert_eq!(i32::from_prim(i32::into_prim(i32::MIN)), Some(i32::MIN));
    assert_eq!(u64::from_prim(u64::into_prim(u64::MAX)), Some(u64::MAX));
    assert_eq!(i64::from_prim(i64::into_prim(-1)), Some(-1i64));
    assert_eq!(i8::into_prim(-5), -5i32);
}

#[test]
fn round_trip_bool_and_char() {
    assert_eq!(bool::into_prim(true), 1);
    assert_eq!(bool::into_prim(false), 0);
    assert_eq!(bool::from_prim(bool::into_prim(true)), Some(true));
    assert_eq!(char::into_prim('é'), 0xE9);
    assert_eq!(char::from_prim(char::into_prim('🦀')), Some('🦀'));
}

#[test]
fn round_trip_wrappers() {
    let v = LeU32::from_prim(LeU32::into_prim(LeU32::new(77))).unwrap();
    assert_eq!(v.get(), 77);
    let w = LeI16::from_prim(-9).unwrap();
    assert_eq!(w.get(), -9);
    let mut x = LeU32::new(1);
    x.set(9);
    assert_eq!(x.get(), 9);
    let p: WasmPtr<u32> = WasmPtr::from_prim(0x1234).unwrap();
    assert_eq!(WasmPtr::into_prim(p), 0x1234);
}

#[test]
fn slice_packs_base_low_and_length_high() {
    let s: WasmSlice<u32> = WasmSlice::from_parts(0x10, 3);
    assert_eq!(WasmSlice::into_prim(s), 0x3_0000_0010u64);
    let back: WasmSlice<u32> = WasmSlice::from_prim(0x3_0000_0010).unwrap();
    assert_eq!(back.base.addr.get(), 0x10);
    assert_eq!(back.len.get(), 3);
    let st = WasmStr::from_prim(0x5_0000_0020).unwrap();
    assert_eq!(st.0.base.addr.get(), 0x20);
    assert_eq!(st.0.len.get(), 5);
    assert_eq!(WasmStr::into_prim(st), 0x5_0000_0020u64);
}

#[test]
fn narrowing_rejects_out_of_range() {
    assert_eq!(u8::from_prim(300), None);
    assert_eq!(u8::from_prim(256), None);
    assert_eq!(u8::from_prim(255), Some(255u8));
    assert_eq!(u16::from_prim(65536), None);
    assert_eq!(i8::from_prim(128), None);
    assert_eq!(i8::from_prim(-129), None);
    assert_eq!(i16::from_prim(40000), None);
}

#[test]
fn invalid_bool_and_char_rejected() {
    assert_eq!(bool::from_prim(2), None);
    assert_eq!(bool::from_prim(u32::MAX), None);
    assert_eq!(char::from_prim(0xD800), None);
    assert_eq!(char::from_prim(0x110000), None);
}

#[test]
fn flatten_keeps_order_for_each_arity() {
    assert_eq!(flatten(()), Vec::<PrimValue>::new());
    assert_eq!(flatten(7u64), vec![PrimValue::U64(7)]);
    let args = (1u32, (true, (-3i8, ())));
    assert_eq!(
        flatten(args),
        vec![PrimValue::U32(1), PrimValue::U32(1), PrimValue::I32(-3)]
    );
}

#[test]
fn unflatten_round_trips_each_arity() {
    let none: Result<(), MarshalError> = unflatten(&[]);
    assert_eq!(none, Ok(()));
    let one: Result<u16, MarshalError> = unflatten(&[PrimValue::U32(9)]);
    assert_eq!(one, Ok(9u16));
    let vals = flatten((5u8, ('x', (-7i64, ()))));
    let many: Result<(u8, (char, (i64, ()))), MarshalError> = unflatten(&vals);
    assert_eq!(many, Ok((5u8, ('x', (-7i64, ())))));
}

#[test]
fn unflatten_reports_first_invalid_position() {
    let r: Result<(u8, (bool, (u8, ()))), MarshalError> =
        unflatten(&[PrimValue::U32(1), PrimValue::U32(2), PrimValue::U32(300)]);
    assert_eq!(r, Err(MarshalError::MalformedValue(Malformed::Argument(1))));
    let prims = (1u32, (2u32, (300u32, ())));
    assert_eq!(<(u8, (bool, (u8, ())))>::try_from_prims(prims), Err(1));
    assert_eq!(<(u8, (bool, (u8, ())))>::from_prims(prims), None);
    assert_eq!(<(u8, (u8, (u8, ())))>::try_from_prims(prims), Err(2));
}

#[test]
fn unflatten_rejects_wrong_signature() {
    let r: Result<(u32, ()), MarshalError> = unflatten(&[PrimValue::I32(1)]);
    assert_eq!(r, Err(MarshalError::MalformedValue(Malformed::Signature)));
    let r: Result<(u32, ()), MarshalError> = unflatten(&[]);
    assert_eq!(r, Err(MarshalError::MalformedValue(Malformed::Signature)));
}

#[test]
fn host_add_scenario() {
    let r = call_host(
        |args: (u32, (u32, ()))| {
            let (a, (b, ())) = args;
            Ok::<u32, MarshalError>(a + b)
        },
        &[PrimValue::U32(2), PrimValue::U32(3)],
    );
    assert_eq!(r, Ok(vec![PrimValue::U32(5)]));
}

#[test]
fn host_function_not_run_on_bad_argument() {
    let ran = std::cell::Cell::new(false);
    let r = call_host(
        |args: (bool, ())| {
            ran.set(true);
            Ok::<bool, MarshalError>(args.0)
        },
        &[PrimValue::U32(2)],
    );
    assert_eq!(r, Err(MarshalError::MalformedValue(Malformed::Argument(0))));
    assert!(!ran.get());
}

#[test]
fn host_function_error_propagates() {
    let r = call_host(
        |_: ()| Err::<(), MarshalError>(MarshalError::Call),
        &[],
    );
    assert_eq!(r, Err(MarshalError::Call));
}

#[test]
fn guest_call_failure_and_garbage_results_differ() {
    let failed: Result<u8, MarshalError> = finish_guest_call(Err(MarshalError::Call));
    assert_eq!(failed, Err(MarshalError::Call));
    let garbage: Result<u8, MarshalError> = finish_guest_call(Ok(vec![PrimValue::U32(999)]));
    assert_eq!(garbage, Err(MarshalError::MalformedValue(Malformed::Results)));
    let fine: Result<u8, MarshalError> = finish_guest_call(Ok(vec![PrimValue::U32(99)]));
    assert_eq!(fine, Ok(99u8));
}
