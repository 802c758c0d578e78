use wasm_marshal::dynamic::{WasmDynamic, WasmDynamicFunc, WasmFunc};
use wasm_marshal::error::{Malformed, MarshalError};
use wasm_marshal::guest_alloc::{alloc_slice, alloc_str, alloc_struct, slice_alloc_request, struct_alloc_request};
use wasm_marshal::layout::{align_of_32, size_of_32};
use wasm_marshal::le::LeU32;
use wasm_marshal::memory::{MemoryRead, MemoryWrite};
use wasm_marshal::ptr::{WasmPtr, WasmSlice, WasmStr};

#[test]
fn load_range_edges() {
    let mem = vec![0u8; 16];
    assert_eq!(
        mem[..].load_range(16, 1),
        Err(MarshalError::OutOfBounds { base: 16, len: 1 })
    );
    assert_eq!(mem[..].load_range(0, 16).unwrap().len(), 16);
    assert_eq!(mem[..].load_range(16, 0).unwrap().len(), 0);
    assert_eq!(
        mem[..].load_range(u32::MAX, 1),
        Err(MarshalError::OutOfBounds { base: u32::MAX, len: 1 })
    );
}

#[test]
fn growth_makes_range_valid() {
    let mut mem = vec![7u8; 8];
    assert!(mem[..].load_range(4, 8).is_err());
    mem.resize(16, 0);
    assert_eq!(mem[..].load_range(4, 8).unwrap(), &[7, 7, 7, 7, 0, 0, 0, 0]);
}

#[test]
fn load_struct_is_little_endian() {
    let mem = vec![0u8, 0x78, 0x56, 0x34, 0x12, 9];
    assert_eq!(mem[..].load_struct_raw::<u32>(1), Ok(0x1234_5678u32));
    assert_eq!(mem[..].load_struct(WasmPtr::<u16>::at(4)), Ok(0x0912u16));
    assert_eq!(
        mem[..].load_struct_raw::<u32>(3),
        Err(MarshalError::OutOfBounds { base: 3, len: 1 })
    );
}

#[test]
fn load_slice_reads_elements_in_order() {
    let mem = vec![1u8, 0, 2, 0, 3, 0];
    assert_eq!(mem[..].load_slice_raw::<u16>(0, 3), Ok(vec![1u16, 2, 3]));
    assert_eq!(mem[..].load_slice(WasmSlice::<u16>::from_parts(2, 2)), Ok(vec![2u16, 3]));
    assert_eq!(
        mem[..].load_slice_raw::<u16>(2, 3),
        Err(MarshalError::OutOfBounds { base: 2, len: 3 })
    );
    assert_eq!(
        mem[..].load_slice_raw::<u32>(0, u32::MAX),
        Err(MarshalError::OutOfBounds { base: 0, len: u32::MAX })
    );
}

#[test]
fn load_str_checks_utf8() {
    let mut mem = b"xhello".to_vec();
    mem.extend_from_slice(&[0xFF, 0xFE]);
    assert_eq!(mem[..].load_str_raw(1, 5), Ok("hello"));
    assert_eq!(mem[..].load_str(WasmStr::new_guest(0, 2)), Ok("xh"));
    assert_eq!(
        mem[..].load_str_raw(5, 3),
        Err(MarshalError::MalformedValue(Malformed::Utf8))
    );
    assert_eq!(
        mem[..].load_str_raw(6, 3),
        Err(MarshalError::OutOfBounds { base: 6, len: 3 })
    );
}

#[test]
fn write_struct_and_slice() {
    let mut mem = vec![0u8; 12];
    assert_eq!(mem[..].write_struct(WasmPtr::<u32>::at(2), &0xAABB_CCDD), Ok(()));
    assert_eq!(&mem[2..6], &[0xDD, 0xCC, 0xBB, 0xAA]);
    assert_eq!(
        mem[..].write_struct(WasmPtr::<u32>::at(10), &1),
        Err(MarshalError::OutOfBounds { base: 10, len: 1 })
    );
    assert_eq!(mem[..].write_slice(WasmPtr::<u16>::at(6), &[0x0102u16, 0x0304]), Ok(2));
    assert_eq!(&mem[6..10], &[2, 1, 4, 3]);
    assert_eq!(mem[..].write_slice::<u16>(WasmPtr::at(100), &[]), Ok(0));
    let before = mem.clone();
    assert_eq!(
        mem[..].write_slice(WasmPtr::<u32>::at(8), &[1u32, 2]),
        Err(MarshalError::OutOfBounds { base: 12, len: 1 })
    );
    assert_eq!(&mem[..8], &before[..8]);
    assert_eq!(&mem[8..], &[1, 0, 0, 0]);
    assert!(mem[..].write_range_mut(11, &[1, 2]).is_err());
    assert_eq!(mem[..].write_range_mut(10, &[1, 2]), Ok(()));
    assert_eq!(&mem[10..], &[1, 2]);
}

#[test]
fn write_slice_keeps_items_before_the_failing_one() {
    let mut mem = vec![0u8; 1];
    assert_eq!(
        mem[..].write_slice(WasmPtr::<u8>::at(0), &[5u8, 6]),
        Err(MarshalError::OutOfBounds { base: 1, len: 1 })
    );
    assert_eq!(mem, vec![5]);
    let mut mem = vec![0u8; 4];
    assert_eq!(
        mem[..].write_slice(WasmPtr::<u8>::at(5), &[1u8]),
        Err(MarshalError::OutOfBounds { base: 5, len: 1 })
    );
    assert_eq!(mem, vec![0, 0, 0, 0]);
}

#[test]
fn alloc_slice_partial_write_fails() {
    let mut mem = vec![0u8; 6];
    assert!(matches!(
        alloc_slice(&mut mem[..], WasmPtr::at(2), &[7u16, 8, 9]),
        Err(MarshalError::Allocation)
    ));
    assert_eq!(mem, vec![0, 0, 7, 0, 8, 0]);
}

#[test]
fn sizes_and_alignments() {
    assert_eq!(size_of_32::<u8>(), 1);
    assert_eq!(size_of_32::<u64>(), 8);
    assert_eq!(size_of_32::<WasmSlice<u64>>(), 8);
    assert_eq!(size_of_32::<WasmStr>(), 8);
    assert_eq!(align_of_32::<u32>(), 4);
    assert_eq!(struct_alloc_request::<u16>(), (2, 2));
    assert_eq!(slice_alloc_request::<u32>(3), Ok((12, 4)));
    assert!(slice_alloc_request::<u32>(0x4000_0000).is_err());
}

#[test]
fn alloc_slice_then_load_slice() {
    let mut mem = vec![0u8; 64];
    let (size, align) = slice_alloc_request::<u32>(3).unwrap();
    assert_eq!((size, align), (12, 4));
    let s = alloc_slice(&mut mem[..], WasmPtr::at(8), &[10u32, 20, 30]).unwrap();
    assert_eq!(s.base.addr.get(), 8);
    assert_eq!(s.len.get(), 3);
    assert_eq!(mem[..].load_slice(s), Ok(vec![10u32, 20, 30]));
}

#[test]
fn alloc_struct_and_str() {
    let mut mem = vec![0u8; 32];
    let p = alloc_struct(&mut mem[..], WasmPtr::at(4), &LeU32::new(0x0102_0304)).unwrap();
    assert_eq!(p.addr.get(), 4);
    assert_eq!(mem[..].load_struct(p).unwrap().get(), 0x0102_0304);
    let s = alloc_str(&mut mem[..], WasmPtr::at(16), "héllo").unwrap();
    assert_eq!(s.0.len.get(), 6);
    assert_eq!(mem[..].load_str(s), Ok("héllo"));
    assert!(matches!(
        alloc_struct(&mut mem[..], WasmPtr::at(30), &7u32),
        Err(MarshalError::Allocation)
    ));
}

#[test]
fn empty_alloc_past_end_fails() {
    let mut mem: Vec<u8> = Vec::new();
    assert!(matches!(
        alloc_slice::<u32>(&mut mem[..], WasmPtr::at(5), &[]),
        Err(MarshalError::Allocation)
    ));
    let mut mem = vec![0u8; 8];
    let s = alloc_slice::<u32>(&mut mem[..], WasmPtr::at(8), &[]).unwrap();
    assert_eq!(mem[..].load_slice(s), Ok(Vec::new()));
}

fn dyn_memory(needs_drop: u32) -> Vec<u8> {
    let mut mem = vec![0u8; 64];
    // metadata at 16: destructor index 7, needs_drop, vtable at 40
    mem[16..20].copy_from_slice(&7u32.to_le_bytes());
    mem[20..24].copy_from_slice(&needs_drop.to_le_bytes());
    mem[24..28].copy_from_slice(&40u32.to_le_bytes());
    // vtable: one function-table index
    mem[40..44].copy_from_slice(&11u32.to_le_bytes());
    mem
}

#[test]
fn dtor_skipped_when_nothing_to_drop() {
    let mem = dyn_memory(0);
    let obj: WasmDynamic<u32> = WasmDynamic { base: WasmPtr::at(4), meta: WasmPtr::at(16) };
    assert!(matches!(obj.dtor_call(&mem[..]), Ok(None)));
}

#[test]
fn dtor_called_once_with_data_and_meta() {
    let mem = dyn_memory(1);
    let obj: WasmDynamic<u32> = WasmDynamic { base: WasmPtr::at(4), meta: WasmPtr::at(16) };
    let (func, (data, (meta, ()))) = obj.dtor_call(&mem[..]).unwrap().unwrap();
    assert_eq!(func.addr.get(), 7);
    assert_eq!(data.addr.get(), 4);
    assert_eq!(meta.addr.get(), 16);
}

#[test]
fn dtor_fails_on_bad_meta() {
    let mem = dyn_memory(1);
    let obj: WasmDynamic<u32> = WasmDynamic { base: WasmPtr::at(4), meta: WasmPtr::at(60) };
    assert!(matches!(
        obj.dtor_call(&mem[..]),
        Err(MarshalError::OutOfBounds { base: 60, len: 1 })
    ));
}

#[test]
fn vtable_and_virtual_call_target() {
    let mem = dyn_memory(1);
    let obj: WasmDynamic<u32> = WasmDynamic { base: WasmPtr::at(4), meta: WasmPtr::at(16) };
    assert_eq!(obj.get_vtable(&mem[..]), Ok(11u32));
    let f: WasmDynamicFunc<(u32, ()), ()> =
        WasmDynamicFunc(WasmDynamic { base: WasmPtr::at(4), meta: WasmPtr::at(16) });
    let (func, (data, args)): (WasmFunc<_, ()>, _) = f.call_target(&mem[..], (99u32, ())).unwrap();
    assert_eq!(func.addr.get(), 11);
    assert_eq!(data.addr.get(), 4);
    assert_eq!(args, (99u32, ()));
}
