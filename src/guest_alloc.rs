//! Placing host values in guest memory that the guest allocator handed out.
//!
//! Asking the guest allocator is a call into the guest; the functions here say
//! what to ask it for and, given the address it returned, write the values.
use vstd::prelude::*;
use vstd::string::StringSliceAdditionalSpecFns;

use crate::error::MarshalError;
use crate::layout::GuestLayout;
use crate::memory::{
    decode_seq,
    encode_seq,
    fitting_items,
    lemma_decode_encode_seq,
    lemma_fitting_all,
    lemma_encode_seq_len,
    range_in_bounds,
    spec_load_slice,
    spec_written,
    MemoryWrite,
};
use crate::ptr::{WasmPtr, WasmSlice, WasmStr};

verus! {

/// The size and alignment to ask the guest allocator for, to hold one `T`.
pub fn struct_alloc_request<T: GuestLayout>() -> (r: (u32, u32))
    ensures
        r.0 == T::spec_size(),
        r.1 == T::spec_align(),
{
    (T::size_32(), T::align_32())
}

/// The size and alignment to ask the guest allocator for, to hold `n` values of
/// type `T`; fails where the size does not fit in 32 bits.
pub fn slice_alloc_request<T: GuestLayout>(n: usize) -> (r: Result<(u32, u32), MarshalError>)
    ensures
        match r {
            Ok((size, align)) => n * T::spec_size() <= u32::MAX && size == n * T::spec_size()
                && align == T::spec_align(),
            Err(e) => n * T::spec_size() > u32::MAX && e is OutOfBounds,
        },
{
    proof {
        T::lemma_layout(arbitrary());
    }
    let size = T::size_32();
    if n > u32::MAX as usize {
        proof {
            assert(n * T::spec_size() >= n) by (nonlinear_arith)
                requires
                    T::spec_size() >= 1,
            ;
        }
        return Err(MarshalError::OutOfBounds { base: 0, len: u32::MAX });
    }
    match (n as u32).checked_mul(size) {
        Some(total) => Ok((total, T::align_32())),
        None => Err(MarshalError::OutOfBounds { base: 0, len: n as u32 }),
    }
}

/// What `alloc_slice` leaves in a memory holding `mem`, and what it returns,
/// for the allocated address `addr`. Where a value does not fit, the values
/// before it stay written.
pub open spec fn spec_alloc_slice<T: GuestLayout>(mem: Seq<u8>, addr: u32, values: Seq<T>) -> (
    Seq<u8>,
    Result<WasmSlice<T>, MarshalError>,
) {
    let n = values.len();
    let k = fitting_items(mem.len(), addr, T::spec_size(), n, 0);
    if addr > mem.len() {
        (mem, Err(MarshalError::Allocation))
    } else if n == 0 {
        (mem, Ok(WasmSlice::spec_new(addr, 0)))
    } else if k == n {
        (spec_written(mem, addr as int, encode_seq(values)), Ok(WasmSlice::spec_new(addr, n as u32)))
    } else if k == 0 {
        (mem, Err(MarshalError::Allocation))
    } else {
        (spec_written(mem, addr as int, encode_seq(values.take(k as int))), Err(MarshalError::Allocation))
    }
}

/// Writes `value` at `addr`, which the guest allocator returned for it.
pub fn alloc_struct<T: GuestLayout>(mem: &mut [u8], addr: WasmPtr<()>, value: &T) -> (r: Result<
    WasmPtr<T>,
    MarshalError,
>)
    ensures
        match r {
            Ok(p) => range_in_bounds(old(mem)@.len(), addr.spec_addr(), T::spec_size())
                && p.spec_addr() == addr.spec_addr() && final(mem)@ == spec_written(
                old(mem)@,
                addr.spec_addr() as int,
                T::spec_encode(*value),
            ),
            Err(e) => !range_in_bounds(old(mem)@.len(), addr.spec_addr(), T::spec_size())
                && final(mem)@ == old(mem)@ && e == MarshalError::Allocation,
        },
{
    let ptr: WasmPtr<T> = WasmPtr::new(addr.addr);
    match mem.write_struct(ptr, value) {
        Ok(()) => Ok(ptr),
        Err(_) => Err(MarshalError::Allocation),
    }
}

/// Writes `values` one after another from `addr`, which the guest allocator
/// returned for them, and returns the slice that covers them.
pub fn alloc_slice<T: GuestLayout>(mem: &mut [u8], addr: WasmPtr<()>, values: &[T]) -> (r: Result<
    WasmSlice<T>,
    MarshalError,
>)
    ensures
        final(mem)@ == spec_alloc_slice(old(mem)@, addr.spec_addr(), values@).0,
        r == spec_alloc_slice(old(mem)@, addr.spec_addr(), values@).1,
{
    if addr.addr.get() as usize > mem.len() {
        return Err(MarshalError::Allocation);
    }
    let base: WasmPtr<T> = WasmPtr::new(addr.addr);
    match mem.write_slice(base, values) {
        Ok(n) => {
            proof {
                if values@.len() > 0 {
                    T::lemma_layout(values@[0]);
                    lemma_fitting_all(
                        old(mem)@.len(),
                        addr.spec_addr(),
                        T::spec_size(),
                        values@.len(),
                        0,
                    );
                }
            }
            Ok(WasmSlice::from_parts(addr.addr.get(), n))
        },
        Err(_) => Err(MarshalError::Allocation),
    }
}

/// Writes the bytes of `s` from `addr`, which the guest allocator returned for
/// them, and returns the guest string that covers them.
pub fn alloc_str(mem: &mut [u8], addr: WasmPtr<()>, s: &str) -> (r: Result<WasmStr, MarshalError>)
    ensures
        final(mem)@ == spec_alloc_slice(old(mem)@, addr.spec_addr(), s.spec_bytes()).0,
        match r {
            Ok(g) => spec_alloc_slice(old(mem)@, addr.spec_addr(), s.spec_bytes()).1 == Ok::<
                WasmSlice<u8>,
                MarshalError,
            >(g.0),
            Err(e) => spec_alloc_slice(old(mem)@, addr.spec_addr(), s.spec_bytes()).1 == Err::<
                WasmSlice<u8>,
                MarshalError,
            >(e),
        },
{
    match alloc_slice(mem, addr, s.as_bytes()) {
        Ok(sl) => Ok(WasmStr(sl)),
        Err(e) => Err(e),
    }
}

/// Values written by `alloc_slice` read back unchanged, in order, through
/// `load_slice` over the slice it returned.
pub proof fn lemma_alloc_slice_load_slice<T: GuestLayout>(
    mem: Seq<u8>,
    addr: u32,
    values: Seq<T>,
)
    requires
        spec_alloc_slice(mem, addr, values).1 is Ok,
    ensures
        ({
            let (mem2, r) = spec_alloc_slice(mem, addr, values);
            spec_load_slice::<T>(mem2, r->Ok_0) == Ok::<Seq<T>, MarshalError>(values)
        }),
{
    let (mem2, r) = spec_alloc_slice(mem, addr, values);
    let s = r->Ok_0;
    crate::le::LeU32::lemma_new(addr);
    if values.len() == 0 {
        crate::le::LeU32::lemma_new(0);
        assert(mem2 == mem);
        assert(s == WasmSlice::<T>::spec_new(addr, 0));
        assert(s.spec_len() == 0);
        assert(0 * T::spec_size() == 0);
        assert(decode_seq::<T>(mem2.subrange(addr as int, addr as int), 0) =~= values);
        assert(spec_load_slice::<T>(mem2, s) == Ok::<Seq<T>, MarshalError>(values));
    } else {
        lemma_encode_seq_len(values);
        let data = encode_seq(values);
        T::lemma_layout(values[0]);
        lemma_fitting_all(mem.len(), addr, T::spec_size(), values.len(), 0);
        let n = values.len() as int;
        let sz = T::spec_size() as int;
        assert(n <= n * sz) by (nonlinear_arith)
            requires
                sz >= 1,
                n >= 0,
        ;
        crate::le::LeU32::lemma_new(values.len() as u32);
        assert(fitting_items(mem.len(), addr, T::spec_size(), values.len(), 0) == values.len());
        assert(mem2 == spec_written(mem, addr as int, data));
        assert(s == WasmSlice::<T>::spec_new(addr, values.len() as u32));
        assert(range_in_bounds(mem.len(), addr, (n * sz) as nat));
        assert(mem2.len() == mem.len());
        assert(mem2.subrange(addr as int, addr + data.len()) =~= data);
        lemma_decode_encode_seq(values);
        assert(spec_load_slice::<T>(mem2, s) == Ok::<Seq<T>, MarshalError>(values));
    }
}

} // verus!
