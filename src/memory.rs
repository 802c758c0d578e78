//! Bounds-checked access to guest linear memory.
//!
//! Every access checks the range against the memory's current length, and all
//! arithmetic on guest offsets is checked against 32 bits.
use vstd::prelude::*;
use vstd::utf8::{decode_utf8, valid_utf8};

use crate::error::{Malformed, MarshalError};
use crate::layout::GuestLayout;
use crate::ptr::{WasmPtr, WasmSlice, WasmStr};

verus! {

/// `base .. base + len` lies within a memory of `mem_len` bytes and its end fits
/// in 32 bits.
pub open spec fn range_in_bounds(mem_len: nat, base: u32, len: nat) -> bool {
    &&& base + len <= mem_len
    &&& base + len <= u32::MAX
}

/// The `n` values of type `T` that `b` holds one after another.
pub open spec fn decode_seq<T: GuestLayout>(b: Seq<u8>, n: nat) -> Seq<T> {
    Seq::new(
        n,
        |i: int| T::spec_decode(b.subrange(i * T::spec_size(), (i + 1) * T::spec_size())),
    )
}

/// The bytes of the values of `s`, one after another.
pub open spec fn encode_seq<T: GuestLayout>(s: Seq<T>) -> Seq<u8>
    decreases s.len(),
{
    if s.len() == 0 {
        Seq::empty()
    } else {
        encode_seq(s.drop_last()) + T::spec_encode(s.last())
    }
}

/// Relies on `std::str::from_utf8`: it accepts exactly the valid UTF-8 byte
/// sequences, and the string holds the characters they encode.
#[verifier::external_body]
fn str_from_utf8(b: &[u8]) -> (r: Option<&str>)
    ensures
        r is Some <==> valid_utf8(b@),
        r matches Some(s) ==> s@ == decode_utf8(b@),
{
    core::str::from_utf8(b).ok()
}

/// Read access to a guest memory, given as its bytes.
pub trait MemoryRead {
    spec fn spec_bytes(&self) -> Seq<u8>;

    fn as_slice(&self) -> (r: &[u8])
        ensures
            r@ == self.spec_bytes(),
    ;

    /// The `len` bytes from `base`.
    fn load_range(&self, base: u32, len: u32) -> (r: Result<&[u8], MarshalError>)
        ensures
            match r {
                Ok(s) => spec_load_range(self.spec_bytes(), base, len) == Ok::<
                    Seq<u8>,
                    MarshalError,
                >(s@),
                Err(e) => spec_load_range(self.spec_bytes(), base, len) == Err::<
                    Seq<u8>,
                    MarshalError,
                >(e),
            },
    {
        let mem = self.as_slice();
        match base.checked_add(len) {
            Some(end) => {
                if end as usize <= mem.len() {
                    Ok(&mem[base as usize..end as usize])
                } else {
                    Err(MarshalError::OutOfBounds { base, len })
                }
            },
            None => Err(MarshalError::OutOfBounds { base, len }),
        }
    }

    /// The `T` at `ptr`.
    fn load_struct_raw<T: GuestLayout>(&self, ptr: u32) -> (r: Result<T, MarshalError>)
        ensures
            match r {
                Ok(v) => range_in_bounds(self.spec_bytes().len(), ptr, T::spec_size())
                    && v == T::spec_decode(
                    self.spec_bytes().subrange(ptr as int, ptr + T::spec_size()),
                ),
                Err(e) => !range_in_bounds(self.spec_bytes().len(), ptr, T::spec_size()) && e
                    == (MarshalError::OutOfBounds { base: ptr, len: 1 }),
            },
    {
        match self.load_range(ptr, T::size_32()) {
            Ok(b) => Ok(T::decode(b)),
            Err(_) => Err(MarshalError::OutOfBounds { base: ptr, len: 1 }),
        }
    }

    /// The `len` values of type `T` from `base`.
    fn load_slice_raw<T: GuestLayout>(&self, base: u32, len: u32) -> (r: Result<
        Vec<T>,
        MarshalError,
    >)
        ensures
            match r {
                Ok(v) => range_in_bounds(self.spec_bytes().len(), base, (len * T::spec_size()) as nat)
                    && v@ == decode_seq::<T>(
                    self.spec_bytes().subrange(base as int, base + len * T::spec_size()),
                    len as nat,
                ),
                Err(e) => !range_in_bounds(self.spec_bytes().len(), base, (len * T::spec_size()) as nat)
                    && e == (MarshalError::OutOfBounds { base, len }),
            },
    {
        let size = T::size_32();
        let total = match len.checked_mul(size) {
            Some(t) => t,
            None => {
                assert(len * size > u32::MAX);
                return Err(MarshalError::OutOfBounds { base, len });
            },
        };
        let bytes = match self.load_range(base, total) {
            Ok(b) => b,
            Err(_) => return Err(MarshalError::OutOfBounds { base, len }),
        };
        let ghost n = len as nat;
        let ghost sz = size as nat;
        let mut out: Vec<T> = Vec::new();
        let mut i: u32 = 0;
        while i < len
            invariant
                i <= len,
                n == len,
                sz == size,
                total == len * size,
                bytes@.len() == total,
                size == T::spec_size(),
                out@ =~= decode_seq::<T>(bytes@, n).take(i as int),
            decreases len - i,
        {
            proof {
                assert((i + 1) * sz <= n * sz) by (nonlinear_arith)
                    requires
                        i + 1 <= n,
                        sz >= 0,
                ;
                assert((i + 1) * sz == i * sz + sz) by (nonlinear_arith);
            }
            let start = i * size;
            let end = start + size;
            let v = T::decode(&bytes[start as usize..end as usize]);
            out.push(v);
            i = i + 1;
        }
        assert(out@ =~= decode_seq::<T>(bytes@, n));
        Ok(out)
    }

    /// The UTF-8 string in the `len` bytes from `base`.
    fn load_str_raw(&self, base: u32, len: u32) -> (r: Result<&str, MarshalError>)
        ensures
            match r {
                Ok(s) => range_in_bounds(self.spec_bytes().len(), base, len as nat) && valid_utf8(
                    self.spec_bytes().subrange(base as int, base + len),
                ) && s@ == decode_utf8(self.spec_bytes().subrange(base as int, base + len)),
                Err(MarshalError::OutOfBounds { base: b, len: l }) => !range_in_bounds(
                    self.spec_bytes().len(),
                    base,
                    len as nat,
                ) && b == base && l == len,
                Err(MarshalError::MalformedValue(Malformed::Utf8)) => range_in_bounds(
                    self.spec_bytes().len(),
                    base,
                    len as nat,
                ) && !valid_utf8(self.spec_bytes().subrange(base as int, base + len)),
                Err(_) => false,
            },
    {
        let bytes = self.load_range(base, len)?;
        match str_from_utf8(bytes) {
            Some(s) => Ok(s),
            None => Err(MarshalError::MalformedValue(Malformed::Utf8)),
        }
    }

    /// The value that `ptr` points to.
    fn load_struct<T: GuestLayout>(&self, ptr: WasmPtr<T>) -> (r: Result<T, MarshalError>)
        ensures
            r == spec_load_struct::<T>(self.spec_bytes(), ptr.spec_addr()),
    {
        self.load_struct_raw(ptr.addr.get())
    }

    /// The values that `s` covers.
    fn load_slice<T: GuestLayout>(&self, s: WasmSlice<T>) -> (r: Result<Vec<T>, MarshalError>)
        ensures
            match r {
                Ok(v) => spec_load_slice::<T>(self.spec_bytes(), s) == Ok::<
                    Seq<T>,
                    MarshalError,
                >(v@),
                Err(e) => spec_load_slice::<T>(self.spec_bytes(), s) == Err::<
                    Seq<T>,
                    MarshalError,
                >(e),
            },
    {
        self.load_slice_raw(s.base.addr.get(), s.len.get())
    }

    /// The string that `s` covers.
    fn load_str(&self, s: WasmStr) -> (r: Result<&str, MarshalError>)
        ensures
            ({
                let mem = self.spec_bytes();
                let base = s.0.spec_base();
                let len = s.0.spec_len();
                match r {
                    Ok(v) => range_in_bounds(mem.len(), base, len as nat) && valid_utf8(
                        mem.subrange(base as int, base + len),
                    ) && v@ == decode_utf8(mem.subrange(base as int, base + len)),
                    Err(MarshalError::OutOfBounds { base: b, len: l }) => !range_in_bounds(
                        mem.len(),
                        base,
                        len as nat,
                    ) && b == base && l == len,
                    Err(MarshalError::MalformedValue(Malformed::Utf8)) => range_in_bounds(
                        mem.len(),
                        base,
                        len as nat,
                    ) && !valid_utf8(mem.subrange(base as int, base + len)),
                    Err(_) => false,
                }
            }),
    {
        self.load_str_raw(s.0.base.addr.get(), s.0.len.get())
    }
}

/// What `load_struct` gives for a memory holding `mem` and the address `addr`.
pub open spec fn spec_load_struct<T: GuestLayout>(mem: Seq<u8>, addr: u32) -> Result<
    T,
    MarshalError,
> {
    if range_in_bounds(mem.len(), addr, T::spec_size()) {
        Ok(T::spec_decode(mem.subrange(addr as int, addr + T::spec_size())))
    } else {
        Err(MarshalError::OutOfBounds { base: addr, len: 1 })
    }
}

/// What `load_slice` gives for a memory holding `mem` and the slice `s`.
pub open spec fn spec_load_slice<T: GuestLayout>(mem: Seq<u8>, s: WasmSlice<T>) -> Result<
    Seq<T>,
    MarshalError,
> {
    let base = s.spec_base();
    let len = s.spec_len();
    if range_in_bounds(mem.len(), base, (len * T::spec_size()) as nat) {
        Ok(decode_seq::<T>(mem.subrange(base as int, base + len * T::spec_size()), len as nat))
    } else {
        Err(MarshalError::OutOfBounds { base, len })
    }
}

impl MemoryRead for [u8] {
    open spec fn spec_bytes(&self) -> Seq<u8> {
        self@
    }

    fn as_slice(&self) -> (r: &[u8]) {
        self
    }
}

/// `mem` with the bytes `data` written from `base`.
pub open spec fn spec_written(mem: Seq<u8>, base: int, data: Seq<u8>) -> Seq<u8> {
    mem.subrange(0, base) + data + mem.subrange(base + data.len(), mem.len() as int)
}

/// The encoding of a sequence takes the layout's size per value.
pub proof fn lemma_encode_seq_len<T: GuestLayout>(s: Seq<T>)
    ensures
        encode_seq(s).len() == s.len() * T::spec_size(),
    decreases s.len(),
{
    if s.len() > 0 {
        lemma_encode_seq_len(s.drop_last());
        T::lemma_layout(s.last());
        let n = s.len() as int;
        let sz = T::spec_size() as int;
        assert((n - 1) * sz + sz == n * sz) by (nonlinear_arith);
    }
}

/// The `i`-th value of a sequence occupies the `i`-th slot of its encoding.
pub proof fn lemma_encode_seq_index<T: GuestLayout>(s: Seq<T>, i: int)
    requires
        0 <= i < s.len(),
    ensures
        encode_seq(s).subrange(i * T::spec_size(), (i + 1) * T::spec_size()) == T::spec_encode(
            s[i],
        ),
    decreases s.len(),
{
    let n = s.len() as int;
    let sz = T::spec_size() as int;
    let front = encode_seq(s.drop_last());
    lemma_encode_seq_len(s.drop_last());
    T::lemma_layout(s.last());
    assert(front.len() == (n - 1) * sz);
    assert((i + 1) * sz == i * sz + sz) by (nonlinear_arith);
    assert(i * sz >= 0) by (nonlinear_arith)
        requires
            i >= 0,
            sz >= 0,
    ;
    if i == n - 1 {
        assert(encode_seq(s).subrange(i * sz, (i + 1) * sz) =~= T::spec_encode(s[i]));
    } else {
        lemma_encode_seq_index(s.drop_last(), i);
        assert((i + 1) * sz <= (n - 1) * sz) by (nonlinear_arith)
            requires
                i + 1 <= n - 1,
                sz >= 0,
        ;
        assert(i * sz >= 0) by (nonlinear_arith)
            requires
                i >= 0,
                sz >= 0,
        ;
        assert((i + 1) * sz == i * sz + sz) by (nonlinear_arith);
        assert(encode_seq(s).subrange(i * sz, (i + 1) * sz) =~= front.subrange(i * sz, (i + 1) * sz));
    }
}

/// Decoding the encoding of a sequence gives the sequence back.
pub proof fn lemma_decode_encode_seq<T: GuestLayout>(s: Seq<T>)
    ensures
        decode_seq::<T>(encode_seq(s), s.len()) == s,
{
    assert forall|i: int| 0 <= i < s.len() implies #[trigger] decode_seq::<T>(
        encode_seq(s),
        s.len(),
    )[i] == s[i] by {
        lemma_encode_seq_index(s, i);
        T::lemma_layout(s[i]);
    }
    assert(decode_seq::<T>(encode_seq(s), s.len()) =~= s);
}

/// Write access to a guest memory.
pub trait MemoryWrite: MemoryRead {
    fn write_byte(&mut self, i: usize, b: u8)
        requires
            i < old(self).spec_bytes().len(),
        ensures
            final(self).spec_bytes() == old(self).spec_bytes().update(i as int, b),
    ;

    /// Copies `data` to the memory from `base`, or changes nothing where the
    /// range does not fit.
    fn write_range_mut(&mut self, base: u32, data: &[u8]) -> (r: Result<(), MarshalError>)
        ensures
            match r {
                Ok(()) => range_in_bounds(old(self).spec_bytes().len(), base, data@.len())
                    && final(self).spec_bytes() == spec_written(
                    old(self).spec_bytes(),
                    base as int,
                    data@,
                ),
                Err(e) => !range_in_bounds(old(self).spec_bytes().len(), base, data@.len())
                    && final(self).spec_bytes() == old(self).spec_bytes() && e is OutOfBounds,
            },
    {
        let ghost mem0 = self.spec_bytes();
        if data.len() > u32::MAX as usize {
            return Err(MarshalError::OutOfBounds { base, len: u32::MAX });
        }
        let len = data.len() as u32;
        let end = match base.checked_add(len) {
            Some(e) => e,
            None => return Err(MarshalError::OutOfBounds { base, len }),
        };
        if end as usize > self.as_slice().len() {
            return Err(MarshalError::OutOfBounds { base, len });
        }
        let mut j: usize = 0;
        while j < data.len()
            invariant
                j <= data@.len(),
                data@.len() == len,
                base + len <= mem0.len(),
                base + len <= usize::MAX,
                self.spec_bytes() =~= mem0.subrange(0, base as int) + data@.take(j as int)
                    + mem0.subrange(base + j, mem0.len() as int),
            decreases data@.len() - j,
        {
            self.write_byte(base as usize + j, data[j]);
            j = j + 1;
        }
        assert(data@.take(j as int) =~= data@);
        Ok(())
    }

    /// Writes the layout of `data` at `base`, or changes nothing where it does
    /// not fit.
    fn write_struct<T: GuestLayout>(&mut self, base: WasmPtr<T>, data: &T) -> (r: Result<
        (),
        MarshalError,
    >)
        ensures
            match r {
                Ok(()) => range_in_bounds(
                    old(self).spec_bytes().len(),
                    base.spec_addr(),
                    T::spec_size(),
                ) && final(self).spec_bytes() == spec_written(
                    old(self).spec_bytes(),
                    base.spec_addr() as int,
                    T::spec_encode(*data),
                ),
                Err(e) => !range_in_bounds(
                    old(self).spec_bytes().len(),
                    base.spec_addr(),
                    T::spec_size(),
                ) && final(self).spec_bytes() == old(self).spec_bytes() && e
                    == (MarshalError::OutOfBounds { base: base.spec_addr(), len: 1 }),
            },
    {
        let mut bytes: Vec<u8> = Vec::new();
        T::encode(data, &mut bytes);
        proof {
            T::lemma_layout(*data);
            assert(bytes@ =~= T::spec_encode(*data));
        }
        match self.write_range_mut(base.addr.get(), bytes.as_slice()) {
            Ok(()) => Ok(()),
            Err(_) => Err(MarshalError::OutOfBounds { base: base.addr.get(), len: 1 }),
        }
    }

    /// Writes the values of `items` one after another from `base`, each after
    /// checking its own range, and returns how many it wrote. It stops at the
    /// first value that leaves memory or 32 bits; the values before it stay
    /// written.
    fn write_slice<T: GuestLayout>(&mut self, base: WasmPtr<T>, items: &[T]) -> (r: Result<
        u32,
        MarshalError,
    >)
        ensures
            ({
                let mem = old(self).spec_bytes();
                let b = base.spec_addr();
                let n = items@.len();
                let k = fitting_items(mem.len(), b, T::spec_size(), n, 0);
                match r {
                    Ok(c) => c == n && k == n && (n == 0 || range_in_bounds(
                        mem.len(),
                        b,
                        (n * T::spec_size()) as nat,
                    )) && final(self).spec_bytes() == if n == 0 {
                        mem
                    } else {
                        spec_written(mem, b as int, encode_seq(items@))
                    },
                    Err(e) => k < n && final(self).spec_bytes() == (if k == 0 {
                        mem
                    } else {
                        spec_written(mem, b as int, encode_seq(items@.take(k as int)))
                    }) && e == (MarshalError::OutOfBounds {
                        base: (b + k * T::spec_size()) as u32,
                        len: 1,
                    }),
                }
            }),
    {
        let ghost s = items@;
        let ghost mem0 = self.spec_bytes();
        let ghost n = s.len();
        if items.len() == 0 {
            return Ok(0);
        }
        let size = T::size_32();
        let b = base.addr.get();
        proof {
            T::lemma_layout(s[0]);
        }
        let mut offset: u32 = b;
        let mut i: usize = 0;
        while i < items.len()
            invariant
                i <= n,
                n > 0,
                items@ == s,
                n == s.len(),
                size == T::spec_size(),
                size >= 1,
                b == base.spec_addr(),
                mem0 == old(self).spec_bytes(),
                offset == b + i * size,
                fitting_items(mem0.len(), b, size as nat, n, 0) == fitting_items(
                    mem0.len(),
                    b,
                    size as nat,
                    n,
                    i as nat,
                ),
                self.spec_bytes().len() == mem0.len(),
                self.spec_bytes() == (if i == 0 {
                    mem0
                } else {
                    spec_written(mem0, b as int, encode_seq(s.take(i as int)))
                }),
                i > 0 ==> b + i * size <= mem0.len() && b + i * size <= u32::MAX,
            decreases n - i,
        {
            let ghost cur = self.spec_bytes();
            proof {
                assert((i + 1) * size == i * size + size) by (nonlinear_arith);
            }
            let ptr: WasmPtr<T> = WasmPtr::at(offset);
            match self.write_struct(ptr, &items[i]) {
                Ok(()) => {},
                Err(e) => {
                    proof {
                        assert(fitting_items(mem0.len(), b, size as nat, n, i as nat) == i);
                    }
                    return Err(e);
                },
            }
            proof {
                let a = encode_seq(s.take(i as int));
                let e = T::spec_encode(s[i as int]);
                T::lemma_layout(s[i as int]);
                lemma_encode_seq_len(s.take(i as int));
                assert(s.take(i + 1).drop_last() =~= s.take(i as int));
                assert(s.take(i + 1).last() == s[i as int]);
                assert(encode_seq(s.take(i + 1)) == a + e);
                if i == 0 {
                    assert(a =~= Seq::<u8>::empty());
                    assert(self.spec_bytes() =~= spec_written(mem0, b as int, a + e));
                } else {
                    lemma_written_append(mem0, b as int, a, e);
                }
                assert((i + 1) * size == i * size + size) by (nonlinear_arith);
            }
            offset = offset + size;
            i = i + 1;
        }
        proof {
            assert(s.take(i as int) =~= s);
            assert(n <= n * size) by (nonlinear_arith)
                requires
                    size >= 1,
            ;
        }
        Ok(i as u32)
    }
}

impl MemoryWrite for [u8] {
    fn write_byte(&mut self, i: usize, b: u8) {
        self[i] = b;
    }
}

/// What `load_range` gives for a memory holding `mem`.
pub open spec fn spec_load_range(mem: Seq<u8>, base: u32, len: u32) -> Result<
    Seq<u8>,
    MarshalError,
> {
    if range_in_bounds(mem.len(), base, len as nat) {
        Ok(mem.subrange(base as int, base + len))
    } else {
        Err(MarshalError::OutOfBounds { base, len })
    }
}

/// A range loads exactly when it ends within memory and within 32 bits: the
/// whole memory loads, and one byte at its end does not.
pub proof fn lemma_load_range_bounds(mem: Seq<u8>, base: u32, len: u32)
    requires
        mem.len() <= u32::MAX,
    ensures
        spec_load_range(mem, base, len) is Ok <==> (base + len <= mem.len() && base + len
            <= u32::MAX),
        spec_load_range(mem, 0, mem.len() as u32) is Ok,
        spec_load_range(mem, mem.len() as u32, 1) is Err,
{
}

/// After memory grows, a range that ended past the old end and ends within the
/// new one loads, though it did not before: no bound can be kept across growth.
pub proof fn lemma_load_range_growth(mem: Seq<u8>, grown: Seq<u8>, base: u32, len: u32)
    requires
        mem.len() < grown.len(),
        mem.len() < base + len <= grown.len(),
        base + len <= u32::MAX,
    ensures
        spec_load_range(mem, base, len) is Err,
        spec_load_range(grown, base, len) is Ok,
{
}

/// Encoding the values that bytes decode to gives the bytes back.
pub proof fn lemma_encode_decode_seq<T: GuestLayout>(b: Seq<u8>, n: nat)
    requires
        b.len() == n * T::spec_size(),
    ensures
        encode_seq(decode_seq::<T>(b, n)) == b,
    decreases n,
{
    let sz = T::spec_size() as int;
    if n == 0 {
        assert(n * sz == 0) by (nonlinear_arith)
            requires
                n == 0,
        ;
        assert(decode_seq::<T>(b, n).len() == 0);
        assert(encode_seq(decode_seq::<T>(b, n)) =~= b);
    } else {
        let m = (n - 1) as nat;
        assert(n * sz == m * sz + sz) by (nonlinear_arith)
            requires
                m == n - 1,
        ;
        assert(m * sz >= 0) by (nonlinear_arith)
            requires
                sz >= 0,
        ;
        let front = b.subrange(0, m * sz);
        let d = decode_seq::<T>(b, n);
        assert forall|i: int| 0 <= i < m implies #[trigger] d.drop_last()[i] == decode_seq::<T>(
            front,
            m,
        )[i] by {
            assert((i + 1) * sz <= m * sz) by (nonlinear_arith)
                requires
                    i + 1 <= m,
                    sz >= 0,
            ;
            assert(i * sz >= 0) by (nonlinear_arith)
                requires
                    i >= 0,
                    sz >= 0,
            ;
            assert((i + 1) * sz == i * sz + sz) by (nonlinear_arith);
            assert(b.subrange(i * sz, (i + 1) * sz) =~= front.subrange(i * sz, (i + 1) * sz));
        }
        assert(d.drop_last() =~= decode_seq::<T>(front, m));
        lemma_encode_decode_seq::<T>(front, m);
        let tail = b.subrange(m * sz, n * sz);
        T::lemma_bytes(tail);
        assert(d.last() == T::spec_decode(tail));
        assert(encode_seq(d) =~= b);
    }
}

/// A loaded value's layout is exactly the memory range it was loaded from.
pub proof fn lemma_load_struct_bytes<T: GuestLayout>(mem: Seq<u8>, addr: u32)
    ensures
        spec_load_struct::<T>(mem, addr) matches Ok(v) ==> T::spec_encode(v) == mem.subrange(
            addr as int,
            addr + T::spec_size(),
        ),
{
    if range_in_bounds(mem.len(), addr, T::spec_size()) {
        T::lemma_bytes(mem.subrange(addr as int, addr + T::spec_size()));
    }
}

/// The layouts of a loaded slice's values, one after another, are exactly the
/// memory range it was loaded from.
pub proof fn lemma_load_slice_bytes<T: GuestLayout>(mem: Seq<u8>, s: WasmSlice<T>)
    ensures
        spec_load_slice::<T>(mem, s) matches Ok(v) ==> encode_seq(v) == mem.subrange(
            s.spec_base() as int,
            s.spec_base() + s.spec_len() * T::spec_size(),
        ),
{
    let base = s.spec_base();
    let len = s.spec_len();
    if range_in_bounds(mem.len(), base, (len * T::spec_size()) as nat) {
        let b = mem.subrange(base as int, base + len * T::spec_size());
        lemma_encode_decode_seq::<T>(b, len as nat);
    }
}

/// After memory grows, a value that ended past the old end and ends within the
/// new one loads through the same pointer, though it did not before, and its
/// layout is the memory range it was loaded from.
pub proof fn lemma_load_struct_growth<T: GuestLayout>(mem: Seq<u8>, grown: Seq<u8>, addr: u32)
    requires
        mem.len() < grown.len(),
        mem.len() < addr + T::spec_size() <= grown.len(),
        addr + T::spec_size() <= u32::MAX,
    ensures
        spec_load_struct::<T>(mem, addr) is Err,
        spec_load_struct::<T>(grown, addr) matches Ok(v) && T::spec_encode(v) == grown.subrange(
            addr as int,
            addr + T::spec_size(),
        ),
{
    lemma_load_struct_bytes::<T>(grown, addr);
}

/// How many of `n` values of `sz` bytes, laid out one after another from
/// `base`, fit before the first that leaves a memory of `mem_len` bytes or 32
/// bits, counting from the `i`-th.
pub open spec fn fitting_items(mem_len: nat, base: u32, sz: nat, n: nat, i: nat) -> nat
    decreases n - i,
{
    if i >= n {
        n
    } else if base + (i + 1) * sz <= mem_len && base + (i + 1) * sz <= u32::MAX {
        fitting_items(mem_len, base, sz, n, i + 1)
    } else {
        i
    }
}

/// Where all values fit, their whole range fits.
pub proof fn lemma_fitting_all(mem_len: nat, base: u32, sz: nat, n: nat, i: nat)
    requires
        i < n,
        fitting_items(mem_len, base, sz, n, i) == n,
    ensures
        base + n * sz <= mem_len,
        base + n * sz <= u32::MAX,
    decreases n - i,
{
    if i + 1 < n {
        lemma_fitting_all(mem_len, base, sz, n, i + 1);
    }
}

/// Writing `a` and then `c` right after it is writing `a + c`.
proof fn lemma_written_append(mem: Seq<u8>, base: int, a: Seq<u8>, c: Seq<u8>)
    requires
        0 <= base,
        base + a.len() + c.len() <= mem.len(),
    ensures
        spec_written(spec_written(mem, base, a), base + a.len(), c) == spec_written(
            mem,
            base,
            a + c,
        ),
{
    assert(spec_written(spec_written(mem, base, a), base + a.len(), c) =~= spec_written(
        mem,
        base,
        a + c,
    ));
}

} // verus!
