//! Relocation entries of compiled guest modules, and rewriting the values that
//! they point at.
use vstd::bytes::{spec_u32_from_le_bytes, spec_u32_to_le_bytes, u32_from_le_bytes, u32_to_le_bytes};
use vstd::prelude::*;

verus! {

/// Why relocation data could not be read.
#[derive(Debug, Clone, Copy, PartialEq, Eq, Structural)]
pub enum RelocError {
    /// The relocation type code is not one that is known.
    UnknownType(u8),
    /// The data ended before the value.
    UnexpectedEnd,
    /// A LEB128 number is malformed or does not fit in 32 bits.
    BadLeb128,
    /// A relocation starts before the end of the previous one.
    Overlap,
}

/// The kinds of relocation entry.
#[derive(Debug, Clone, Copy, PartialEq, Eq, Structural)]
pub enum RelocEntryType {
    FunctionIndexLeb,
    TableIndexSleb,
    TableIndexI32,
    MemoryAddrLeb,
    MemoryAddrSleb,
    MemoryAddrI32,
    TypeIndexLeb,
    GlobalIndexLeb,
    FunctionOffsetI32,
    SectionOffsetI32,
    EventIndexLeb,
    GlobalIndexI32,
}

impl RelocEntryType {
    /// The type code of the entry kind in a relocation section.
    pub open spec fn spec_code(self) -> u8 {
        match self {
            RelocEntryType::FunctionIndexLeb => 0,
            RelocEntryType::TableIndexSleb => 1,
            RelocEntryType::TableIndexI32 => 2,
            RelocEntryType::MemoryAddrLeb => 3,
            RelocEntryType::MemoryAddrSleb => 4,
            RelocEntryType::MemoryAddrI32 => 5,
            RelocEntryType::TypeIndexLeb => 6,
            RelocEntryType::GlobalIndexLeb => 7,
            RelocEntryType::FunctionOffsetI32 => 8,
            RelocEntryType::SectionOffsetI32 => 9,
            RelocEntryType::EventIndexLeb => 10,
            RelocEntryType::GlobalIndexI32 => 13,
        }
    }

    /// The entry kind with type code `v`, where `v` is a known code.
    pub open spec fn spec_from_code(v: u8) -> RelocEntryType {
        if v == 0 {
            RelocEntryType::FunctionIndexLeb
        } else if v == 1 {
            RelocEntryType::TableIndexSleb
        } else if v == 2 {
            RelocEntryType::TableIndexI32
        } else if v == 3 {
            RelocEntryType::MemoryAddrLeb
        } else if v == 4 {
            RelocEntryType::MemoryAddrSleb
        } else if v == 5 {
            RelocEntryType::MemoryAddrI32
        } else if v == 6 {
            RelocEntryType::TypeIndexLeb
        } else if v == 7 {
            RelocEntryType::GlobalIndexLeb
        } else if v == 8 {
            RelocEntryType::FunctionOffsetI32
        } else if v == 9 {
            RelocEntryType::SectionOffsetI32
        } else if v == 10 {
            RelocEntryType::EventIndexLeb
        } else {
            RelocEntryType::GlobalIndexI32
        }
    }

    pub open spec fn spec_known_code(v: u8) -> bool {
        v <= 10 || v == 13
    }

    /// The entry kind with type code `v`.
    pub fn parse(v: u8) -> (r: Result<RelocEntryType, RelocError>)
        ensures
            match r {
                Ok(t) => Self::spec_known_code(v) && t.spec_code() == v && t == Self::spec_from_code(
                    v,
                ),
                Err(e) => !Self::spec_known_code(v) && e == RelocError::UnknownType(v),
            },
    {
        match v {
            0 => Ok(RelocEntryType::FunctionIndexLeb),
            1 => Ok(RelocEntryType::TableIndexSleb),
            2 => Ok(RelocEntryType::TableIndexI32),
            3 => Ok(RelocEntryType::MemoryAddrLeb),
            4 => Ok(RelocEntryType::MemoryAddrSleb),
            5 => Ok(RelocEntryType::MemoryAddrI32),
            6 => Ok(RelocEntryType::TypeIndexLeb),
            7 => Ok(RelocEntryType::GlobalIndexLeb),
            8 => Ok(RelocEntryType::FunctionOffsetI32),
            9 => Ok(RelocEntryType::SectionOffsetI32),
            10 => Ok(RelocEntryType::EventIndexLeb),
            13 => Ok(RelocEntryType::GlobalIndexI32),
            _ => Err(RelocError::UnknownType(v)),
        }
    }

    pub open spec fn spec_has_addend(self) -> bool {
        match self {
            RelocEntryType::MemoryAddrLeb
            | RelocEntryType::MemoryAddrSleb
            | RelocEntryType::MemoryAddrI32
            | RelocEntryType::FunctionOffsetI32
            | RelocEntryType::SectionOffsetI32 => true,
            _ => false,
        }
    }

    /// Whether an entry of this kind carries an addend.
    pub fn has_addend(self) -> (r: bool)
        ensures
            r == self.spec_has_addend(),
    {
        match self {
            RelocEntryType::MemoryAddrLeb
            | RelocEntryType::MemoryAddrSleb
            | RelocEntryType::MemoryAddrI32
            | RelocEntryType::FunctionOffsetI32
            | RelocEntryType::SectionOffsetI32 => true,
            _ => false,
        }
    }

    pub open spec fn spec_rewrite_kind(self) -> ScalarRewriteKind {
        match self {
            RelocEntryType::FunctionIndexLeb => ScalarRewriteKind::VarU32,
            RelocEntryType::TableIndexSleb => ScalarRewriteKind::VarI32,
            RelocEntryType::TableIndexI32 => ScalarRewriteKind::U32,
            RelocEntryType::MemoryAddrLeb => ScalarRewriteKind::VarU32,
            RelocEntryType::MemoryAddrSleb => ScalarRewriteKind::VarI32,
            RelocEntryType::MemoryAddrI32 => ScalarRewriteKind::U32,
            RelocEntryType::TypeIndexLeb => ScalarRewriteKind::VarU32,
            RelocEntryType::GlobalIndexLeb => ScalarRewriteKind::VarU32,
            RelocEntryType::FunctionOffsetI32 => ScalarRewriteKind::U32,
            RelocEntryType::SectionOffsetI32 => ScalarRewriteKind::U32,
            RelocEntryType::EventIndexLeb => ScalarRewriteKind::VarU32,
            RelocEntryType::GlobalIndexI32 => ScalarRewriteKind::U32,
        }
    }

    /// How the value that an entry of this kind points at is encoded.
    pub fn rewrite_kind(self) -> (r: ScalarRewriteKind)
        ensures
            r == self.spec_rewrite_kind(),
    {
        match self {
            RelocEntryType::FunctionIndexLeb => ScalarRewriteKind::VarU32,
            RelocEntryType::TableIndexSleb => ScalarRewriteKind::VarI32,
            RelocEntryType::TableIndexI32 => ScalarRewriteKind::U32,
            RelocEntryType::MemoryAddrLeb => ScalarRewriteKind::VarU32,
            RelocEntryType::MemoryAddrSleb => ScalarRewriteKind::VarI32,
            RelocEntryType::MemoryAddrI32 => ScalarRewriteKind::U32,
            RelocEntryType::TypeIndexLeb => ScalarRewriteKind::VarU32,
            RelocEntryType::GlobalIndexLeb => ScalarRewriteKind::VarU32,
            RelocEntryType::FunctionOffsetI32 => ScalarRewriteKind::U32,
            RelocEntryType::SectionOffsetI32 => ScalarRewriteKind::U32,
            RelocEntryType::EventIndexLeb => ScalarRewriteKind::VarU32,
            RelocEntryType::GlobalIndexI32 => ScalarRewriteKind::U32,
        }
    }
}

/// The encodings of a relocated value: padded LEB128, or four little-endian
/// bytes, unsigned or signed.
#[derive(Debug, Clone, Copy, PartialEq, Eq, Structural)]
pub enum ScalarRewriteKind {
    VarU32,
    VarI32,
    U32,
    I32,
}

/// A relocated value with its encoding.
#[derive(Debug, Clone, Copy, PartialEq, Eq, Structural)]
pub enum ScalarRewrite {
    VarU32(u32),
    VarI32(i32),
    U32(u32),
    I32(i32),
}

impl ScalarRewriteKind {
    pub open spec fn spec_with_value(self, value: u32) -> ScalarRewrite {
        match self {
            ScalarRewriteKind::VarU32 => ScalarRewrite::VarU32(value),
            ScalarRewriteKind::VarI32 => ScalarRewrite::VarI32(value as i32),
            ScalarRewriteKind::U32 => ScalarRewrite::U32(value),
            ScalarRewriteKind::I32 => ScalarRewrite::I32(value as i32),
        }
    }

    /// The value `value` in this encoding; signed encodings take its bits as
    /// an `i32`.
    pub fn with_value(self, value: u32) -> (r: ScalarRewrite)
        ensures
            r == self.spec_with_value(value),
            r.spec_kind() == self,
            r.spec_as_u32() == value,
    {
        assert((value as i32) as u32 == value) by (bit_vector);
        match self {
            ScalarRewriteKind::VarU32 => ScalarRewrite::VarU32(value),
            ScalarRewriteKind::VarI32 => ScalarRewrite::VarI32(value as i32),
            ScalarRewriteKind::U32 => ScalarRewrite::U32(value),
            ScalarRewriteKind::I32 => ScalarRewrite::I32(value as i32),
        }
    }

    /// Zero in this encoding.
    pub fn with_zeroed(self) -> (r: ScalarRewrite)
        ensures
            r == self.spec_with_value(0),
            r.spec_kind() == self,
            r.spec_as_u32() == 0,
    {
        self.with_value(0)
    }
}

impl ScalarRewrite {
    pub open spec fn spec_as_u32(self) -> u32 {
        match self {
            ScalarRewrite::VarU32(v) => v,
            ScalarRewrite::VarI32(v) => v as u32,
            ScalarRewrite::U32(v) => v,
            ScalarRewrite::I32(v) => v as u32,
        }
    }

    pub open spec fn spec_kind(self) -> ScalarRewriteKind {
        match self {
            ScalarRewrite::VarU32(_) => ScalarRewriteKind::VarU32,
            ScalarRewrite::VarI32(_) => ScalarRewriteKind::VarI32,
            ScalarRewrite::U32(_) => ScalarRewriteKind::U32,
            ScalarRewrite::I32(_) => ScalarRewriteKind::I32,
        }
    }

    /// The value's 32 bits as a `u32`.
    pub fn as_u32(self) -> (r: u32)
        ensures
            r == self.spec_as_u32(),
    {
        match self {
            ScalarRewrite::VarU32(v) => v,
            ScalarRewrite::VarI32(v) => v as u32,
            ScalarRewrite::U32(v) => v,
            ScalarRewrite::I32(v) => v as u32,
        }
    }

    /// The value less `addend`, modulo 2^32.
    pub fn as_u32_neg_offset(self, addend: i32) -> (r: u32)
        ensures
            r as int == (self.spec_as_u32() - addend) % 0x1_0000_0000,
    {
        let d: i64 = self.as_u32() as i64 - addend as i64;
        if d < 0 {
            (d + 0x1_0000_0000) as u32
        } else if d >= 0x1_0000_0000 {
            (d - 0x1_0000_0000) as u32
        } else {
            d as u32
        }
    }

    /// The encoding of the value.
    pub fn kind(self) -> (r: ScalarRewriteKind)
        ensures
            r == self.spec_kind(),
    {
        match self {
            ScalarRewrite::VarU32(_) => ScalarRewriteKind::VarU32,
            ScalarRewrite::VarI32(_) => ScalarRewriteKind::VarI32,
            ScalarRewrite::U32(_) => ScalarRewriteKind::U32,
            ScalarRewrite::I32(_) => ScalarRewriteKind::I32,
        }
    }
}

/// `128^k`.
pub open spec fn pow128(k: nat) -> int
    decreases k,
{
    if k == 0 {
        1
    } else {
        128 * pow128((k - 1) as nat)
    }
}

/// The number that the low seven bits of the first `k` bytes of `b` give, least
/// significant group first.
pub open spec fn leb_digits(b: Seq<u8>, k: nat) -> int
    decreases k,
{
    if k == 0 {
        0
    } else {
        leb_digits(b, (k - 1) as nat) + (b[k - 1] % 128) * pow128((k - 1) as nat)
    }
}

/// The length of the LEB128 group sequence at the start of `b`, counting from
/// position `i`: it ends at the first byte without the high bit, within five
/// bytes.
pub open spec fn leb_end(b: Seq<u8>, i: nat) -> Option<nat>
    decreases 5 - i,
{
    if i >= 5 || i >= b.len() {
        None
    } else if b[i as int] < 128 {
        Some(i + 1)
    } else {
        leb_end(b, i + 1)
    }
}

/// The unsigned LEB128 number at the start of `b` and its length in bytes.
pub open spec fn spec_var_u32(b: Seq<u8>) -> Option<(u32, nat)> {
    match leb_end(b, 0) {
        Some(k) => if leb_digits(b, k) <= u32::MAX {
            Some((leb_digits(b, k) as u32, k))
        } else {
            None
        },
        None => None,
    }
}

/// The signed LEB128 number at the start of `b` and its length in bytes.
pub open spec fn spec_var_i32(b: Seq<u8>) -> Option<(i32, nat)> {
    match leb_end(b, 0) {
        Some(k) => {
            let v = if b[k - 1] % 128 >= 64 {
                leb_digits(b, k) - pow128(k)
            } else {
                leb_digits(b, k)
            };
            if i32::MIN <= v <= i32::MAX {
                Some((v as i32, k))
            } else {
                None
            }
        },
        None => None,
    }
}

proof fn lemma_leb_step(b: Seq<u8>, i: nat)
    requires
        i < b.len(),
        0 <= leb_digits(b, i) < pow128(i),
    ensures
        0 <= leb_digits(b, i + 1) < pow128(i + 1),
        pow128(i + 1) == 128 * pow128(i),
{
    let x = (b[i as int] % 128) as int;
    let p = pow128(i);
    assert(leb_digits(b, i + 1) == leb_digits(b, i) + x * p);
    assert(0 <= x * p <= 127 * p) by (nonlinear_arith)
        requires
            0 <= x <= 127,
            p >= 0,
    ;
}

proof fn lemma_pow128_values(k: nat)
    requires
        k <= 5,
    ensures
        1 <= pow128(k) <= 34359738368,
        k <= 4 ==> pow128(k) <= 268435456,
{
    reveal_with_fuel(pow128, 6);
    assert(k == 0 || k == 1 || k == 2 || k == 3 || k == 4 || k == 5);
}

/// A LEB128 number ends within the buffer and within five bytes.
proof fn lemma_leb_end_bounds(b: Seq<u8>, i: nat)
    ensures
        leb_end(b, i) matches Some(k) ==> i < k && k <= b.len() && k <= 5,
    decreases 5 - i,
{
    if i < 5 && i < b.len() && b[i as int] >= 128 {
        lemma_leb_end_bounds(b, i + 1);
    }
}

/// A read position in a byte buffer: the bytes not read yet.
pub struct ByteCursor<'a>(pub &'a [u8]);

impl<'a> ByteCursor<'a> {
    fn advance(&mut self, n: usize)
        requires
            n <= old(self).0@.len(),
        ensures
            final(self).0@ == old(self).0@.subrange(n as int, old(self).0@.len() as int),
    {
        self.0 = &self.0[n..self.0.len()];
    }

    /// Reads one byte.
    pub fn read_u8(&mut self) -> (r: Result<u8, RelocError>)
        ensures
            match r {
                Ok(v) => old(self).0@.len() >= 1 && v == old(self).0@[0] && final(self).0@
                    == old(self).0@.drop_first(),
                Err(e) => old(self).0@.len() == 0 && e == RelocError::UnexpectedEnd
                    && final(self).0@ == old(self).0@,
            },
    {
        if self.0.len() == 0 {
            return Err(RelocError::UnexpectedEnd);
        }
        let v = self.0[0];
        self.advance(1);
        Ok(v)
    }

    /// Reads four little-endian bytes as a `u32`.
    pub fn read_u32(&mut self) -> (r: Result<u32, RelocError>)
        ensures
            match r {
                Ok(v) => old(self).0@.len() >= 4 && v == spec_u32_from_le_bytes(
                    old(self).0@.subrange(0, 4),
                ) && final(self).0@ == old(self).0@.subrange(4, old(self).0@.len() as int),
                Err(e) => old(self).0@.len() < 4 && e == RelocError::UnexpectedEnd
                    && final(self).0@ == old(self).0@,
            },
    {
        if self.0.len() < 4 {
            return Err(RelocError::UnexpectedEnd);
        }
        let v = u32_from_le_bytes(&self.0[0..4]);
        self.advance(4);
        Ok(v)
    }

    /// Reads four little-endian bytes as an `i32`.
    pub fn read_i32(&mut self) -> (r: Result<i32, RelocError>)
        ensures
            match r {
                Ok(v) => old(self).0@.len() >= 4 && v == spec_u32_from_le_bytes(
                    old(self).0@.subrange(0, 4),
                ) as i32 && final(self).0@ == old(self).0@.subrange(
                    4,
                    old(self).0@.len() as int,
                ),
                Err(e) => old(self).0@.len() < 4 && e == RelocError::UnexpectedEnd
                    && final(self).0@ == old(self).0@,
            },
    {
        let v = self.read_u32()?;
        Ok(v as i32)
    }

    /// Reads the low groups of a LEB128 number: its digits and its length.
    fn read_leb_digits(&self) -> (r: Option<(u64, usize)>)
        ensures
            match r {
                Some((v, k)) => leb_end(self.0@, 0) == Some(k as nat) && v == leb_digits(
                    self.0@,
                    k as nat,
                ) && v < pow128(k as nat) && 1 <= k <= 5 && k <= self.0@.len(),
                None => leb_end(self.0@, 0) is None,
            },
    {
        let b = self.0;
        let mut result: u64 = 0;
        let mut mult: u64 = 1;
        let mut i: usize = 0;
        while i < 5
            invariant
                i <= 5,
                b@ == self.0@,
                result == leb_digits(b@, i as nat),
                0 <= result < pow128(i as nat),
                mult == pow128(i as nat),
                i <= b@.len(),
                leb_end(b@, 0) == leb_end(b@, i as nat),
            decreases 5 - i,
        {
            if i >= b.len() {
                return None;
            }
            let byte = b[i];
            proof {
                lemma_leb_step(b@, i as nat);
                lemma_pow128_values(i as nat);
                lemma_pow128_values((i + 1) as nat);
                assert((byte % 128) as int * mult <= 127 * mult) by (nonlinear_arith)
                    requires
                        0 <= byte % 128 <= 127,
                        mult >= 0,
                ;
            }
            result = result + (byte % 128) as u64 * mult;
            mult = mult * 128;
            i = i + 1;
            if byte < 128 {
                return Some((result, i));
            }
            assert(leb_end(b@, (i - 1) as nat) == leb_end(b@, i as nat));
        }
        None
    }

    /// Reads an unsigned LEB128 number of at most five bytes that fits in 32
    /// bits; changes nothing where there is none.
    pub fn read_var_u32(&mut self) -> (r: Result<u32, RelocError>)
        ensures
            match r {
                Ok(v) => spec_var_u32(old(self).0@) matches Some((x, k)) && v == x
                    && final(self).0@ == old(self).0@.subrange(k as int, old(self).0@.len() as int),
                Err(e) => spec_var_u32(old(self).0@) is None && e == RelocError::BadLeb128
                    && final(self).0@ == old(self).0@,
            },
    {
        match self.read_leb_digits() {
            Some((v, k)) => {
                if v > u32::MAX as u64 {
                    Err(RelocError::BadLeb128)
                } else {
                    self.advance(k);
                    Ok(v as u32)
                }
            },
            None => Err(RelocError::BadLeb128),
        }
    }

    /// Reads a signed LEB128 number of at most five bytes that fits in 32
    /// bits; changes nothing where there is none.
    pub fn read_var_i32(&mut self) -> (r: Result<i32, RelocError>)
        ensures
            match r {
                Ok(v) => spec_var_i32(old(self).0@) matches Some((x, k)) && v == x
                    && final(self).0@ == old(self).0@.subrange(k as int, old(self).0@.len() as int),
                Err(e) => spec_var_i32(old(self).0@) is None && e == RelocError::BadLeb128
                    && final(self).0@ == old(self).0@,
            },
    {
        match self.read_leb_digits() {
            Some((v, k)) => {
                let last = self.0[k - 1];
                proof {
                    lemma_pow128_values(k as nat);
                }
                let full: u64 = mult_pow128(k);
                let value: i64 = if last % 128 >= 64 {
                    v as i64 - full as i64
                } else {
                    v as i64
                };
                if value < i32::MIN as i64 || value > i32::MAX as i64 {
                    Err(RelocError::BadLeb128)
                } else {
                    self.advance(k);
                    Ok(value as i32)
                }
            },
            None => Err(RelocError::BadLeb128),
        }
    }
}

/// `128^k` for a group count of a LEB128 number.
fn mult_pow128(k: usize) -> (r: u64)
    requires
        k <= 5,
    ensures
        r == pow128(k as nat),
{
    let mut r: u64 = 1;
    let mut i: usize = 0;
    while i < k
        invariant
            i <= k <= 5,
            r == pow128(i as nat),
        decreases k - i,
    {
        proof {
            lemma_pow128_values(i as nat);
        }
        r = r * 128;
        i = i + 1;
    }
    r
}

/// The five-byte LEB128 groups of `u`, a number below `2^35`: every group but
/// the last has the high bit set.
pub open spec fn spec_leb_full(u: int) -> Seq<u8> {
    seq![
        (u % 128 + 128) as u8,
        ((u / 128) % 128 + 128) as u8,
        ((u / 16384) % 128 + 128) as u8,
        ((u / 2097152) % 128 + 128) as u8,
        (u / 268435456) as u8,
    ]
}

/// The five-byte unsigned LEB128 encoding of `v`.
pub open spec fn spec_var_u32_full(v: u32) -> Seq<u8> {
    spec_leb_full(v as int)
}

/// The five-byte signed LEB128 encoding of `v`.
pub open spec fn spec_var_i32_full(v: i32) -> Seq<u8> {
    spec_leb_full(if v < 0 { v + 34359738368 } else { v as int })
}

/// Appends the five LEB128 groups of `u`.
fn write_leb_full(out: &mut Vec<u8>, u: u64)
    requires
        u < 34359738368,
    ensures
        final(out)@ == old(out)@ + spec_leb_full(u as int),
{
    out.push((u % 128 + 128) as u8);
    out.push(((u / 128) % 128 + 128) as u8);
    out.push(((u / 16384) % 128 + 128) as u8);
    out.push(((u / 2097152) % 128 + 128) as u8);
    out.push((u / 268435456) as u8);
    assert(final(out)@ =~= old(out)@ + spec_leb_full(u as int));
}

/// Appends the five-byte unsigned LEB128 encoding of `v`.
pub fn write_var_u32_full(out: &mut Vec<u8>, v: u32)
    ensures
        final(out)@ == old(out)@ + spec_var_u32_full(v),
{
    write_leb_full(out, v as u64);
}

/// Appends the five-byte signed LEB128 encoding of `v`.
pub fn write_var_i32_full(out: &mut Vec<u8>, v: i32)
    ensures
        final(out)@ == old(out)@ + spec_var_i32_full(v),
{
    let u: u64 = if v < 0 {
        (v as i64 + 34359738368) as u64
    } else {
        v as u64
    };
    write_leb_full(out, u);
}

impl<'a> ByteCursor<'a> {
    /// Reads an unsigned LEB128 number that takes exactly five bytes, as
    /// relocated values do; changes nothing where there is none.
    pub fn read_var_u32_full(&mut self) -> (r: Result<u32, RelocError>)
        ensures
            match r {
                Ok(v) => spec_var_u32(old(self).0@) == Some((v, 5nat)) && final(self).0@
                    == old(self).0@.subrange(5, old(self).0@.len() as int),
                Err(e) => !(spec_var_u32(old(self).0@) matches Some((_, k)) && k == 5)
                    && e == RelocError::BadLeb128 && final(self).0@ == old(self).0@,
            },
    {
        let save = self.0;
        proof {
            lemma_leb_end_bounds(save@, 0);
        }
        let v = self.read_var_u32()?;
        if save.len() - self.0.len() != 5 {
            self.0 = save;
            return Err(RelocError::BadLeb128);
        }
        Ok(v)
    }

    /// Reads a signed LEB128 number that takes exactly five bytes, as
    /// relocated values do; changes nothing where there is none.
    pub fn read_var_i32_full(&mut self) -> (r: Result<i32, RelocError>)
        ensures
            match r {
                Ok(v) => spec_var_i32(old(self).0@) == Some((v, 5nat)) && final(self).0@
                    == old(self).0@.subrange(5, old(self).0@.len() as int),
                Err(e) => !(spec_var_i32(old(self).0@) matches Some((_, k)) && k == 5)
                    && e == RelocError::BadLeb128 && final(self).0@ == old(self).0@,
            },
    {
        let save = self.0;
        proof {
            lemma_leb_end_bounds(save@, 0);
        }
        let v = self.read_var_i32()?;
        if save.len() - self.0.len() != 5 {
            self.0 = save;
            return Err(RelocError::BadLeb128);
        }
        Ok(v)
    }
}

/// What rewriting the value at the start of `input` as `rw` writes, and how
/// many bytes of `input` the old value took; or why there is no such value.
pub open spec fn spec_scalar_rewrite(rw: ScalarRewrite, input: Seq<u8>) -> Result<
    (Seq<u8>, nat),
    RelocError,
> {
    match rw {
        ScalarRewrite::VarU32(v) => match spec_var_u32(input) {
            Some((_, k)) => if k == 5 {
                Ok((spec_var_u32_full(v), 5nat))
            } else {
                Err(RelocError::BadLeb128)
            },
            None => Err(RelocError::BadLeb128),
        },
        ScalarRewrite::VarI32(v) => match spec_var_i32(input) {
            Some((_, k)) => if k == 5 {
                Ok((spec_var_i32_full(v), 5nat))
            } else {
                Err(RelocError::BadLeb128)
            },
            None => Err(RelocError::BadLeb128),
        },
        ScalarRewrite::U32(v) => if input.len() >= 4 {
            Ok((spec_u32_to_le_bytes(v), 4nat))
        } else {
            Err(RelocError::UnexpectedEnd)
        },
        ScalarRewrite::I32(v) => if input.len() >= 4 {
            Ok((spec_u32_to_le_bytes(v as u32), 4nat))
        } else {
            Err(RelocError::UnexpectedEnd)
        },
    }
}

impl ScalarRewrite {
    /// Replaces a five-byte unsigned LEB128 number with `val`.
    pub fn rewrite_var_u32(buf: &mut ByteCursor, writer: &mut Vec<u8>, val: u32) -> (r: Result<
        (),
        RelocError,
    >)
        ensures
            match spec_scalar_rewrite(ScalarRewrite::VarU32(val), old(buf).0@) {
                Ok((out, k)) => r is Ok && final(buf).0@ == old(buf).0@.subrange(
                    k as int,
                    old(buf).0@.len() as int,
                ) && final(writer)@ == old(writer)@ + out,
                Err(e) => r == Err::<(), RelocError>(e) && final(buf).0@ == old(buf).0@
                    && final(writer)@ == old(writer)@,
            },
    {
        buf.read_var_u32_full()?;
        write_var_u32_full(writer, val);
        Ok(())
    }

    /// Replaces a five-byte signed LEB128 number with `val`.
    pub fn rewrite_var_i32(buf: &mut ByteCursor, writer: &mut Vec<u8>, val: i32) -> (r: Result<
        (),
        RelocError,
    >)
        ensures
            match spec_scalar_rewrite(ScalarRewrite::VarI32(val), old(buf).0@) {
                Ok((out, k)) => r is Ok && final(buf).0@ == old(buf).0@.subrange(
                    k as int,
                    old(buf).0@.len() as int,
                ) && final(writer)@ == old(writer)@ + out,
                Err(e) => r == Err::<(), RelocError>(e) && final(buf).0@ == old(buf).0@
                    && final(writer)@ == old(writer)@,
            },
    {
        buf.read_var_i32_full()?;
        write_var_i32_full(writer, val);
        Ok(())
    }

    /// Replaces four little-endian bytes with those of `val`.
    pub fn rewrite_u32(buf: &mut ByteCursor, writer: &mut Vec<u8>, val: u32) -> (r: Result<
        (),
        RelocError,
    >)
        ensures
            match spec_scalar_rewrite(ScalarRewrite::U32(val), old(buf).0@) {
                Ok((out, k)) => r is Ok && final(buf).0@ == old(buf).0@.subrange(
                    k as int,
                    old(buf).0@.len() as int,
                ) && final(writer)@ == old(writer)@ + out,
                Err(e) => r == Err::<(), RelocError>(e) && final(buf).0@ == old(buf).0@
                    && final(writer)@ == old(writer)@,
            },
    {
        buf.read_u32()?;
        let mut b = u32_to_le_bytes(val);
        writer.append(&mut b);
        Ok(())
    }

    /// Replaces four little-endian bytes with those of `val`.
    pub fn rewrite_i32(buf: &mut ByteCursor, writer: &mut Vec<u8>, val: i32) -> (r: Result<
        (),
        RelocError,
    >)
        ensures
            match spec_scalar_rewrite(ScalarRewrite::I32(val), old(buf).0@) {
                Ok((out, k)) => r is Ok && final(buf).0@ == old(buf).0@.subrange(
                    k as int,
                    old(buf).0@.len() as int,
                ) && final(writer)@ == old(writer)@ + out,
                Err(e) => r == Err::<(), RelocError>(e) && final(buf).0@ == old(buf).0@
                    && final(writer)@ == old(writer)@,
            },
    {
        buf.read_i32()?;
        let mut b = u32_to_le_bytes(val as u32);
        writer.append(&mut b);
        Ok(())
    }
}

/// Something that replaces the value at the start of a buffer, writing its
/// replacement; it may use a context of type `C`.
pub trait Rewriter<C>: Sized {
    /// What the rewrite writes for `input`, and how many bytes of it the old
    /// value took; or the error where `input` holds no value it can replace.
    spec fn spec_rewrite(self, input: Seq<u8>) -> Result<(Seq<u8>, nat), RelocError>;

    fn rewrite(self, buf: &mut ByteCursor, writer: &mut Vec<u8>, cx: &mut C) -> (r: Result<
        (),
        RelocError,
    >)
        ensures
            match self.spec_rewrite(old(buf).0@) {
                Ok((out, k)) => r is Ok && k <= old(buf).0@.len() && final(buf).0@ == old(
                    buf,
                ).0@.subrange(k as int, old(buf).0@.len() as int) && final(writer)@ == old(
                    writer,
                )@ + out,
                Err(e) => r == Err::<(), RelocError>(e) && final(buf).0@ == old(buf).0@
                    && final(writer)@ == old(writer)@,
            },
    ;
}

impl<C> Rewriter<C> for ScalarRewrite {
    open spec fn spec_rewrite(self, input: Seq<u8>) -> Result<(Seq<u8>, nat), RelocError> {
        spec_scalar_rewrite(self, input)
    }

    fn rewrite(self, buf: &mut ByteCursor, writer: &mut Vec<u8>, cx: &mut C) -> (r: Result<
        (),
        RelocError,
    >) {
        proof {
            lemma_leb_end_bounds(buf.0@, 0);
        }
        match self {
            ScalarRewrite::VarU32(val) => Self::rewrite_var_u32(buf, writer, val),
            ScalarRewrite::VarI32(val) => Self::rewrite_var_i32(buf, writer, val),
            ScalarRewrite::U32(val) => Self::rewrite_u32(buf, writer, val),
            ScalarRewrite::I32(val) => Self::rewrite_i32(buf, writer, val),
        }
    }
}

/// What reading a value of encoding `kind` from the start of `b` gives, and
/// how many bytes it takes.
pub open spec fn spec_read(kind: ScalarRewriteKind, b: Seq<u8>) -> Option<(ScalarRewrite, nat)> {
    match kind {
        ScalarRewriteKind::VarU32 => match spec_var_u32(b) {
            Some((v, k)) => Some((ScalarRewrite::VarU32(v), k)),
            None => None,
        },
        ScalarRewriteKind::VarI32 => match spec_var_i32(b) {
            Some((v, k)) => Some((ScalarRewrite::VarI32(v), k)),
            None => None,
        },
        ScalarRewriteKind::U32 => if b.len() >= 4 {
            Some((ScalarRewrite::U32(spec_u32_from_le_bytes(b.subrange(0, 4))), 4nat))
        } else {
            None
        },
        ScalarRewriteKind::I32 => if b.len() >= 4 {
            Some((ScalarRewrite::I32(spec_u32_from_le_bytes(b.subrange(0, 4)) as i32), 4nat))
        } else {
            None
        },
    }
}

impl ScalarRewriteKind {
    /// Reads a value of this encoding; changes nothing where there is none.
    pub fn read(self, buf: &mut ByteCursor) -> (r: Result<ScalarRewrite, RelocError>)
        ensures
            match spec_read(self, old(buf).0@) {
                Some((v, k)) => r == Ok::<ScalarRewrite, RelocError>(v) && final(buf).0@ == old(
                    buf,
                ).0@.subrange(k as int, old(buf).0@.len() as int),
                None => r is Err && final(buf).0@ == old(buf).0@,
            },
    {
        match self {
            ScalarRewriteKind::VarU32 => match buf.read_var_u32() {
                Ok(v) => Ok(ScalarRewrite::VarU32(v)),
                Err(e) => Err(e),
            },
            ScalarRewriteKind::VarI32 => match buf.read_var_i32() {
                Ok(v) => Ok(ScalarRewrite::VarI32(v)),
                Err(e) => Err(e),
            },
            ScalarRewriteKind::U32 => match buf.read_u32() {
                Ok(v) => Ok(ScalarRewrite::U32(v)),
                Err(e) => Err(e),
            },
            ScalarRewriteKind::I32 => match buf.read_i32() {
                Ok(v) => Ok(ScalarRewrite::I32(v)),
                Err(e) => Err(e),
            },
        }
    }
}

/// Rewriting `buf` from `cursor` with the replacements `reps`, each a start
/// position and a rewriter, in order: the bytes written, and the outcome. The
/// bytes up to each start are kept, the rewriter replaces the value there, and
/// the bytes after the last value are kept. Replacements that start past the
/// end are ignored from the first on. Where one starts inside the previous
/// value, or its rewriter fails, rewriting stops with that error, after the
/// bytes kept before it.
pub open spec fn spec_relocated<C, R: Rewriter<C>>(
    buf: Seq<u8>,
    reps: Seq<(usize, R)>,
    cursor: int,
) -> (
    Seq<u8>,
    Result<(), RelocError>,
)
    decreases reps.len(),
{
    if reps.len() == 0 || reps[0].0 > buf.len() {
        (buf.subrange(cursor, buf.len() as int), Ok(()))
    } else if (reps[0].0 as int) < cursor {
        (Seq::empty(), Err(RelocError::Overlap))
    } else {
        let kept = buf.subrange(cursor, reps[0].0 as int);
        match <R as Rewriter<C>>::spec_rewrite(
            reps[0].1,
            buf.subrange(reps[0].0 as int, buf.len() as int),
        ) {
            Ok((out, k)) => {
                let rest = spec_relocated::<C, R>(buf, reps.drop_first(), reps[0].0 + k);
                (kept + out + rest.0, rest.1)
            },
            Err(e) => (kept, Err(e)),
        }
    }
}

fn extend_bytes(out: &mut Vec<u8>, s: &[u8])
    ensures
        final(out)@ == old(out)@ + s@,
{
    let mut i: usize = 0;
    while i < s.len()
        invariant
            i <= s@.len(),
            out@ == old(out)@ + s@.take(i as int),
        decreases s@.len() - i,
    {
        out.push(s[i]);
        i = i + 1;
        assert(out@ =~= old(out)@ + s@.take(i as int));
    }
    assert(s@.take(i as int) =~= s@);
}

/// Copies `buf` to `writer` with the values at the starts of `replacements`
/// rewritten; stops with an error where a replacement starts inside the
/// previous value or its rewriter fails, having written the bytes before it.
pub fn rewrite_relocated<C, R: Rewriter<C> + Copy>(
    buf: &[u8],
    writer: &mut Vec<u8>,
    cx: &mut C,
    replacements: &[(usize, R)],
) -> (r: Result<(), RelocError>)
    ensures
        final(writer)@ == old(writer)@ + spec_relocated::<C, R>(buf@, replacements@, 0).0,
        r == spec_relocated::<C, R>(buf@, replacements@, 0).1,
{
    let ghost w0 = writer@;
    let ghost reps = replacements@;
    let ghost total = spec_relocated::<C, R>(buf@, reps, 0);
    let mut cursor: usize = 0;
    let mut j: usize = 0;
    proof {
        assert(reps.skip(0) =~= reps);
        assert(Seq::<u8>::empty() + total.0 =~= total.0);
    }
    while j < replacements.len()
        invariant
            cursor <= buf@.len(),
            j <= reps.len(),
            reps == replacements@,
            total == spec_relocated::<C, R>(buf@, reps, 0),
            w0 == old(writer)@,
            w0.len() <= writer@.len(),
            writer@.subrange(0, w0.len() as int) == w0,
            ({
                let w = writer@.subrange(w0.len() as int, writer@.len() as int);
                let rest = spec_relocated::<C, R>(buf@, reps.skip(j as int), cursor as int);
                total.0 == w + rest.0 && total.1 == rest.1
            }),
        decreases reps.len() - j,
    {
        let ghost w = writer@.subrange(w0.len() as int, writer@.len() as int);
        let ghost rest = reps.skip(j as int);
        assert(rest[0] == reps[j as int]);
        assert(rest.drop_first() =~= reps.skip(j + 1));
        let (start, rw) = replacements[j];
        if start > buf.len() {
            j = replacements.len();
            assert(reps.skip(j as int).len() == 0);
        } else {
            if start < cursor {
                proof {
                    let r0 = spec_relocated::<C, R>(buf@, reps.skip(j as int), cursor as int);
                    assert(r0 == (Seq::<u8>::empty(), Err::<(), RelocError>(RelocError::Overlap)));
                    assert(w + r0.0 =~= w);
                    assert(writer@ =~= w0 + w);
                    assert(total.0 == w + r0.0);
                    assert(total.0 =~= w);
                    assert(total.1 == r0.1);
                }
                return Err(RelocError::Overlap);
            }
            extend_bytes(writer, &buf[cursor..start]);
            let ghost kept = buf@.subrange(cursor as int, start as int);
            let ghost w_mid = writer@;
            assert(w_mid =~= w0 + (w + kept));
            let tail = &buf[start..buf.len()];
            let mut c = ByteCursor(tail);
            match rw.rewrite(&mut c, writer, cx) {
                Ok(()) => {},
                Err(e) => {
                    proof {
                        assert(tail@ == buf@.subrange(start as int, buf@.len() as int));
                        let r0 = spec_relocated::<C, R>(buf@, reps.skip(j as int), cursor as int);
                        assert(r0 == (kept, Err::<(), RelocError>(e)));
                        assert(writer@ =~= w0 + (w + kept));
                        assert(total.0 == w + r0.0);
                        assert(total.1 == r0.1);
                    }
                    return Err(e);
                },
            }
            let consumed = tail.len() - c.0.len();
            proof {
                let (out, k) = <R as Rewriter<C>>::spec_rewrite(rw, tail@)->Ok_0;
                assert(consumed == k);
                let piece = kept + out;
                assert(writer@ =~= w0 + (w + piece));
                assert(writer@.subrange(0, w0.len() as int) =~= w0);
                assert(writer@.subrange(w0.len() as int, writer@.len() as int) =~= w + piece);
                let next = spec_relocated::<C, R>(buf@, reps.skip(j + 1), start + k);
                assert(w + (kept + out + next.0) =~= (w + piece) + next.0);
            }
            cursor = start + consumed;
            j = j + 1;
        }
    }
    let ghost w = writer@.subrange(w0.len() as int, writer@.len() as int);
    extend_bytes(writer, &buf[cursor..buf.len()]);
    proof {
        assert(reps.skip(j as int).len() == 0);
        let tail = buf@.subrange(cursor as int, buf@.len() as int);
        assert(writer@ =~= w0 + (w + tail));
    }
    Ok(())
}

/// One relocation: its kind, the offset of the value it rewrites, the index of
/// the symbol it refers to, and an addend for the kinds that carry one.
#[derive(Debug, Clone, Copy, PartialEq, Eq, Structural)]
pub struct RelocEntry {
    pub ty: RelocEntryType,
    pub offset: u32,
    pub index: u32,
    pub addend: Option<i32>,
}

/// The bytes of `b` from `k` on.
pub open spec fn after(b: Seq<u8>, k: nat) -> Seq<u8> {
    b.subrange(k as int, b.len() as int)
}

/// The relocation entry at the start of `b` and its length in bytes.
pub open spec fn spec_parse_entry(b: Seq<u8>) -> Option<(RelocEntry, nat)> {
    if b.len() == 0 || !RelocEntryType::spec_known_code(b[0]) {
        None
    } else {
        let ty = RelocEntryType::spec_from_code(b[0]);
        match spec_var_u32(after(b, 1)) {
            None => None,
            Some((offset, k1)) => match spec_var_u32(after(b, 1 + k1)) {
                None => None,
                Some((index, k2)) => if ty.spec_has_addend() {
                    match spec_var_i32(after(b, 1 + k1 + k2)) {
                        None => None,
                        Some((a, k3)) => Some(
                            (RelocEntry { ty, offset, index, addend: Some(a) }, 1 + k1 + k2 + k3),
                        ),
                    }
                } else {
                    Some((RelocEntry { ty, offset, index, addend: None }, 1 + k1 + k2))
                },
            },
        }
    }
}

proof fn lemma_after_after(b: Seq<u8>, i: nat, j: nat)
    requires
        i + j <= b.len(),
    ensures
        after(after(b, i), j) == after(b, i + j),
{
    assert(after(after(b, i), j) =~= after(b, i + j));
}

impl RelocEntry {
    /// Reads one relocation entry.
    pub fn parse(buf: &mut ByteCursor) -> (r: Result<RelocEntry, RelocError>)
        ensures
            match spec_parse_entry(old(buf).0@) {
                Some((e, k)) => r == Ok::<RelocEntry, RelocError>(e) && final(buf).0@ == after(
                    old(buf).0@,
                    k,
                ),
                None => r is Err,
            },
    {
        let ghost b = buf.0@;
        let code = buf.read_u8()?;
        let ty = RelocEntryType::parse(code)?;
        proof {
            assert(buf.0@ =~= after(b, 1));
            lemma_leb_end_bounds(buf.0@, 0);
        }
        let offset = buf.read_var_u32()?;
        let ghost k1 = spec_var_u32(after(b, 1))->Some_0.1;
        proof {
            lemma_after_after(b, 1, k1);
            lemma_leb_end_bounds(buf.0@, 0);
        }
        let index = buf.read_var_u32()?;
        let ghost k2 = spec_var_u32(after(b, 1 + k1))->Some_0.1;
        proof {
            lemma_after_after(b, 1 + k1, k2);
            lemma_leb_end_bounds(buf.0@, 0);
        }
        let addend = if ty.has_addend() {
            let a = buf.read_var_i32()?;
            proof {
                let k3 = spec_var_i32(after(b, 1 + k1 + k2))->Some_0.1;
                lemma_after_after(b, 1 + k1 + k2, k3);
            }
            Some(a)
        } else {
            None
        };
        Ok(RelocEntry { ty, offset, index, addend })
    }
}

/// A relocation section: the index of the section it applies to, how many
/// entries it holds, and the bytes of those entries.
#[derive(Debug, Clone)]
pub struct RelocSection<'a> {
    pub target_section: u32,
    pub entry_count: u32,
    pub entries: &'a [u8],
}

/// The `n` relocation entries at the start of `b`.
pub open spec fn spec_entries(b: Seq<u8>, n: nat) -> Option<Seq<RelocEntry>>
    decreases n,
{
    if n == 0 {
        Some(Seq::empty())
    } else {
        match spec_parse_entry(b) {
            Some((e, k)) => match spec_entries(after(b, k), (n - 1) as nat) {
                Some(rest) => Some(seq![e] + rest),
                None => None,
            },
            None => None,
        }
    }
}

impl<'a> RelocSection<'a> {
    /// Reads the header of a relocation section; the rest of the buffer holds
    /// its entries.
    pub fn parse(buf: &mut ByteCursor<'a>) -> (r: Result<RelocSection<'a>, RelocError>)
        ensures
            match spec_var_u32(old(buf).0@) {
                Some((target, k1)) => match spec_var_u32(after(old(buf).0@, k1)) {
                    Some((count, k2)) => r is Ok && r->Ok_0.target_section == target
                        && r->Ok_0.entry_count == count && r->Ok_0.entries@ == after(
                        old(buf).0@,
                        k1 + k2,
                    ),
                    None => r is Err,
                },
                None => r is Err,
            },
    {
        let ghost b = buf.0@;
        proof {
            lemma_leb_end_bounds(b, 0);
        }
        let target_section = buf.read_var_u32()?;
        let ghost k1 = spec_var_u32(b)->Some_0.1;
        proof {
            lemma_leb_end_bounds(buf.0@, 0);
        }
        let entry_count = buf.read_var_u32()?;
        proof {
            let k2 = spec_var_u32(after(b, k1))->Some_0.1;
            lemma_after_after(b, k1, k2);
        }
        Ok(RelocSection { target_section, entry_count, entries: buf.0 })
    }

    /// The section's entries, read in order; fails at the first that cannot be
    /// read.
    pub fn entries(&self) -> (r: Result<Vec<RelocEntry>, RelocError>)
        ensures
            match spec_entries(self.entries@, self.entry_count as nat) {
                Some(es) => r is Ok && r->Ok_0@ == es,
                None => r is Err,
            },
    {
        let mut out: Vec<RelocEntry> = Vec::new();
        let mut c = ByteCursor(self.entries);
        let mut i: u32 = 0;
        proof {
            match spec_entries(self.entries@, self.entry_count as nat) {
                Some(es) => {
                    assert(Seq::<RelocEntry>::empty() + es =~= es);
                },
                None => {},
            }
        }
        while i < self.entry_count
            invariant
                i <= self.entry_count,
                spec_entries(self.entries@, self.entry_count as nat) == match spec_entries(
                    c.0@,
                    (self.entry_count - i) as nat,
                ) {
                    Some(rest) => Some(out@ + rest),
                    None => None::<Seq<RelocEntry>>,
                },
            decreases self.entry_count - i,
        {
            let ghost before = c.0@;
            let ghost prev = out@;
            let e = RelocEntry::parse(&mut c)?;
            out.push(e);
            proof {
                match spec_entries(c.0@, (self.entry_count - i - 1) as nat) {
                    Some(rest) => {
                        assert(prev + (seq![e] + rest) =~= out@ + rest);
                    },
                    None => {},
                }
            }
            i = i + 1;
        }
        proof {
            assert(out@ + Seq::<RelocEntry>::empty() =~= out@);
        }
        Ok(out)
    }
}

/// A padded unsigned LEB128 number reads back as its value, in five bytes.
#[verifier::spinoff_prover]
pub proof fn lemma_var_u32_full_round_trip(v: u32)
    ensures
        spec_var_u32(spec_var_u32_full(v)) == Some((v, 5nat)),
{
    let b = spec_var_u32_full(v);
    let u = v as int;
    reveal_with_fuel(leb_end, 6);
    let q1 = u / 128;
    let q2 = q1 / 128;
    let q3 = q2 / 128;
    let q4 = q3 / 128;
    assert(u / 16384 == q2) by (nonlinear_arith)
        requires
            q1 == u / 128,
            q2 == q1 / 128,
            u >= 0,
    ;
    assert(u / 2097152 == q3) by (nonlinear_arith)
        requires
            q1 == u / 128,
            q2 == q1 / 128,
            q3 == q2 / 128,
            u >= 0,
    ;
    assert(u / 268435456 == q4) by (nonlinear_arith)
        requires
            q1 == u / 128,
            q2 == q1 / 128,
            q3 == q2 / 128,
            q4 == q3 / 128,
            u >= 0,
    ;
    assert(b[0] % 128 == u % 128);
    assert(b[1] % 128 == q1 % 128);
    assert(b[2] % 128 == q2 % 128);
    assert(b[3] % 128 == q3 % 128);
    assert(q4 < 16);
    assert(b[4] == q4);
    assert(leb_end(b, 0) == Some(5nat));
    assert(u % 128 + (q1 % 128) * 128 + (q2 % 128) * 16384 + (q3 % 128) * 2097152 + q4 * 268435456
        == u) by (nonlinear_arith)
        requires
            q1 == u / 128,
            q2 == q1 / 128,
            q3 == q2 / 128,
            q4 == q3 / 128,
            u >= 0,
    ;
    lemma_leb_digits_five(b);
    assert(b[4] % 128 == q4);
    assert(leb_digits(b, 5) == u);
}

#[verifier::spinoff_prover]
proof fn lemma_leb_digits_five(b: Seq<u8>)
    requires
        b.len() == 5,
    ensures
        leb_digits(b, 5) == b[0] % 128 + (b[1] % 128) * 128 + (b[2] % 128) * 16384 + (b[3]
            % 128) * 2097152 + (b[4] % 128) * 268435456,
{
    reveal_with_fuel(pow128, 5);
    assert(pow128(0) == 1);
    assert(pow128(1) == 128);
    assert(pow128(2) == 16384);
    assert(pow128(3) == 2097152);
    assert(pow128(4) == 268435456);
    assert(leb_digits(b, 0) == 0);
    assert(leb_digits(b, 1) == leb_digits(b, 0) + (b[0] % 128) * pow128(0));
    assert(leb_digits(b, 2) == leb_digits(b, 1) + (b[1] % 128) * pow128(1));
    assert(leb_digits(b, 3) == leb_digits(b, 2) + (b[2] % 128) * pow128(2));
    assert(leb_digits(b, 4) == leb_digits(b, 3) + (b[3] % 128) * pow128(3));
    assert(leb_digits(b, 5) == leb_digits(b, 4) + (b[4] % 128) * pow128(4));
}

} // verus!
