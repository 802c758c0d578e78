use wasm_marshal::reloc::{
    rewrite_relocated, write_var_i32_full, write_var_u32_full, ByteCursor, RelocEntry,
    RelocEntryType, RelocError, RelocSection, ScalarRewrite, ScalarRewriteKind,
};

#[test]
fn entry_type_codes() {
    assert_eq!(RelocEntryType::parse(0), Ok(RelocEntryType::FunctionIndexLeb));
    assert_eq!(RelocEntryType::parse(5), Ok(RelocEntryType::MemoryAddrI32));
    assert_eq!(RelocEntryType::parse(13), Ok(RelocEntryType::GlobalIndexI32));
    assert_eq!(RelocEntryType::parse(11), Err(RelocError::UnknownType(11)));
    assert!(RelocEntryType::MemoryAddrSleb.has_addend());
    assert!(!RelocEntryType::TableIndexI32.has_addend());
    assert_eq!(RelocEntryType::TableIndexSleb.rewrite_kind(), ScalarRewriteKind::VarI32);
    assert_eq!(RelocEntryType::GlobalIndexLeb.rewrite_kind(), ScalarRewriteKind::VarU32);
    assert_eq!(RelocEntryType::SectionOffsetI32.rewrite_kind(), ScalarRewriteKind::U32);
}

#[test]
fn scalar_values() {
    assert_eq!(ScalarRewriteKind::VarI32.with_value(u32::MAX), ScalarRewrite::VarI32(-1));
    assert_eq!(ScalarRewriteKind::U32.with_zeroed(), ScalarRewrite::U32(0));
    assert_eq!(ScalarRewrite::I32(-1).as_u32(), u32::MAX);
    assert_eq!(ScalarRewrite::I32(-1).kind(), ScalarRewriteKind::I32);
    assert_eq!(ScalarRewrite::U32(5).as_u32_neg_offset(3), 2);
    assert_eq!(ScalarRewrite::U32(0).as_u32_neg_offset(1), u32::MAX);
    assert_eq!(ScalarRewrite::U32(5).as_u32_neg_offset(-3), 8);
    assert_eq!(ScalarRewrite::U32(0).as_u32_neg_offset(i32::MIN), 0x8000_0000);
}

#[test]
fn leb128_reads() {
    let data = [0xE5u8, 0x8E, 0x26, 0xAA];
    let mut c = ByteCursor(&data);
    assert_eq!(c.read_var_u32(), Ok(624485));
    assert_eq!(c.0, &[0xAA]);
    let data = [0xC0u8, 0xBB, 0x78];
    let mut c = ByteCursor(&data);
    assert_eq!(c.read_var_i32(), Ok(-123456));
    let data = [0xFFu8, 0xFF, 0xFF, 0xFF, 0x1F];
    let mut c = ByteCursor(&data);
    assert_eq!(c.read_var_u32(), Err(RelocError::BadLeb128));
    assert_eq!(c.0.len(), 5);
    let data = [0x80u8, 0x80];
    assert_eq!(ByteCursor(&data).read_var_u32(), Err(RelocError::BadLeb128));
}

#[test]
fn padded_leb128_round_trip() {
    let mut out = Vec::new();
    write_var_u32_full(&mut out, 300);
    assert_eq!(out, vec![0xAC, 0x82, 0x80, 0x80, 0x00]);
    assert_eq!(ByteCursor(&out).read_var_u32_full(), Ok(300));
    let mut out = Vec::new();
    write_var_i32_full(&mut out, -2);
    assert_eq!(out, vec![0xFE, 0xFF, 0xFF, 0xFF, 0x7F]);
    assert_eq!(ByteCursor(&out).read_var_i32_full(), Ok(-2));
    assert_eq!(ByteCursor(&[0x05]).read_var_u32_full(), Err(RelocError::BadLeb128));
}

#[test]
fn kind_read() {
    let data = [0x01u8, 0x00, 0x00, 0x80];
    let mut c = ByteCursor(&data);
    assert_eq!(ScalarRewriteKind::I32.read(&mut c), Ok(ScalarRewrite::I32(i32::MIN + 1)));
    assert_eq!(c.0.len(), 0);
    let mut c = ByteCursor(&data[..2]);
    assert_eq!(ScalarRewriteKind::U32.read(&mut c), Err(RelocError::UnexpectedEnd));
}

#[test]
fn rewrite_relocated_replaces_values() {
    // one byte, a padded LEB128 value, two bytes, a four-byte value, one byte
    let buf = [9u8, 0x81, 0x80, 0x80, 0x80, 0x00, 1, 2, 4, 0, 0, 0, 3];
    let mut out = Vec::new();
    let reps = [(1usize, ScalarRewrite::VarU32(300)), (8, ScalarRewrite::U32(0x0A0B0C0D))];
    assert_eq!(rewrite_relocated(&buf, &mut out, &mut (), &reps), Ok(()));
    assert_eq!(
        out,
        vec![9, 0xAC, 0x82, 0x80, 0x80, 0x00, 1, 2, 0x0D, 0x0C, 0x0B, 0x0A, 3]
    );
}

#[test]
fn rewrite_relocated_ignores_past_end_and_rejects_overlap() {
    let buf = [1u8, 2, 3, 4, 5];
    let mut out = Vec::new();
    assert_eq!(rewrite_relocated(&buf, &mut out, &mut (), &[(9usize, ScalarRewrite::U32(0))]), Ok(()));
    assert_eq!(out, buf.to_vec());
    let mut out = Vec::new();
    let reps = [(0usize, ScalarRewrite::U32(7)), (2, ScalarRewrite::U32(0))];
    assert_eq!(rewrite_relocated(&buf, &mut out, &mut (), &reps), Err(RelocError::Overlap));
    assert_eq!(out, vec![7, 0, 0, 0]);
}

#[test]
fn rewrite_relocated_stops_at_rewriter_error() {
    let buf = [1u8, 2, 3, 4, 5];
    let mut out = vec![0xEE];
    let reps = [(2usize, ScalarRewrite::U32(9)), (4, ScalarRewrite::U32(0))];
    assert_eq!(rewrite_relocated(&buf, &mut out, &mut (), &reps), Err(RelocError::UnexpectedEnd));
    assert_eq!(out, vec![0xEE, 1, 2]);
    let mut out = Vec::new();
    let reps = [(1usize, ScalarRewrite::VarU32(1))];
    assert_eq!(rewrite_relocated(&buf, &mut out, &mut (), &reps), Err(RelocError::BadLeb128));
    assert_eq!(out, vec![1]);
}

#[test]
fn section_and_entries() {
    // target section 3, two entries
    let data = [
        3u8, 2, // header
        0, 0x10, 0x01, // FunctionIndexLeb at 16, index 1
        3, 0x20, 0x02, 0x7C, // MemoryAddrLeb at 32, index 2, addend -4
    ];
    let mut c = ByteCursor(&data);
    let sec = RelocSection::parse(&mut c).unwrap();
    assert_eq!(sec.target_section, 3);
    assert_eq!(sec.entry_count, 2);
    let entries = sec.entries().unwrap();
    assert_eq!(
        entries,
        vec![
            RelocEntry { ty: RelocEntryType::FunctionIndexLeb, offset: 16, index: 1, addend: None },
            RelocEntry { ty: RelocEntryType::MemoryAddrLeb, offset: 32, index: 2, addend: Some(-4) },
        ]
    );
    let bad = RelocSection { target_section: 0, entry_count: 1, entries: &[11, 0, 0] };
    assert_eq!(bad.entries(), Err(RelocError::UnknownType(11)));
    let mut c = ByteCursor(&data[5..]);
    assert_eq!(
        RelocEntry::parse(&mut c),
        Ok(RelocEntry { ty: RelocEntryType::MemoryAddrLeb, offset: 32, index: 2, addend: Some(-4) })
    );
}
