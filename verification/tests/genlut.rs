use amx::{
    Amx, AmxEmuCtx, AmxOps, ElemWidth, IndexWidth, Lookup, LutError, LutIn, LutMode, LutOperand,
    LutOut, LutTy, XBytes, XRow, YBytes, YRow,
};

fn overlaps(x_start: usize, x_end: usize, y_start: usize, y_end: usize) -> bool {
    x_start < y_end && x_end > y_start
}

struct Rng(u64);

impl Rng {
    fn next(&mut self) -> u64 {
        self.0 = self.0.wrapping_mul(6364136223846793005).wrapping_add(1442695040888963407);
        self.0 >> 33
    }

    fn bytes(&mut self, n: usize) -> Vec<u8> {
        let mut out: Vec<u8> = Vec::new();
        let mut i: usize = 0;
        while i < n {
            out.push(self.next() as u8);
            i += 1;
        }
        out
    }
}

fn load_run(ctx: &mut AmxEmuCtx, in_y: bool, offset: usize, run: &[u8]) {
    // Puts the bytes of `run` at `offset`, wrapping round the end of the
    // bank, and leaves every other byte of the bank as it is.
    let mut bank: [u8; 512] = if in_y { ctx.read_y() } else { ctx.read_x() };
    let mut n: usize = 0;
    while n < run.len() {
        bank[(offset + n) % 512] = run[n];
        n += 1;
    }
    let mut row: usize = 0;
    while row < 8 {
        let mut buf: [u8; 64] = [0u8; 64];
        buf.copy_from_slice(&bank[row * 64..row * 64 + 64]);
        if in_y {
            ctx.load512(&buf, YRow(row));
        } else {
            ctx.load512(&buf, XRow(row));
        }
        row += 1;
    }
}

fn ty(index: IndexWidth, elem: ElemWidth) -> LutTy {
    LutTy::new(LutMode::Normal, index, elem)
}

fn one_case_lut8x16(
    table_row: usize,
    index_offset: usize,
    indices_in_y: bool,
    out_row: usize,
    indices: &[u8],
    values: &[u8],
) -> bool {
    let out_row: usize = out_row % 8;
    let table_row: usize = table_row % 8;
    let index_offset: usize = index_offset % 512;
    if overlaps(index_offset, index_offset + 64, table_row * 64, table_row * 64 + 64)
        || overlaps(
            index_offset,
            index_offset + 64,
            table_row * 64 + 512,
            table_row * 64 + 64 + 512,
        )
    {
        return false;
    }

    let mut got: [u8; 64] = [0u8; 64];
    let mut ctx: AmxEmuCtx = AmxEmuCtx::new();

    // Load `indices` at byte offset `index_offset`
    load_run(&mut ctx, indices_in_y, index_offset, indices);

    // Load `values` at the row `table_row`
    let mut table: [u8; 64] = [0u8; 64];
    table.copy_from_slice(values);
    ctx.load512(&table, XRow(table_row));

    // Perform table lookup
    ctx.lut(
        if indices_in_y {
            LutIn::Y(YBytes(index_offset))
        } else {
            LutIn::X(XBytes(index_offset))
        },
        XRow(table_row),
        LutOut::X(XRow(out_row)),
        ty(IndexWidth::Index4, ElemWidth::X8),
    );

    // Read the result
    ctx.store512(&mut got, XRow(out_row));

    let mut expected: Vec<u8> = Vec::new();
    let mut i: usize = 0;
    while i < 64 {
        let idx: usize = (indices[i / 2] >> (i % 2 * 4)) as usize & 0xf;
        expected.push(values[idx]);
        i += 1;
    }
    assert_eq!(got[..], expected[..], "got = {:?}, expected = {:?}", got, expected);
    true
}

#[test]
fn qc_genlut_lut8x16() {
    let mut rng: Rng = Rng(0x5eed);
    let mut passed: usize = 0;
    let mut tried: usize = 0;
    while tried < 2000 {
        let table_row: usize = rng.next() as usize;
        let index_offset: usize = rng.next() as usize;
        let indices_in_y: bool = rng.next() % 2 == 1;
        let out_row: usize = rng.next() as usize;
        let indices: Vec<u8> = rng.bytes(64);
        let values: Vec<u8> = rng.bytes(64);
        if one_case_lut8x16(table_row, index_offset, indices_in_y, out_row, &indices, &values) {
            passed += 1;
        }
        tried += 1;
    }
    assert!(passed > 1000);
}

#[test]
fn lut8x16_straddling_a_row_boundary() {
    let mut rng: Rng = Rng(7);
    let indices: Vec<u8> = rng.bytes(64);
    let values: Vec<u8> = rng.bytes(64);
    assert!(one_case_lut8x16(5, 50, false, 2, &indices, &values));
    assert!(one_case_lut8x16(5, 63, true, 5, &indices, &values));
    assert!(one_case_lut8x16(0, 64 * 3 - 1, false, 0, &indices, &values));
}

#[test]
fn lut8x16_wrapping_round_the_end_of_the_bank() {
    let mut rng: Rng = Rng(11);
    let indices: Vec<u8> = rng.bytes(64);
    let values: Vec<u8> = rng.bytes(64);
    assert!(one_case_lut8x16(3, 500, false, 7, &indices, &values));
    assert!(one_case_lut8x16(1, 511, true, 1, &indices, &values));
    assert!(one_case_lut8x16(1, 449, false, 0, &indices, &values));
}

#[test]
fn lut8x16_on_known_values() {
    let mut ctx: AmxEmuCtx = AmxEmuCtx::new();
    let mut indices: [u8; 64] = [0u8; 64];
    indices[0] = 0x21;
    indices[1] = 0xf0;
    indices[31] = 0x5a;
    let mut table: [u8; 64] = [0u8; 64];
    let mut i: usize = 0;
    while i < 64 {
        table[i] = 100 + i as u8;
        i += 1;
    }
    ctx.load512(&indices, YRow(0));
    ctx.load512(&table, XRow(1));
    ctx.lut(LutIn::Y(YBytes(0)), XRow(1), LutOut::X(XRow(0)), ty(IndexWidth::Index4, ElemWidth::X8));
    let mut got: [u8; 64] = [0u8; 64];
    ctx.store512(&mut got, XRow(0));
    assert_eq!(&got[..4], &[101, 102, 100, 115][..]);
    assert_eq!(&got[4..62], &[100u8; 58][..]);
    assert_eq!(&got[62..], &[110, 105][..]);
}

fn check_kind(index: IndexWidth, elem: ElemWidth, in_y: bool, to_y: bool, offset: usize) {
    let bits: usize = index.bit_count();
    let width: usize = elem.byte_count();
    let lanes: usize = 64 / width;
    let mut rng: Rng = Rng(offset as u64 * 131 + bits as u64 * 17 + width as u64);
    let mut picks: Vec<usize> = Vec::new();
    let mut l: usize = 0;
    while l < 64 {
        picks.push((rng.next() as usize) % (1 << bits));
        l += 1;
    }
    let mut packed: Vec<u8> = vec![0u8; 8 * bits];
    l = 0;
    while l < 64 {
        packed[l * bits / 8] |= (picks[l] as u8) << (l * bits % 8);
        l += 1;
    }
    let values: Vec<u8> = rng.bytes(64);
    let table_row: usize = 6;
    let out_row: usize = 2;

    let mut ctx: AmxEmuCtx = AmxEmuCtx::new();
    load_run(&mut ctx, in_y, offset, &packed);
    let mut table: [u8; 64] = [0u8; 64];
    table.copy_from_slice(&values);
    ctx.load512(&table, XRow(table_row));
    let x_before: [u8; 512] = ctx.read_x();
    let y_before: [u8; 512] = ctx.read_y();

    let input: LutIn = if in_y { LutIn::Y(YBytes(offset)) } else { LutIn::X(XBytes(offset)) };
    let output: LutOut = if to_y { LutOut::Y(YRow(out_row)) } else { LutOut::X(XRow(out_row)) };
    assert_eq!(ctx.try_lut(input, XRow(table_row), output, ty(index, elem)), Ok(()));

    let mut got: [u8; 64] = [0u8; 64];
    if to_y {
        ctx.store512(&mut got, YRow(out_row));
    } else {
        ctx.store512(&mut got, XRow(out_row));
    }
    l = 0;
    while l < lanes {
        assert_eq!(
            &got[l * width..(l + 1) * width],
            &values[picks[l] * width..(picks[l] + 1) * width]
        );
        l += 1;
    }
    // Nothing but the row of the result has changed.
    let x_after: [u8; 512] = ctx.read_x();
    let y_after: [u8; 512] = ctx.read_y();
    let mut p: usize = 0;
    while p < 512 {
        let in_out_row: bool = p / 64 == out_row;
        if !(in_out_row && !to_y) {
            assert_eq!(x_after[p], x_before[p]);
        }
        if !(in_out_row && to_y) {
            assert_eq!(y_after[p], y_before[p]);
        }
        p += 1;
    }
    assert_eq!(ctx.read_z(), [0u8; 4096]);
}

#[test]
fn every_kind_of_lookup_picks_the_entries() {
    let kinds: [(IndexWidth, ElemWidth); 7] = [
        (IndexWidth::Index2, ElemWidth::X8),
        (IndexWidth::Index2, ElemWidth::X16),
        (IndexWidth::Index2, ElemWidth::X32),
        (IndexWidth::Index2, ElemWidth::X64),
        (IndexWidth::Index4, ElemWidth::X8),
        (IndexWidth::Index4, ElemWidth::X16),
        (IndexWidth::Index4, ElemWidth::X32),
    ];
    let offsets: [usize; 6] = [0, 1, 60, 127, 300, 505];
    let mut k: usize = 0;
    while k < kinds.len() {
        let mut o: usize = 0;
        while o < offsets.len() {
            check_kind(kinds[k].0, kinds[k].1, false, false, offsets[o]);
            check_kind(kinds[k].0, kinds[k].1, true, false, offsets[o]);
            check_kind(kinds[k].0, kinds[k].1, false, true, offsets[o]);
            check_kind(kinds[k].0, kinds[k].1, true, true, offsets[o]);
            o += 1;
        }
        k += 1;
    }
}

#[test]
fn result_may_replace_the_table_or_the_indices() {
    let mut ctx: AmxEmuCtx = AmxEmuCtx::new();
    let mut indices: [u8; 64] = [0u8; 64];
    indices[0] = 0x10;
    let mut table: [u8; 64] = [0u8; 64];
    table[0] = 5;
    table[1] = 6;
    ctx.load512(&indices, XRow(0));
    ctx.load512(&table, XRow(1));
    ctx.lut(LutIn::X(XBytes(0)), XRow(1), LutOut::X(XRow(1)), ty(IndexWidth::Index4, ElemWidth::X8));
    let mut got: [u8; 64] = [0u8; 64];
    ctx.store512(&mut got, XRow(1));
    assert_eq!(&got[..3], &[5, 6, 5][..]);
    ctx.load512(&table, XRow(1));
    ctx.lut(LutIn::X(XBytes(0)), XRow(1), LutOut::X(XRow(0)), ty(IndexWidth::Index4, ElemWidth::X8));
    ctx.store512(&mut got, XRow(0));
    assert_eq!(&got[..3], &[5, 6, 5][..]);
}

#[test]
fn overlap_is_rejected() {
    let mut ctx: AmxEmuCtx = AmxEmuCtx::new();
    ctx.load512(&[1u8; 64], XRow(0));
    ctx.load512(&[2u8; 64], YRow(0));
    let before_x: [u8; 512] = ctx.read_x();
    let before_y: [u8; 512] = ctx.read_y();
    let kind: LutTy = ty(IndexWidth::Index4, ElemWidth::X8);
    let mut table_row: usize = 0;
    while table_row < 8 {
        let mut offset: usize = 0;
        while offset < 512 {
            let bad: bool = overlaps(offset, offset + 32, table_row * 64, table_row * 64 + 64)
                || overlaps(
                    offset,
                    offset + 32,
                    table_row * 64 + 512,
                    table_row * 64 + 64 + 512,
                );
            let d: Lookup = Lookup {
                input: LutIn::X(XBytes(offset)),
                table: XRow(table_row),
                output: LutOut::Y(YRow(3)),
                ty: kind,
            };
            if bad {
                assert_eq!(d.check(), Err(LutError::Overlap));
                assert_eq!(
                    ctx.try_lut(d.input, d.table, d.output, d.ty),
                    Err(LutError::Overlap)
                );
                assert_eq!(
                    ctx.try_lut(LutIn::Y(YBytes(offset)), d.table, d.output, d.ty),
                    Err(LutError::Overlap)
                );
                assert_eq!(ctx.read_x(), before_x);
                assert_eq!(ctx.read_y(), before_y);
            } else {
                assert_eq!(d.check(), Ok(()));
            }
            offset += 1;
        }
        table_row += 1;
    }
}

#[test]
fn overlap_on_known_placements() {
    let kind4: LutTy = ty(IndexWidth::Index4, ElemWidth::X8);
    let kind2: LutTy = ty(IndexWidth::Index2, ElemWidth::X8);
    let at = |offset: usize, table: usize, kind: LutTy| -> Result<(), LutError> {
        Lookup {
            input: LutIn::X(XBytes(offset)),
            table: XRow(table),
            output: LutOut::X(XRow(0)),
            ty: kind,
        }
        .check()
    };
    // 4-bit indices span 32 bytes.
    assert_eq!(at(32, 1, kind4), Ok(()));
    assert_eq!(at(33, 1, kind4), Err(LutError::Overlap));
    assert_eq!(at(127, 1, kind4), Err(LutError::Overlap));
    assert_eq!(at(128, 1, kind4), Ok(()));
    // 2-bit indices span 16 bytes.
    assert_eq!(at(48, 1, kind2), Ok(()));
    assert_eq!(at(49, 1, kind2), Err(LutError::Overlap));
    // A run that wraps round the end of the bank meets row 0.
    assert_eq!(at(480, 0, kind4), Ok(()));
    assert_eq!(at(481, 0, kind4), Err(LutError::Overlap));
    assert_eq!(at(511, 0, kind4), Err(LutError::Overlap));
    assert_eq!(at(511, 1, kind4), Ok(()));
    assert_eq!(at(496, 0, kind2), Ok(()));
    assert_eq!(at(497, 0, kind2), Err(LutError::Overlap));
}

#[test]
fn each_fault_is_reported() {
    let kind: LutTy = ty(IndexWidth::Index4, ElemWidth::X8);
    let mut ctx: AmxEmuCtx = AmxEmuCtx::new();
    assert_eq!(
        ctx.try_lut(LutIn::X(XBytes(512)), XRow(0), LutOut::X(XRow(0)), kind),
        Err(LutError::InputOutOfRange)
    );
    assert_eq!(
        ctx.try_lut(LutIn::Y(YBytes(9999)), XRow(0), LutOut::X(XRow(0)), kind),
        Err(LutError::InputOutOfRange)
    );
    assert_eq!(
        ctx.try_lut(LutIn::X(XBytes(0)), XRow(8), LutOut::X(XRow(0)), kind),
        Err(LutError::TableOutOfRange)
    );
    assert_eq!(
        ctx.try_lut(LutIn::X(XBytes(0)), XRow(1), LutOut::X(XRow(8)), kind),
        Err(LutError::OutputOutOfRange)
    );
    assert_eq!(
        ctx.try_lut(LutIn::X(XBytes(0)), XRow(1), LutOut::Y(YRow(8)), kind),
        Err(LutError::OutputOutOfRange)
    );
    assert_eq!(
        ctx.try_lut(
            LutIn::X(XBytes(0)),
            XRow(1),
            LutOut::X(XRow(0)),
            ty(IndexWidth::Index4, ElemWidth::X64)
        ),
        Err(LutError::Unrepresentable)
    );
    assert_eq!(
        ctx.try_lut(LutIn::X(XBytes(64)), XRow(1), LutOut::X(XRow(0)), kind),
        Err(LutError::Overlap)
    );
    // The first fault found is the one reported.
    assert_eq!(
        ctx.try_lut(LutIn::X(XBytes(512)), XRow(8), LutOut::X(XRow(8)), kind),
        Err(LutError::InputOutOfRange)
    );
    assert_eq!(ctx.read_x(), [0u8; 512]);
    assert_eq!(ctx.read_y(), [0u8; 512]);
}

#[test]
fn lut_operand_word() {
    let d: Lookup = Lookup {
        input: LutIn::X(XBytes(0)),
        table: XRow(1),
        output: LutOut::X(XRow(0)),
        ty: ty(IndexWidth::Index4, ElemWidth::X8),
    };
    assert_eq!(LutOperand::new(&d).0, (11u64 << 53) | (1u64 << 60));
    let d: Lookup = Lookup {
        input: LutIn::Y(YBytes(0x1ab)),
        table: XRow(7),
        output: LutOut::Y(YRow(5)),
        ty: ty(IndexWidth::Index2, ElemWidth::X64),
    };
    assert_eq!(
        LutOperand::new(&d).0,
        0x1ab | (1 << 10) | (5 << 20) | (1 << 25) | (10u64 << 53) | (7u64 << 60)
    );
    let d: Lookup = Lookup {
        input: LutIn::X(XBytes(200)),
        table: XRow(0),
        output: LutOut::Y(YRow(0)),
        ty: ty(IndexWidth::Index4, ElemWidth::X32),
    };
    assert_eq!(LutOperand::new(&d).0, 200 | (1 << 25) | (13u64 << 53));
}

#[test]
fn lut_operand_decodes_to_what_was_packed() {
    let d: Lookup = Lookup {
        input: LutIn::Y(YBytes(77)),
        table: XRow(3),
        output: LutOut::X(XRow(6)),
        ty: ty(IndexWidth::Index2, ElemWidth::X16),
    };
    let w: LutOperand = LutOperand::new(&d);
    assert_eq!(w.decode(), Some(d));
    assert!(w.is_valid());
    assert_eq!(LutOperand(0).decode(), None);
    assert_eq!(LutOperand(6u64 << 53).decode(), None);
    assert_eq!(LutOperand(14u64 << 53).decode(), None);
    assert!(!LutOperand(0).is_valid());
    assert!(!LutOperand(w.0 | (1 << 9)).is_valid());
    assert!(!LutOperand(w.0 | (1 << 63)).is_valid());
    // Indices at offset 0 of X and the table in row 0 overlap.
    assert!(!LutOperand(11u64 << 53).is_valid());
    assert!(LutOperand((11u64 << 53) | (1u64 << 60)).is_valid());
}

#[test]
fn mode_numbers() {
    assert_eq!(ty(IndexWidth::Index2, ElemWidth::X8).mode_bits(), 7);
    assert_eq!(ty(IndexWidth::Index2, ElemWidth::X16).mode_bits(), 8);
    assert_eq!(ty(IndexWidth::Index2, ElemWidth::X32).mode_bits(), 9);
    assert_eq!(ty(IndexWidth::Index2, ElemWidth::X64).mode_bits(), 10);
    assert_eq!(ty(IndexWidth::Index4, ElemWidth::X8).mode_bits(), 11);
    assert_eq!(ty(IndexWidth::Index4, ElemWidth::X16).mode_bits(), 12);
    assert_eq!(ty(IndexWidth::Index4, ElemWidth::X32).mode_bits(), 13);
    assert!(!ty(IndexWidth::Index4, ElemWidth::X64).is_representable());
    assert!(ty(IndexWidth::Index2, ElemWidth::X64).is_representable());
    assert_eq!(LutTy::from_mode_bits(11), Some(ty(IndexWidth::Index4, ElemWidth::X8)));
    assert_eq!(LutTy::from_mode_bits(10), Some(ty(IndexWidth::Index2, ElemWidth::X64)));
    assert_eq!(LutTy::from_mode_bits(6), None);
    assert_eq!(LutTy::from_mode_bits(14), None);
}

#[test]
fn indices_in_a_byte() {
    assert_eq!(IndexWidth::Index4.index_in_byte(0xa5, 0), 5);
    assert_eq!(IndexWidth::Index4.index_in_byte(0xa5, 1), 10);
    assert_eq!(IndexWidth::Index2.index_in_byte(0b11_10_01_00, 0), 0);
    assert_eq!(IndexWidth::Index2.index_in_byte(0b11_10_01_00, 1), 1);
    assert_eq!(IndexWidth::Index2.index_in_byte(0b11_10_01_00, 2), 2);
    assert_eq!(IndexWidth::Index2.index_in_byte(0b11_10_01_00, 3), 3);
}

#[test]
fn primitive_genlut_matches_the_typed_call() {
    let mut rng: Rng = Rng(99);
    let run: Vec<u8> = rng.bytes(32);
    let values: Vec<u8> = rng.bytes(64);
    let mut table: [u8; 64] = [0u8; 64];
    table.copy_from_slice(&values);
    let mut a: AmxEmuCtx = AmxEmuCtx::new();
    let mut b: AmxEmuCtx = AmxEmuCtx::new();
    load_run(&mut a, true, 100, &run);
    load_run(&mut b, true, 100, &run);
    a.load512(&table, XRow(4));
    b.load512(&table, XRow(4));
    a.lut(LutIn::Y(YBytes(100)), XRow(4), LutOut::Y(YRow(7)), ty(IndexWidth::Index4, ElemWidth::X16));
    b.genlut(100 | (1 << 10) | (7 << 20) | (1 << 25) | (12u64 << 53) | (4u64 << 60));
    assert_eq!(a.read_x(), b.read_x());
    assert_eq!(a.read_y(), b.read_y());
}
