use amx::{Amx, AmxEmuCtx, AmxOps, MacOperand, XBytes, XRow, YBytes, YRow, ZRow};

fn to_bytes(lanes: &[i16; 32]) -> [u8; 64] {
    let mut out: [u8; 64] = [0u8; 64];
    let mut i: usize = 0;
    while i < 32 {
        let b: [u8; 2] = lanes[i].to_le_bytes();
        out[2 * i] = b[0];
        out[2 * i + 1] = b[1];
        i += 1;
    }
    out
}

fn lane(z: &[u8; 4096], row: usize, i: usize) -> i16 {
    i16::from_le_bytes([z[row * 64 + 2 * i], z[row * 64 + 2 * i + 1]])
}

fn ramp(start: i16, step: i16) -> [i16; 32] {
    let mut out: [i16; 32] = [0i16; 32];
    let mut i: usize = 0;
    while i < 32 {
        out[i] = start.wrapping_add(step.wrapping_mul(i as i16));
        i += 1;
    }
    out
}

fn loaded(x: &[i16; 32], y: &[i16; 32]) -> AmxEmuCtx {
    let mut ctx: AmxEmuCtx = AmxEmuCtx::new();
    ctx.load512(&to_bytes(x), XRow(0));
    ctx.load512(&to_bytes(y), YRow(0));
    ctx
}

#[test]
fn outer_product_of_two_ramps() {
    let x: [i16; 32] = ramp(1, 1);
    let y: [i16; 32] = ramp(51, 1);
    let mut ctx: AmxEmuCtx = loaded(&x, &y);
    ctx.outer_product_i16_xy_to_z(Some(XBytes(0)), Some(YBytes(0)), ZRow(0), false);
    let z: [u8; 4096] = ctx.read_z();
    let mut j: usize = 0;
    while j < 32 {
        let mut i: usize = 0;
        while i < 32 {
            assert_eq!(lane(&z, 2 * j, i), x[i] * y[j]);
            assert_eq!(lane(&z, 2 * j + 1, i), 0);
            i += 1;
        }
        j += 1;
    }
    assert_eq!(lane(&z, 0, 0), 51);
    assert_eq!(lane(&z, 62, 31), 32 * 82);
}

#[test]
fn outer_product_wraps_modulo_two_to_the_sixteen() {
    let x: [i16; 32] = ramp(-300, 37);
    let y: [i16; 32] = ramp(1000, -211);
    let mut ctx: AmxEmuCtx = loaded(&x, &y);
    ctx.outer_product_i16_xy_to_z(Some(XBytes(0)), Some(YBytes(0)), ZRow(0), false);
    let z: [u8; 4096] = ctx.read_z();
    let mut j: usize = 0;
    while j < 32 {
        let mut i: usize = 0;
        while i < 32 {
            assert_eq!(lane(&z, 2 * j, i), x[i].wrapping_mul(y[j]));
            i += 1;
        }
        j += 1;
    }
    // -300 * 1000 = -300000 = -5 * 65536 + 27680
    assert_eq!(lane(&z, 0, 0), 27680);
}

#[test]
fn odd_z_row_selects_the_odd_rows() {
    let x: [i16; 32] = ramp(2, 3);
    let y: [i16; 32] = ramp(-7, 5);
    let mut ctx: AmxEmuCtx = loaded(&x, &y);
    ctx.outer_product_i16_xy_to_z(Some(XBytes(0)), Some(YBytes(0)), ZRow(1), false);
    let z: [u8; 4096] = ctx.read_z();
    let mut j: usize = 0;
    while j < 32 {
        let mut i: usize = 0;
        while i < 32 {
            assert_eq!(lane(&z, 2 * j + 1, i), x[i].wrapping_mul(y[j]));
            assert_eq!(lane(&z, 2 * j, i), 0);
            i += 1;
        }
        j += 1;
    }
}

#[test]
fn only_the_lowest_bit_of_the_z_row_counts() {
    let x: [i16; 32] = ramp(2, 3);
    let y: [i16; 32] = ramp(-7, 5);
    let mut a: AmxEmuCtx = loaded(&x, &y);
    let mut b: AmxEmuCtx = loaded(&x, &y);
    let mut c: AmxEmuCtx = loaded(&x, &y);
    a.outer_product_i16_xy_to_z(Some(XBytes(0)), Some(YBytes(0)), ZRow(0), false);
    b.outer_product_i16_xy_to_z(Some(XBytes(0)), Some(YBytes(0)), ZRow(62), false);
    c.outer_product_i16_xy_to_z(Some(XBytes(0)), Some(YBytes(0)), ZRow(63), false);
    assert_eq!(a.read_z(), b.read_z());
    assert_ne!(a.read_z(), c.read_z());
}

#[test]
fn accumulate_doubles_and_overwrite_repeats() {
    let x: [i16; 32] = ramp(1, 2);
    let y: [i16; 32] = ramp(-40, 3);
    let mut once: AmxEmuCtx = loaded(&x, &y);
    once.outer_product_i16_xy_to_z(Some(XBytes(0)), Some(YBytes(0)), ZRow(0), false);
    let single: [u8; 4096] = once.read_z();

    let mut added: AmxEmuCtx = loaded(&x, &y);
    added.outer_product_i16_xy_to_z(Some(XBytes(0)), Some(YBytes(0)), ZRow(0), false);
    added.outer_product_i16_xy_to_z(Some(XBytes(0)), Some(YBytes(0)), ZRow(0), true);
    let doubled: [u8; 4096] = added.read_z();

    let mut again: AmxEmuCtx = loaded(&x, &y);
    again.outer_product_i16_xy_to_z(Some(XBytes(0)), Some(YBytes(0)), ZRow(0), false);
    again.outer_product_i16_xy_to_z(Some(XBytes(0)), Some(YBytes(0)), ZRow(0), false);
    assert_eq!(again.read_z(), single);

    let mut j: usize = 0;
    while j < 32 {
        let mut i: usize = 0;
        while i < 32 {
            assert_eq!(lane(&doubled, 2 * j, i), lane(&single, 2 * j, i).wrapping_mul(2));
            assert_eq!(lane(&doubled, 2 * j, i), x[i].wrapping_mul(y[j]).wrapping_mul(2));
            i += 1;
        }
        j += 1;
    }
    assert_eq!(lane(&single, 0, 0), -40);
    assert_eq!(lane(&doubled, 0, 0), -80);
}

#[test]
fn accumulate_adds_to_what_z_held() {
    let x: [i16; 32] = ramp(1, 1);
    let y: [i16; 32] = ramp(1, 1);
    let mut ctx: AmxEmuCtx = loaded(&x, &y);
    ctx.load512(&to_bytes(&ramp(1000, 1)), ZRow(4));
    ctx.outer_product_i16_xy_to_z(Some(XBytes(0)), Some(YBytes(0)), ZRow(0), true);
    let z: [u8; 4096] = ctx.read_z();
    assert_eq!(lane(&z, 4, 0), 1000 + 3);
    assert_eq!(lane(&z, 4, 31), 1031 + 32 * 3);
    assert_eq!(lane(&z, 6, 5), 6 * 4);
}

#[test]
fn excluding_y_broadcasts_x() {
    let x: [i16; 32] = ramp(10, 1);
    let y: [i16; 32] = ramp(500, 9);
    let mut ctx: AmxEmuCtx = loaded(&x, &y);
    ctx.outer_product_i16_xy_to_z(Some(XBytes(0)), None, ZRow(0), false);
    let z: [u8; 4096] = ctx.read_z();
    let mut j: usize = 0;
    while j < 32 {
        let mut i: usize = 0;
        while i < 32 {
            assert_eq!(lane(&z, 2 * j, i), 10 + i as i16);
            assert_eq!(lane(&z, 2 * j + 1, i), 0);
            i += 1;
        }
        j += 1;
    }
    assert_eq!(&z[..8], &[10, 0, 11, 0, 12, 0, 13, 0][..]);
    ctx.outer_product_i16_xy_to_z(Some(XBytes(0)), None, ZRow(0), true);
    let z2: [u8; 4096] = ctx.read_z();
    assert_eq!(&z2[..8], &[20, 0, 22, 0, 24, 0, 26, 0][..]);
}

#[test]
fn excluding_x_broadcasts_y() {
    let x: [i16; 32] = ramp(10, 1);
    let y: [i16; 32] = ramp(500, 9);
    let mut ctx: AmxEmuCtx = loaded(&x, &y);
    ctx.outer_product_i16_xy_to_z(None, Some(YBytes(0)), ZRow(0), false);
    let z: [u8; 4096] = ctx.read_z();
    let mut j: usize = 0;
    while j < 32 {
        let mut i: usize = 0;
        while i < 32 {
            assert_eq!(lane(&z, 2 * j, i), 500 + 9 * j as i16);
            i += 1;
        }
        j += 1;
    }
}

#[test]
fn excluding_both_adds_nothing_or_clears() {
    let x: [i16; 32] = ramp(10, 1);
    let y: [i16; 32] = ramp(500, 9);
    let mut ctx: AmxEmuCtx = loaded(&x, &y);
    ctx.load512(&to_bytes(&ramp(7, 7)), ZRow(2));
    ctx.load512(&to_bytes(&ramp(9, 9)), ZRow(3));
    let before: [u8; 4096] = ctx.read_z();
    ctx.outer_product_i16_xy_to_z(None, None, ZRow(0), true);
    assert_eq!(ctx.read_z(), before);
    ctx.outer_product_i16_xy_to_z(None, None, ZRow(0), false);
    let z: [u8; 4096] = ctx.read_z();
    assert_eq!(&z[2 * 64..3 * 64], &[0u8; 64][..]);
    assert_eq!(&z[3 * 64..4 * 64], &before[3 * 64..4 * 64]);
}

#[test]
fn outer_product_leaves_x_and_y_alone() {
    let x: [i16; 32] = ramp(10, 1);
    let y: [i16; 32] = ramp(500, 9);
    let mut ctx: AmxEmuCtx = loaded(&x, &y);
    let bx: [u8; 512] = ctx.read_x();
    let by: [u8; 512] = ctx.read_y();
    ctx.outer_product_i16_xy_to_z(Some(XBytes(0)), Some(YBytes(0)), ZRow(0), true);
    assert_eq!(ctx.read_x(), bx);
    assert_eq!(ctx.read_y(), by);
}

#[test]
fn offsets_select_the_vectors() {
    let mut ctx: AmxEmuCtx = AmxEmuCtx::new();
    ctx.load512(&to_bytes(&ramp(1, 1)), XRow(3));
    ctx.load512(&to_bytes(&ramp(100, 1)), YRow(5));
    ctx.outer_product_i16_xy_to_z(Some(XBytes(192 + 4)), Some(YBytes(320 + 2)), ZRow(0), false);
    let z: [u8; 4096] = ctx.read_z();
    // Lane 0 of the vector of X is lane 2 of row 3, lane 0 of the vector of
    // Y is lane 1 of row 5.
    assert_eq!(lane(&z, 0, 0), 3 * 101);
    assert_eq!(lane(&z, 2, 1), 4 * 102);
    // Lanes 30 and 31 of the vector of X lie in row 4, which is zero.
    assert_eq!(lane(&z, 0, 29), 32 * 101);
    assert_eq!(lane(&z, 0, 30), 0);
    assert_eq!(lane(&z, 0, 31), 0);
}

#[test]
fn vectors_wrap_round_the_end_of_the_bank() {
    let mut ctx: AmxEmuCtx = AmxEmuCtx::new();
    ctx.load512(&to_bytes(&ramp(1, 1)), XRow(7));
    ctx.load512(&to_bytes(&ramp(1000, 1)), XRow(0));
    ctx.load512(&to_bytes(&ramp(2, 0)), YRow(0));
    ctx.outer_product_i16_xy_to_z(Some(XBytes(448 + 62)), Some(YBytes(0)), ZRow(0), false);
    let z: [u8; 4096] = ctx.read_z();
    assert_eq!(lane(&z, 0, 0), 32 * 2);
    assert_eq!(lane(&z, 0, 1), 1000 * 2);
    assert_eq!(lane(&z, 0, 31), 1030 * 2);
    // An odd offset reads lanes that straddle the lanes loaded.
    ctx.outer_product_i16_xy_to_z(Some(XBytes(511)), Some(YBytes(0)), ZRow(1), false);
    let z2: [u8; 4096] = ctx.read_z();
    // Byte 511 of X is the high byte of 32, which is 0; byte 0 is the low
    // byte of 1000, which is 232: the lane reads 232 * 256.
    assert_eq!(lane(&z2, 1, 0), ((232u16 * 256) as i16).wrapping_mul(2));
}

#[test]
fn mac_operand_word() {
    let w: MacOperand = MacOperand::new(Some(XBytes(0)), Some(YBytes(0)), ZRow(0), false);
    assert_eq!(w.0, 1 << 27);
    let w: MacOperand = MacOperand::new(Some(XBytes(0)), Some(YBytes(0)), ZRow(0), true);
    assert_eq!(w.0, 0);
    let w: MacOperand = MacOperand::new(Some(XBytes(0x155)), Some(YBytes(0x0aa)), ZRow(33), true);
    assert_eq!(w.0, 0x0aa | (0x155 << 10) | (33 << 20));
    let w: MacOperand = MacOperand::new(None, Some(YBytes(511)), ZRow(63), false);
    assert_eq!(w.0, 511 | (63 << 20) | (1 << 27) | (1 << 28));
    let w: MacOperand = MacOperand::new(Some(XBytes(511)), None, ZRow(1), true);
    assert_eq!(w.0, (511 << 10) | (1 << 20) | (1 << 29));
    let w: MacOperand = MacOperand::new(None, None, ZRow(0), false);
    assert_eq!(w.0, (1 << 27) | (1 << 28) | (1 << 29));
}

#[test]
fn mac_operand_fields() {
    let w: MacOperand = MacOperand::new(Some(XBytes(300)), Some(YBytes(17)), ZRow(42), false);
    assert_eq!(w.x_offset(), 300);
    assert_eq!(w.y_offset(), 17);
    assert_eq!(w.z_row(), 42);
    assert!(w.overwrite());
    assert!(!w.skip_x());
    assert!(!w.skip_y());
    assert!(w.is_valid());
    let w: MacOperand = MacOperand::new(None, None, ZRow(0), true);
    assert_eq!(w.x_offset(), 0);
    assert_eq!(w.y_offset(), 0);
    assert!(!w.overwrite());
    assert!(w.skip_x());
    assert!(w.skip_y());
    assert!(!MacOperand(1 << 9).is_valid());
    assert!(!MacOperand(1 << 19).is_valid());
    assert!(!MacOperand(1 << 26).is_valid());
    assert!(!MacOperand(1 << 30).is_valid());
    assert!(!MacOperand(1 << 63).is_valid());
    assert!(MacOperand(0x3bf7_fdff).is_valid());
}

#[test]
fn primitive_mac16_matches_the_typed_call() {
    let x: [i16; 32] = ramp(3, 5);
    let y: [i16; 32] = ramp(-2, 7);
    let mut a: AmxEmuCtx = loaded(&x, &y);
    let mut b: AmxEmuCtx = loaded(&x, &y);
    a.outer_product_i16_xy_to_z(Some(XBytes(6)), Some(YBytes(10)), ZRow(1), false);
    b.mac16(10 | (6 << 10) | (1 << 20) | (1 << 27));
    assert_eq!(a.read_z(), b.read_z());
}

fn floats_to_bytes(lanes: &[f32; 16]) -> [u8; 64] {
    let mut out: [u8; 64] = [0u8; 64];
    let mut i: usize = 0;
    while i < 16 {
        out[4 * i..4 * i + 4].copy_from_slice(&lanes[i].to_le_bytes());
        i += 1;
    }
    out
}

#[test]
fn fma32_lanes_are_the_lanes_of_the_vectors_and_of_every_fourth_row() {
    let mut ctx: AmxEmuCtx = AmxEmuCtx::new();
    let mut x: [f32; 16] = [0.0; 16];
    let mut y: [f32; 16] = [0.0; 16];
    let mut i: usize = 0;
    while i < 16 {
        x[i] = 1.5 + i as f32;
        y[i] = -2.25 * (i as f32 + 1.0);
        i += 1;
    }
    ctx.load512(&floats_to_bytes(&x), XRow(2));
    ctx.load512(&floats_to_bytes(&y), YRow(7));
    ctx.load512(&floats_to_bytes(&x), ZRow(4 * 3 + 1));
    ctx.load512(&floats_to_bytes(&y), ZRow(4 * 3 + 2));
    let op: MacOperand = MacOperand::new(Some(XBytes(128)), Some(YBytes(448)), ZRow(1), true);
    let lanes: amx::Fma32Lanes = ctx.fma32_lanes(op.0);
    i = 0;
    while i < 16 {
        assert_eq!(lanes.x[i], x[i].to_bits());
        assert_eq!(lanes.y[i], y[i].to_bits());
        assert_eq!(lanes.z[16 * 3 + i], x[i].to_bits());
        assert_eq!(lanes.z[16 * 2 + i], 0);
        i += 1;
    }
    // A vector that starts 8 bytes before the end of Y wraps round to row 0.
    ctx.load512(&floats_to_bytes(&x), YRow(0));
    let op: MacOperand = MacOperand::new(Some(XBytes(128)), Some(YBytes(504)), ZRow(2), true);
    let lanes: amx::Fma32Lanes = ctx.fma32_lanes(op.0);
    assert_eq!(lanes.y[0], y[14].to_bits());
    assert_eq!(lanes.y[1], y[15].to_bits());
    assert_eq!(lanes.y[2], x[0].to_bits());
    assert_eq!(lanes.y[15], x[13].to_bits());
    assert_eq!(lanes.z[16 * 3], y[0].to_bits());
    assert_eq!(lanes.x[0], 1.5f32.to_bits());
    assert_eq!(lanes.x[0], 0x3fc0_0000);
}

#[test]
fn fma32_store_writes_every_fourth_row() {
    let mut ctx: AmxEmuCtx = AmxEmuCtx::new();
    ctx.load512(&[0xeeu8; 64], ZRow(0));
    ctx.load512(&[0xeeu8; 64], ZRow(3));
    let mut lanes: [u32; 256] = [0u32; 256];
    let mut n: usize = 0;
    while n < 256 {
        lanes[n] = 0x0102_0304u32.wrapping_mul(n as u32 + 1);
        n += 1;
    }
    let op: MacOperand = MacOperand::new(None, None, ZRow(7), false);
    ctx.fma32_store(op.0, &lanes);
    let z: [u8; 4096] = ctx.read_z();
    let mut row: usize = 0;
    while row < 64 {
        let mut i: usize = 0;
        while i < 16 {
            let at: usize = row * 64 + 4 * i;
            let got: u32 = u32::from_le_bytes([z[at], z[at + 1], z[at + 2], z[at + 3]]);
            if row % 4 == 3 {
                assert_eq!(got, lanes[16 * (row / 4) + i]);
            } else if row == 0 {
                assert_eq!(got, 0xeeee_eeee);
            } else {
                assert_eq!(got, 0);
            }
            i += 1;
        }
        row += 1;
    }
    assert_eq!(&z[3 * 64..3 * 64 + 8], &[4, 3, 2, 1, 8, 6, 4, 2][..]);
    assert_eq!(ctx.fma32_lanes(op.0).z, lanes);
    assert_eq!(ctx.read_x(), [0u8; 512]);
    assert_eq!(ctx.read_y(), [0u8; 512]);
}

#[test]
fn outer_product_of_floats_through_the_two_ends() {
    let mut ctx: AmxEmuCtx = AmxEmuCtx::new();
    let mut x: [f32; 16] = [0.0; 16];
    let mut y: [f32; 16] = [0.0; 16];
    let mut i: usize = 0;
    while i < 16 {
        x[i] = 1.0 + i as f32;
        y[i] = 0.5 * (i as f32) - 3.0;
        i += 1;
    }
    ctx.load512(&floats_to_bytes(&x), XRow(0));
    ctx.load512(&floats_to_bytes(&y), YRow(0));
    let op: MacOperand = MacOperand::new(Some(XBytes(0)), Some(YBytes(0)), ZRow(0), false);
    let lanes: amx::Fma32Lanes = ctx.fma32_lanes(op.0);
    let mut out: [u32; 256] = [0u32; 256];
    let mut j: usize = 0;
    while j < 16 {
        i = 0;
        while i < 16 {
            out[16 * j + i] =
                (f32::from_bits(lanes.x[i]) * f32::from_bits(lanes.y[j])).to_bits();
            i += 1;
        }
        j += 1;
    }
    ctx.fma32_store(op.0, &out);
    let z: [u8; 4096] = ctx.read_z();
    j = 0;
    while j < 16 {
        i = 0;
        while i < 16 {
            let at: usize = 4 * j * 64 + 4 * i;
            let got: f32 = f32::from_le_bytes([z[at], z[at + 1], z[at + 2], z[at + 3]]);
            assert_eq!(got, x[i] * y[j]);
            i += 1;
        }
        j += 1;
    }
}
