//! The outer product of a vector of X with a vector of Y, added into Z.
//!
//! The 16-bit multiply-accumulate instruction reads 32 lanes of 16 bits from
//! X and 32 from Y, each vector starting at a byte offset of its own and
//! wrapping round the end of its bank. Lane `j` of Y feeds one row of Z, and
//! the rows so fed are every second row of Z: the even rows or the odd rows,
//! by the lowest bit of the row that the operand names. In the row fed by
//! lane `j` of Y, lane `i` receives the product of lane `i` of X and lane `j`
//! of Y, either added to what the lane held or in its place. All arithmetic
//! is modulo 2^16, which is the same for signed and unsigned lanes.
//!
//! The 32-bit instruction takes the same operand word and works on 16 lanes
//! of 32 bits, which are floating-point numbers. Lane `j` of Y then feeds
//! every fourth row of Z. Of that instruction this module gives the lanes
//! that it reads and the rows that it writes; the arithmetic on the lanes is
//! not done here.

use vstd::prelude::*;
use vstd::arithmetic::div_mod::{
    lemma_add_mod_noop, lemma_mod_multiples_vanish, lemma_mod_twice, lemma_mul_mod_noop_general,
};
use crate::regs::{XBytes, YBytes, ZRow};
use crate::state::{
    buf_lane16, byte_of_word32, lane16, lane32, signed16, word16, z_lane16, z_lane32, RegFile,
};

verus! {

/// What the operand word of a multiply-accumulate instruction says.
pub struct MacFields {
    /// The byte offset in X at which the vector of X starts.
    pub x_offset: int,
    /// X takes no part: nothing is multiplied, and the lane of Y is added
    /// as it is.
    pub skip_x: bool,
    /// The byte offset in Y at which the vector of Y starts.
    pub y_offset: int,
    /// Y takes no part: nothing is multiplied, and the lane of X is added
    /// as it is.
    pub skip_y: bool,
    /// The row of Z named by the operand. Only its lowest bit counts.
    pub z_row: int,
    /// The result replaces what the lanes of Z held instead of being added
    /// to it.
    pub overwrite: bool,
}

/// The operand word of a multiply-accumulate instruction.
///
/// Bits 0 to 8 hold the byte offset into Y, bits 10 to 18 the byte offset
/// into X, bits 20 to 25 the row of Z. Bit 27 is set when the result is to
/// replace the lanes of Z, bit 28 when X takes no part, bit 29 when Y takes
/// no part. Every other bit is zero.
#[derive(Clone, Copy, Debug, PartialEq, Eq)]
pub struct MacOperand(pub u64);

impl MacOperand {
    /// The byte offset into Y.
    pub open spec fn y_offset_field(self) -> int {
        (self.0 & 0x1ff) as int
    }

    /// The byte offset into X.
    pub open spec fn x_offset_field(self) -> int {
        ((self.0 >> 10) & 0x1ff) as int
    }

    /// The row of Z.
    pub open spec fn z_row_field(self) -> int {
        ((self.0 >> 20) & 0x3f) as int
    }

    /// The flag that makes the result replace the lanes of Z.
    pub open spec fn overwrite_field(self) -> bool {
        (self.0 >> 27) & 1 == 1
    }

    /// The flag that leaves X out.
    pub open spec fn skip_x_field(self) -> bool {
        (self.0 >> 28) & 1 == 1
    }

    /// The flag that leaves Y out.
    pub open spec fn skip_y_field(self) -> bool {
        (self.0 >> 29) & 1 == 1
    }

    /// No bit outside the fields is set.
    pub open spec fn valid(self) -> bool {
        self.0 & 0xffff_ffff_c408_0200 == 0
    }

    /// All that the word says.
    pub open spec fn fields(self) -> MacFields {
        MacFields {
            x_offset: self.x_offset_field(),
            skip_x: self.skip_x_field(),
            y_offset: self.y_offset_field(),
            skip_y: self.skip_y_field(),
            z_row: self.z_row_field(),
            overwrite: self.overwrite_field(),
        }
    }

    /// The word that says `f`, as a number.
    pub open spec fn word_of(f: MacFields) -> int {
        f.y_offset + f.x_offset * 0x400 + f.z_row * 0x10_0000 + (if f.overwrite {
            0x800_0000int
        } else {
            0
        }) + (if f.skip_x {
            0x1000_0000int
        } else {
            0
        }) + (if f.skip_y {
            0x2000_0000int
        } else {
            0
        })
    }

    /// Packs the operand word of an outer product.
    ///
    /// An offset that is `None` leaves that bank out and puts zero in its
    /// offset field. The row of Z is cut to the six bits of its field. The
    /// flag in bit 27 is the opposite of `accumulate`.
    pub fn new(
        x_offset_bytes: Option<XBytes>,
        y_offset_bytes: Option<YBytes>,
        z_index: ZRow,
        accumulate: bool,
    ) -> (op: MacOperand)
        requires
            x_offset_bytes matches Some(x) ==> x.in_range(),
            y_offset_bytes matches Some(y) ==> y.in_range(),
            z_index.in_range(),
        ensures
            op.valid(),
            op.fields() == outer_product_fields(
                x_offset_bytes,
                y_offset_bytes,
                z_index,
                accumulate,
            ),
            op.0 == MacOperand::word_of(op.fields()),
    {
        let x: u64 = match x_offset_bytes {
            Some(offset) => offset.0 as u64,
            None => 0,
        };
        let y: u64 = match y_offset_bytes {
            Some(offset) => offset.0 as u64,
            None => 0,
        };
        let z: u64 = (z_index.0 as u64) & 0x3f;
        let n: u64 = if accumulate {
            0
        } else {
            1
        };
        let sx: u64 = if x_offset_bytes.is_none() {
            1
        } else {
            0
        };
        let sy: u64 = if y_offset_bytes.is_none() {
            1
        } else {
            0
        };
        proof {
            let zi: u64 = z_index.0 as u64;
            assert(zi & 0x3f == zi) by (bit_vector)
                requires
                    zi < 64,
            ;
            lemma_mac_word(x, y, z, n, sx, sy);
        }
        MacOperand(y | (x << 10) | (z << 20) | (n << 27) | (sx << 28) | (sy << 29))
    }

    /// The byte offset into Y.
    pub fn y_offset(&self) -> (offset: usize)
        ensures
            offset == self.y_offset_field(),
            offset < 512,
    {
        proof {
            lemma_mac_field_bounds(self.0);
        }
        (self.0 & 0x1ff) as usize
    }

    /// The byte offset into X.
    pub fn x_offset(&self) -> (offset: usize)
        ensures
            offset == self.x_offset_field(),
            offset < 512,
    {
        proof {
            lemma_mac_field_bounds(self.0);
        }
        ((self.0 >> 10) & 0x1ff) as usize
    }

    /// The row of Z.
    pub fn z_row(&self) -> (row: usize)
        ensures
            row == self.z_row_field(),
            row < 64,
    {
        proof {
            lemma_mac_field_bounds(self.0);
        }
        ((self.0 >> 20) & 0x3f) as usize
    }

    /// Whether the result replaces the lanes of Z.
    pub fn overwrite(&self) -> (flag: bool)
        ensures
            flag == self.overwrite_field(),
    {
        (self.0 >> 27) & 1 == 1
    }

    /// Whether X is left out.
    pub fn skip_x(&self) -> (flag: bool)
        ensures
            flag == self.skip_x_field(),
    {
        (self.0 >> 28) & 1 == 1
    }

    /// Whether Y is left out.
    pub fn skip_y(&self) -> (flag: bool)
        ensures
            flag == self.skip_y_field(),
    {
        (self.0 >> 29) & 1 == 1
    }

    /// Whether no bit outside the fields is set.
    pub fn is_valid(&self) -> (ok: bool)
        ensures
            ok == self.valid(),
    {
        self.0 & 0xffff_ffff_c408_0200 == 0
    }
}

proof fn lemma_mac_word(x: u64, y: u64, z: u64, n: u64, sx: u64, sy: u64)
    by (bit_vector)
    requires
        x < 512,
        y < 512,
        z < 64,
        n < 2,
        sx < 2,
        sy < 2,
    ensures
        ({
            let w = y | (x << 10) | (z << 20) | (n << 27) | (sx << 28) | (sy << 29);
            &&& w & 0x1ff == y
            &&& (w >> 10) & 0x1ff == x
            &&& (w >> 20) & 0x3f == z
            &&& (w >> 27) & 1 == n
            &&& (w >> 28) & 1 == sx
            &&& (w >> 29) & 1 == sy
            &&& w & 0xffff_ffff_c408_0200 == 0
            &&& w == y + x * 0x400 + z * 0x10_0000 + n * 0x800_0000 + sx * 0x1000_0000 + sy
                * 0x2000_0000
        }),
{
}

/// A word with no bit outside the fields is the word that packing its
/// fields gives: to unpack and pack again changes nothing.
pub proof fn lemma_mac_word_is_its_fields(op: MacOperand)
    requires
        op.valid(),
    ensures
        op.0 == MacOperand::word_of(op.fields()),
{
    let w = op.0;
    assert(w & 0xffff_ffff_c408_0200 == 0 ==> w == (w & 0x1ff) + ((w >> 10) & 0x1ff) * 0x400 + ((w
        >> 20) & 0x3f) * 0x10_0000 + ((w >> 27) & 1) * 0x800_0000 + ((w >> 28) & 1) * 0x1000_0000
        + ((w >> 29) & 1) * 0x2000_0000 && ((w >> 27) & 1) < 2 && ((w >> 28) & 1) < 2 && ((w >> 29)
        & 1) < 2) by (bit_vector);
}

proof fn lemma_mac_field_bounds(w: u64)
    by (bit_vector)
    ensures
        w & 0x1ff < 512,
        (w >> 10) & 0x1ff < 512,
        (w >> 20) & 0x3f < 64,
{
}

/// What an outer product with these arguments asks of the instruction.
pub open spec fn outer_product_fields(
    x_offset_bytes: Option<XBytes>,
    y_offset_bytes: Option<YBytes>,
    z_index: ZRow,
    accumulate: bool,
) -> MacFields {
    MacFields {
        x_offset: match x_offset_bytes {
            Some(offset) => offset.0 as int,
            None => 0,
        },
        skip_x: x_offset_bytes is None,
        y_offset: match y_offset_bytes {
            Some(offset) => offset.0 as int,
            None => 0,
        },
        skip_y: y_offset_bytes is None,
        z_row: z_index.0 as int,
        overwrite: !accumulate,
    }
}

/// What a step contributes to lane `i` of the row of Z fed by lane `j` of Y:
/// the product of the two lanes, or the one lane that takes part, or
/// nothing.
pub open spec fn mac16_term(regs: RegFile, f: MacFields, i: int, j: int) -> int {
    let xv = lane16(regs.x, f.x_offset, i);
    let yv = lane16(regs.y, f.y_offset, j);
    if f.skip_x && f.skip_y {
        0
    } else if f.skip_x {
        yv
    } else if f.skip_y {
        xv
    } else {
        xv * yv
    }
}

/// Row `row` of Z is one of the rows that a step with `f` writes.
pub open spec fn mac16_writes_row(f: MacFields, row: int) -> bool {
    row % 2 == f.z_row % 2
}

/// The 16-bit pattern in lane `i` of row `row` of Z after a step, for a row
/// that the step writes.
pub open spec fn mac16_lane(regs: RegFile, f: MacFields, row: int, i: int) -> int {
    let before = if f.overwrite {
        0
    } else {
        z_lane16(regs.z, row, i)
    };
    (before + mac16_term(regs, f, i, row / 2)) % 0x1_0000
}

/// Byte `p` of Z after a step.
pub open spec fn mac16_z_byte(regs: RegFile, f: MacFields, p: int) -> u8 {
    let row = p / 64;
    let col = p % 64;
    if mac16_writes_row(f, row) {
        let v = mac16_lane(regs, f, row, col / 2);
        if col % 2 == 0 {
            (v % 256) as u8
        } else {
            (v / 256) as u8
        }
    } else {
        regs.z[p]
    }
}

/// The register file after one 16-bit multiply-accumulate step.
pub open spec fn mac16_step(regs: RegFile, f: MacFields) -> RegFile {
    RegFile { z: Seq::new(4096, |p: int| mac16_z_byte(regs, f, p)), ..regs }
}

/// The register file after an outer product with these arguments.
pub open spec fn outer_product_i16(
    regs: RegFile,
    x_offset_bytes: Option<XBytes>,
    y_offset_bytes: Option<YBytes>,
    z_index: ZRow,
    accumulate: bool,
) -> RegFile {
    mac16_step(regs, outer_product_fields(x_offset_bytes, y_offset_bytes, z_index, accumulate))
}

/// The row of Z that lane `j` of Y feeds in a 32-bit step: every fourth row,
/// by the two lowest bits of the row that the operand names.
pub open spec fn fma32_row(f: MacFields, j: int) -> int {
    4 * j + f.z_row % 4
}

/// The lanes that a 32-bit step works on, as bit patterns: the 16 lanes of
/// the vector of X, the 16 lanes of the vector of Y, and the 16 lanes of
/// each of the 16 rows of Z that the step writes, row after row.
pub struct Fma32Lanes {
    pub x: [u32; 16],
    pub y: [u32; 16],
    pub z: [u32; 256],
}

impl Fma32Lanes {
    /// These are the lanes that a step with `f` works on in `regs`.
    pub open spec fn read_from(self, regs: RegFile, f: MacFields) -> bool {
        &&& forall|i: int| 0 <= i < 16 ==> #[trigger] self.x@[i] == lane32(regs.x, f.x_offset, i)
        &&& forall|j: int| 0 <= j < 16 ==> #[trigger] self.y@[j] == lane32(regs.y, f.y_offset, j)
        &&& forall|j: int, i: int|
            0 <= j < 16 && 0 <= i < 16 ==> #[trigger] self.z@[16 * j + i] == #[trigger] z_lane32(
                regs.z,
                fma32_row(f, j),
                i,
            )
    }
}

/// Byte `p` of Z after the rows that a 32-bit step with `f` writes have
/// received the lanes `lanes`, 16 for each row, row after row.
pub open spec fn fma32_z_byte(regs: RegFile, f: MacFields, lanes: Seq<u32>, p: int) -> u8 {
    let row = p / 64;
    let col = p % 64;
    if row % 4 == f.z_row % 4 {
        byte_of_word32(lanes[16 * (row / 4) + col / 4] as int, col % 4) as u8
    } else {
        regs.z[p]
    }
}

/// The register file after the rows that a 32-bit step with `f` writes have
/// received the lanes `lanes`.
pub open spec fn fma32_put(regs: RegFile, f: MacFields, lanes: Seq<u32>) -> RegFile {
    RegFile { z: Seq::new(4096, |p: int| fma32_z_byte(regs, f, lanes, p)), ..regs }
}

/// The lanes put into the rows of a 32-bit step are the lanes that are then
/// read from them.
pub proof fn lemma_fma32_lanes_round_trip(
    regs: RegFile,
    f: MacFields,
    lanes: Seq<u32>,
    j: int,
    i: int,
)
    requires
        regs.wf(),
        lanes.len() == 256,
        0 <= j < 16,
        0 <= i < 16,
    ensures
        fma32_put(regs, f, lanes).wf(),
        z_lane32(fma32_put(regs, f, lanes).z, fma32_row(f, j), i) == lanes[16 * j + i],
{
    let after = fma32_put(regs, f, lanes).z;
    let row = fma32_row(f, j);
    let p = row * 64 + 4 * i;
    let v = lanes[16 * j + i] as int;
    assert(row / 4 == j && row % 4 == f.z_row % 4);
    assert(p / 64 == row && p % 64 == 4 * i);
    assert((p + 1) / 64 == row && (p + 1) % 64 == 4 * i + 1);
    assert((p + 2) / 64 == row && (p + 2) % 64 == 4 * i + 2);
    assert((p + 3) / 64 == row && (p + 3) % 64 == 4 * i + 3);
    assert(after[p] == byte_of_word32(v, 0) as u8);
    assert(after[p + 1] == byte_of_word32(v, 1) as u8);
    assert(after[p + 2] == byte_of_word32(v, 2) as u8);
    assert(after[p + 3] == byte_of_word32(v, 3) as u8);
}

/// After a step, a lane of a row that the step writes holds the pattern
/// that `mac16_lane` gives, and every byte of the other rows, and all of X
/// and Y, is as before.
pub proof fn lemma_mac16_step_lanes(regs: RegFile, f: MacFields, row: int, i: int)
    requires
        regs.wf(),
        0 <= row < 64,
        0 <= i < 32,
    ensures
        mac16_step(regs, f).x == regs.x,
        mac16_step(regs, f).y == regs.y,
        mac16_step(regs, f).z.len() == 4096,
        mac16_writes_row(f, row) ==> z_lane16(mac16_step(regs, f).z, row, i) == mac16_lane(
            regs,
            f,
            row,
            i,
        ),
        !mac16_writes_row(f, row) ==> mac16_step(regs, f).z.subrange(row * 64, row * 64 + 64)
            == regs.z.subrange(row * 64, row * 64 + 64),
{
    let after = mac16_step(regs, f).z;
    let p = row * 64 + 2 * i;
    assert(p / 64 == row && p % 64 == 2 * i);
    assert((p + 1) / 64 == row && (p + 1) % 64 == 2 * i + 1);
    if mac16_writes_row(f, row) {
        let v = mac16_lane(regs, f, row, i);
        assert(0 <= v < 0x1_0000);
        assert(after[p] == (v % 256) as u8);
        assert(after[p + 1] == (v / 256) as u8);
        assert(word16(after[p], after[p + 1]) == v);
    } else {
        assert forall|q: int| row * 64 <= q < row * 64 + 64 implies after[q] == regs.z[q] by {
            assert(q / 64 == row);
        }
        assert(after.subrange(row * 64, row * 64 + 64) =~= regs.z.subrange(
            row * 64,
            row * 64 + 64,
        ));
    }
}

/// The product of two 16-bit patterns modulo 2^16 is the pattern of the
/// product of their signed readings, and is that product itself where it
/// fits in 16 bits.
pub proof fn lemma_product_of_signed_lanes(a: int, b: int)
    requires
        0 <= a < 0x1_0000,
        0 <= b < 0x1_0000,
    ensures
        (a * b) % 0x1_0000 == (signed16(a) * signed16(b)) % 0x1_0000,
        -0x8000 <= signed16(a) * signed16(b) < 0x8000 ==> signed16((a * b) % 0x1_0000)
            == signed16(a) * signed16(b),
{
    let sa = signed16(a);
    let sb = signed16(b);
    let ka: int = if a < 0x8000 {
        0
    } else {
        -1
    };
    let kb: int = if b < 0x8000 {
        0
    } else {
        -1
    };
    assert(sa == 0x1_0000 * ka + a);
    assert(sb == 0x1_0000 * kb + b);
    lemma_mod_multiples_vanish(ka, a, 0x1_0000);
    lemma_mod_multiples_vanish(kb, b, 0x1_0000);
    assert(sa % 0x1_0000 == a);
    assert(sb % 0x1_0000 == b);
    lemma_mul_mod_noop_general(sa, sb, 0x1_0000);
    let prod = sa * sb;
    if -0x8000 <= prod < 0x8000 {
        let r = prod % 0x1_0000;
        if prod >= 0 {
            assert(r == prod);
        } else {
            lemma_mod_multiples_vanish(1, prod, 0x1_0000);
            assert((0x1_0000 * 1 + prod) % 0x1_0000 == 0x1_0000 + prod);
            assert(r == 0x1_0000 + prod);
        }
    }
}

/// After the 64 bytes `x` are loaded into row 0 of X and the 64 bytes `y`
/// into row 0 of Y, an outer product from offset 0 of both into row 0 of Z
/// without accumulating leaves in lane `i` of row `2 * j` of Z the product
/// of lane `i` of `x` and lane `j` of `y` modulo 2^16. Read as signed lanes
/// that is the product of the signed lanes wherever it fits in 16 bits. The
/// odd rows of Z hold what they held.
pub proof fn lemma_outer_product_correct(regs: RegFile, x: Seq<u8>, y: Seq<u8>, i: int, j: int)
    requires
        regs.wf(),
        x.len() == 64,
        y.len() == 64,
        0 <= i < 32,
        0 <= j < 32,
    ensures
        ({
            let loaded = regs.put_x_row(0, x).put_y_row(0, y);
            let after = outer_product_i16(
                loaded,
                Some(XBytes(0)),
                Some(YBytes(0)),
                ZRow(0),
                false,
            );
            let xi = buf_lane16(x, i);
            let yj = buf_lane16(y, j);
            &&& after.wf()
            &&& after.x == loaded.x
            &&& after.y == loaded.y
            &&& z_lane16(after.z, 2 * j, i) == (xi * yj) % 0x1_0000
            &&& -0x8000 <= signed16(xi) * signed16(yj) < 0x8000 ==> signed16(
                z_lane16(after.z, 2 * j, i),
            ) == signed16(xi) * signed16(yj)
            &&& after.z.subrange((2 * j + 1) * 64, (2 * j + 1) * 64 + 64) == regs.z.subrange(
                (2 * j + 1) * 64,
                (2 * j + 1) * 64 + 64,
            )
        }),
{
    let loaded = regs.put_x_row(0, x).put_y_row(0, y);
    let f = outer_product_fields(Some(XBytes(0)), Some(YBytes(0)), ZRow(0), false);
    let after = mac16_step(loaded, f);
    assert(loaded.wf());
    lemma_mac16_step_lanes(loaded, f, 2 * j, i);
    lemma_mac16_step_lanes(loaded, f, 2 * j + 1, i);
    let xi = buf_lane16(x, i);
    let yj = buf_lane16(y, j);
    assert(lane16(loaded.x, 0, i) == xi);
    assert(lane16(loaded.y, 0, j) == yj);
    assert((2 * j) / 2 == j);
    assert(mac16_term(loaded, f, i, j) == xi * yj);
    assert(0 <= xi < 0x1_0000 && 0 <= yj < 0x1_0000);
    lemma_product_of_signed_lanes(xi, yj);
}

/// Of the row of Z that an outer product is given only the lowest bit
/// counts: two rows that agree in it give the same register file.
pub proof fn lemma_only_the_parity_of_the_row_counts(
    regs: RegFile,
    x_offset_bytes: Option<XBytes>,
    y_offset_bytes: Option<YBytes>,
    z_index: ZRow,
    other: ZRow,
    accumulate: bool,
)
    requires
        z_index.0 % 2 == other.0 % 2,
    ensures
        outer_product_i16(regs, x_offset_bytes, y_offset_bytes, z_index, accumulate)
            == outer_product_i16(regs, x_offset_bytes, y_offset_bytes, other, accumulate),
{
    let a = outer_product_i16(regs, x_offset_bytes, y_offset_bytes, z_index, accumulate);
    let b = outer_product_i16(regs, x_offset_bytes, y_offset_bytes, other, accumulate);
    assert(a.z =~= b.z);
}

/// An outer product from which one bank is left out multiplies nothing: it
/// adds to every lane, or puts in its place, the lane of the bank that takes
/// part. Without Y, lane `i` of every row written receives lane `i` of the
/// vector of X; without X, every lane of the row fed by lane `j` of Y
/// receives that lane of Y; without both, the lanes receive nothing, so that
/// they keep their value or are cleared.
pub proof fn lemma_excluded_operand(
    regs: RegFile,
    x_offset_bytes: Option<XBytes>,
    y_offset_bytes: Option<YBytes>,
    z_index: ZRow,
    accumulate: bool,
    row: int,
    i: int,
)
    requires
        regs.wf(),
        x_offset_bytes matches Some(x) ==> x.in_range(),
        y_offset_bytes matches Some(y) ==> y.in_range(),
        x_offset_bytes is None || y_offset_bytes is None,
        z_index.in_range(),
        0 <= row < 64,
        row % 2 == z_index.0 % 2,
        0 <= i < 32,
    ensures
        ({
            let after = outer_product_i16(
                regs,
                x_offset_bytes,
                y_offset_bytes,
                z_index,
                accumulate,
            );
            let before = if accumulate {
                z_lane16(regs.z, row, i)
            } else {
                0
            };
            let added = match (x_offset_bytes, y_offset_bytes) {
                (Some(x), None) => lane16(regs.x, x.0 as int, i),
                (None, Some(y)) => lane16(regs.y, y.0 as int, row / 2),
                _ => 0,
            };
            z_lane16(after.z, row, i) == (before + added) % 0x1_0000
        }),
{
    let f = outer_product_fields(x_offset_bytes, y_offset_bytes, z_index, accumulate);
    lemma_mac16_step_lanes(regs, f, row, i);
}

/// An outer product that accumulates adds its products to what the lanes of
/// Z held, and one that does not accumulate puts them in place of it. So
/// after an outer product without accumulating, the same outer product
/// with accumulating doubles every lane that it writes, modulo 2^16, and the
/// same outer product without accumulating changes nothing.
pub proof fn lemma_accumulate_adds(
    regs: RegFile,
    x_offset_bytes: Option<XBytes>,
    y_offset_bytes: Option<YBytes>,
    z_index: ZRow,
    row: int,
    i: int,
)
    requires
        regs.wf(),
        x_offset_bytes matches Some(x) ==> x.in_range(),
        y_offset_bytes matches Some(y) ==> y.in_range(),
        z_index.in_range(),
        0 <= row < 64,
        row % 2 == z_index.0 % 2,
        0 <= i < 32,
    ensures
        ({
            let once = outer_product_i16(regs, x_offset_bytes, y_offset_bytes, z_index, false);
            let added = outer_product_i16(once, x_offset_bytes, y_offset_bytes, z_index, true);
            let again = outer_product_i16(once, x_offset_bytes, y_offset_bytes, z_index, false);
            let term = mac16_term(
                regs,
                outer_product_fields(x_offset_bytes, y_offset_bytes, z_index, true),
                i,
                row / 2,
            );
            &&& z_lane16(once.z, row, i) == term % 0x1_0000
            &&& z_lane16(added.z, row, i) == (2 * z_lane16(once.z, row, i)) % 0x1_0000
            &&& z_lane16(added.z, row, i) == (z_lane16(once.z, row, i) + term) % 0x1_0000
            &&& again == once
        }),
{
    let f0 = outer_product_fields(x_offset_bytes, y_offset_bytes, z_index, false);
    let f1 = outer_product_fields(x_offset_bytes, y_offset_bytes, z_index, true);
    let once = mac16_step(regs, f0);
    let added = mac16_step(once, f1);
    let again = mac16_step(once, f0);
    lemma_mac16_step_lanes(regs, f0, row, i);
    assert(once.wf());
    lemma_mac16_step_lanes(once, f1, row, i);
    let term = mac16_term(regs, f1, i, row / 2);
    assert(mac16_term(regs, f0, i, row / 2) == term);
    assert(mac16_term(once, f1, i, row / 2) == term);
    let m = term % 0x1_0000;
    assert(z_lane16(once.z, row, i) == m);
    assert(z_lane16(added.z, row, i) == (m + term) % 0x1_0000);
    lemma_add_mod_noop(m, term, 0x1_0000);
    lemma_add_mod_noop(m, m, 0x1_0000);
    lemma_mod_twice(term, 0x1_0000);
    assert((m + term) % 0x1_0000 == (m + m) % 0x1_0000);
    assert forall|p: int| 0 <= p < 4096 implies again.z[p] == once.z[p] by {
        let r = p / 64;
        let c = p % 64;
        if mac16_writes_row(f0, r) {
            assert(mac16_term(once, f0, c / 2, r / 2) == mac16_term(regs, f0, c / 2, r / 2));
        }
    }
    assert(again.z =~= once.z);
}

} // verus!
