//! Table lookup.
//!
//! A lookup reads a run of packed indices from X or Y, a table from a row of
//! X, and writes to a row of X or Y the table entries that the indices pick.
//! The indices are 2 or 4 bits wide and lie one after the other from the
//! lowest bits of the first byte upwards; the run starts at any byte offset
//! and wraps round the end of its bank. The entries are 1, 2, 4 or 8 bytes
//! wide, and the row written holds as many lanes as entries of that width
//! fit in 64 bytes.

use vstd::prelude::*;
use crate::regs::{XBytes, XRow, YBytes, YRow};
use crate::state::RegFile;

verus! {

/// Where the indices of a lookup are read from.
#[derive(Clone, Copy, Debug, PartialEq, Eq)]
pub enum LutIn {
    /// From X, starting at this byte offset.
    X(XBytes),
    /// From Y, starting at this byte offset.
    Y(YBytes),
}

/// The row that the result of a lookup is written to.
#[derive(Clone, Copy, Debug, PartialEq, Eq)]
pub enum LutOut {
    /// A row of X.
    X(XRow),
    /// A row of Y.
    Y(YRow),
}

/// How the indices pick entries of the table.
#[derive(Clone, Copy, Debug, PartialEq, Eq)]
pub enum LutMode {
    /// Index `n` picks entry `n`.
    Normal,
}

/// The width of an index.
#[derive(Clone, Copy, Debug, PartialEq, Eq)]
pub enum IndexWidth {
    /// 2 bits: four to a byte, a table of 4 entries.
    Index2,
    /// 4 bits: two to a byte, a table of 16 entries.
    Index4,
}

/// The width of a table entry and of a lane of the result.
#[derive(Clone, Copy, Debug, PartialEq, Eq)]
pub enum ElemWidth {
    /// 8 bits.
    X8,
    /// 16 bits.
    X16,
    /// 32 bits.
    X32,
    /// 64 bits.
    X64,
}

/// The kind of a lookup: the mode, the width of an index and the width of
/// an entry.
#[derive(Clone, Copy, Debug, PartialEq, Eq)]
pub struct LutTy {
    pub mode: LutMode,
    pub index: IndexWidth,
    pub elem: ElemWidth,
}

/// Why a lookup cannot be issued.
#[derive(Clone, Copy, Debug, PartialEq, Eq)]
pub enum LutError {
    /// The byte offset of the indices lies outside the bank.
    InputOutOfRange,
    /// The row of the table lies outside X.
    TableOutOfRange,
    /// The row of the result lies outside its bank.
    OutputOutOfRange,
    /// A table of that many entries of that width does not fit in a row.
    Unrepresentable,
    /// The bytes of the indices and the bytes of the table overlap.
    Overlap,
}

impl LutIn {
    /// The indices are read from Y.
    pub open spec fn in_y(self) -> bool {
        self is Y
    }

    /// The byte offset at which the indices start.
    pub open spec fn offset(self) -> int {
        match self {
            LutIn::X(o) => o.0 as int,
            LutIn::Y(o) => o.0 as int,
        }
    }

    /// The bank that the indices are read from.
    pub open spec fn bank(self, regs: RegFile) -> Seq<u8> {
        match self {
            LutIn::X(_) => regs.x,
            LutIn::Y(_) => regs.y,
        }
    }

    /// The byte offset at which the indices start.
    pub fn byte_offset(&self) -> (offset: usize)
        ensures
            offset == self.offset(),
    {
        match self {
            LutIn::X(o) => o.0,
            LutIn::Y(o) => o.0,
        }
    }

    /// Whether the indices are read from Y.
    pub fn is_in_y(&self) -> (flag: bool)
        ensures
            flag == self.in_y(),
    {
        match self {
            LutIn::X(_) => false,
            LutIn::Y(_) => true,
        }
    }
}

impl LutOut {
    /// The result is written to Y.
    pub open spec fn in_y(self) -> bool {
        self is Y
    }

    /// The row that the result is written to.
    pub open spec fn row(self) -> int {
        match self {
            LutOut::X(r) => r.0 as int,
            LutOut::Y(r) => r.0 as int,
        }
    }

    /// The row that the result is written to.
    pub fn row_index(&self) -> (row: usize)
        ensures
            row == self.row(),
    {
        match self {
            LutOut::X(r) => r.0,
            LutOut::Y(r) => r.0,
        }
    }

    /// Whether the result is written to Y.
    pub fn is_in_y(&self) -> (flag: bool)
        ensures
            flag == self.in_y(),
    {
        match self {
            LutOut::X(_) => false,
            LutOut::Y(_) => true,
        }
    }
}

impl IndexWidth {
    /// The number of bits of an index.
    pub open spec fn bits(self) -> int {
        match self {
            IndexWidth::Index2 => 2,
            IndexWidth::Index4 => 4,
        }
    }

    /// The number of values of an index, which is the number of entries of
    /// the table: 2 to the power of `bits`.
    pub open spec fn radix(self) -> int {
        match self {
            IndexWidth::Index2 => 4,
            IndexWidth::Index4 => 16,
        }
    }

    /// The number of indices in a byte.
    pub open spec fn per_byte(self) -> int {
        match self {
            IndexWidth::Index2 => 4,
            IndexWidth::Index4 => 2,
        }
    }

    /// The byte, counted from the start of the run, that holds index `lane`.
    pub open spec fn byte_of(self, lane: int) -> int {
        match self {
            IndexWidth::Index2 => lane / 4,
            IndexWidth::Index4 => lane / 2,
        }
    }

    /// The place of index `lane` in its byte, counted from the lowest bits.
    pub open spec fn slot_of(self, lane: int) -> int {
        match self {
            IndexWidth::Index2 => lane % 4,
            IndexWidth::Index4 => lane % 2,
        }
    }

    /// The index in place `slot` of `byte`.
    pub fn index_in_byte(&self, byte: u8, slot: usize) -> (index: usize)
        requires
            slot < self.per_byte(),
        ensures
            index == digit(byte as int, self.radix(), slot as int),
            index < self.radix(),
    {
        proof {
            reveal_with_fuel(digit, 4);
        }
        match self {
            IndexWidth::Index2 => {
                let shift: u8 = (2 * slot) as u8;
                proof {
                    lemma_digits_of_byte(byte, shift);
                }
                ((byte >> shift) & 3) as usize
            },
            IndexWidth::Index4 => {
                let shift: u8 = (4 * slot) as u8;
                proof {
                    lemma_digits_of_byte(byte, shift);
                }
                ((byte >> shift) & 15) as usize
            },
        }
    }

    /// The number of bits of an index.
    pub fn bit_count(&self) -> (n: usize)
        ensures
            n == self.bits(),
    {
        match self {
            IndexWidth::Index2 => 2,
            IndexWidth::Index4 => 4,
        }
    }
}

impl ElemWidth {
    /// The number of bytes of an entry.
    pub open spec fn bytes(self) -> int {
        match self {
            ElemWidth::X8 => 1,
            ElemWidth::X16 => 2,
            ElemWidth::X32 => 4,
            ElemWidth::X64 => 8,
        }
    }

    /// The lane that byte `k` of a row belongs to.
    pub open spec fn lane_of(self, k: int) -> int {
        match self {
            ElemWidth::X8 => k,
            ElemWidth::X16 => k / 2,
            ElemWidth::X32 => k / 4,
            ElemWidth::X64 => k / 8,
        }
    }

    /// The place of byte `k` of a row in its lane.
    pub open spec fn within(self, k: int) -> int {
        match self {
            ElemWidth::X8 => 0,
            ElemWidth::X16 => k % 2,
            ElemWidth::X32 => k % 4,
            ElemWidth::X64 => k % 8,
        }
    }

    /// The offset of the first byte of entry `n`.
    pub open spec fn start_of(self, n: int) -> int {
        match self {
            ElemWidth::X8 => n,
            ElemWidth::X16 => 2 * n,
            ElemWidth::X32 => 4 * n,
            ElemWidth::X64 => 8 * n,
        }
    }

    /// The number of bytes of an entry.
    pub fn byte_count(&self) -> (n: usize)
        ensures
            n == self.bytes(),
    {
        match self {
            ElemWidth::X8 => 1,
            ElemWidth::X16 => 2,
            ElemWidth::X32 => 4,
            ElemWidth::X64 => 8,
        }
    }
}

impl LutTy {
    /// The number of lanes of the result: as many entries as fit in a row.
    pub open spec fn lanes(self) -> int {
        match self.elem {
            ElemWidth::X8 => 64,
            ElemWidth::X16 => 32,
            ElemWidth::X32 => 16,
            ElemWidth::X64 => 8,
        }
    }

    /// The number of bytes of the table.
    pub open spec fn table_bytes(self) -> int {
        self.index.radix() * self.elem.bytes()
    }

    /// The number of bytes that the indices are taken to span: 64 indices
    /// of this width, whatever the number of lanes.
    pub open spec fn index_bytes(self) -> int {
        8 * self.index.bits()
    }

    /// The table fits in one row.
    pub open spec fn representable(self) -> bool {
        self.table_bytes() <= 64
    }

    /// The number that stands for this kind in the operand word.
    ///
    /// 7 to 10 are the lookups with 2-bit indices and entries of 1, 2, 4 and
    /// 8 bytes; 11 to 13 are those with 4-bit indices and entries of 1, 2
    /// and 4 bytes.
    pub open spec fn mode_number(self) -> int {
        (match self.index {
            IndexWidth::Index2 => 7int,
            IndexWidth::Index4 => 11int,
        }) + (match self.elem {
            ElemWidth::X8 => 0int,
            ElemWidth::X16 => 1int,
            ElemWidth::X32 => 2int,
            ElemWidth::X64 => 3int,
        })
    }

    /// The kind that `number` stands for in the operand word, if any.
    pub open spec fn from_mode_number(number: int) -> Option<LutTy> {
        if 7 <= number <= 13 {
            Some(
                LutTy {
                    mode: LutMode::Normal,
                    index: if number < 11 {
                        IndexWidth::Index2
                    } else {
                        IndexWidth::Index4
                    },
                    elem: if number == 7 || number == 11 {
                        ElemWidth::X8
                    } else if number == 8 || number == 12 {
                        ElemWidth::X16
                    } else if number == 9 || number == 13 {
                        ElemWidth::X32
                    } else {
                        ElemWidth::X64
                    },
                },
            )
        } else {
            None
        }
    }

    /// A kind with this mode and these widths.
    pub fn new(mode: LutMode, index: IndexWidth, elem: ElemWidth) -> (ty: LutTy)
        ensures
            ty == (LutTy { mode, index, elem }),
    {
        LutTy { mode, index, elem }
    }

    /// Whether the table fits in one row.
    pub fn is_representable(&self) -> (ok: bool)
        ensures
            ok == self.representable(),
    {
        match (self.index, self.elem) {
            (IndexWidth::Index4, ElemWidth::X64) => false,
            _ => true,
        }
    }

    /// The number that stands for this kind in the operand word.
    pub fn mode_bits(&self) -> (number: u64)
        requires
            self.representable(),
        ensures
            number == self.mode_number(),
            7 <= number <= 13,
            LutTy::from_mode_number(number as int) == Some(*self),
    {
        let base: u64 = match self.index {
            IndexWidth::Index2 => 7,
            IndexWidth::Index4 => 11,
        };
        let step: u64 = match self.elem {
            ElemWidth::X8 => 0,
            ElemWidth::X16 => 1,
            ElemWidth::X32 => 2,
            ElemWidth::X64 => 3,
        };
        base + step
    }

    /// The kind that `number` stands for in the operand word, if any.
    pub fn from_mode_bits(number: u64) -> (ty: Option<LutTy>)
        ensures
            ty == LutTy::from_mode_number(number as int),
            ty matches Some(t) ==> t.representable() && t.mode_number() == number,
    {
        if 7 <= number && number <= 13 {
            let index = if number < 11 {
                IndexWidth::Index2
            } else {
                IndexWidth::Index4
            };
            let elem = if number == 7 || number == 11 {
                ElemWidth::X8
            } else if number == 8 || number == 12 {
                ElemWidth::X16
            } else if number == 9 || number == 13 {
                ElemWidth::X32
            } else {
                ElemWidth::X64
            };
            Some(LutTy { mode: LutMode::Normal, index, elem })
        } else {
            None
        }
    }
}

/// Two ranges of bytes, each given by its first byte and the byte after its
/// last, have a byte in common.
pub open spec fn ranges_overlap(a_start: int, a_end: int, b_start: int, b_end: int) -> bool {
    a_start < b_end && a_end > b_start
}

/// All that a lookup is told: where the indices are, which row of X holds
/// the table, which row takes the result, and the kind of lookup.
#[derive(Clone, Copy, Debug, PartialEq, Eq)]
pub struct Lookup {
    pub input: LutIn,
    pub table: XRow,
    pub output: LutOut,
    pub ty: LutTy,
}

impl Lookup {
    /// The bytes of the indices and the bytes of the table overlap, either
    /// as they lie or with the table taken 512 bytes further on, where a
    /// run of indices that wraps round the end of the bank meets it.
    pub open spec fn overlaps(self) -> bool {
        let start = self.input.offset();
        let end = start + self.ty.index_bytes();
        let table = self.table.0 * 64;
        ||| ranges_overlap(start, end, table, table + 64)
        ||| ranges_overlap(start, end, table + 512, table + 64 + 512)
    }

    /// The first reason, if there is one, why the lookup cannot be issued.
    pub open spec fn fault(self) -> Option<LutError> {
        if self.input.offset() >= 512 {
            Some(LutError::InputOutOfRange)
        } else if self.table.0 >= 8 {
            Some(LutError::TableOutOfRange)
        } else if self.output.row() >= 8 {
            Some(LutError::OutputOutOfRange)
        } else if !self.ty.representable() {
            Some(LutError::Unrepresentable)
        } else if self.overlaps() {
            Some(LutError::Overlap)
        } else {
            None
        }
    }

    /// The lookup can be issued.
    pub open spec fn valid(self) -> bool {
        self.fault() is None
    }

    /// Tells whether the lookup can be issued and, if not, why.
    pub fn check(&self) -> (r: Result<(), LutError>)
        ensures
            r is Ok <==> self.valid(),
            r matches Err(e) ==> self.fault() == Some(e),
    {
        let start = self.input.byte_offset();
        if start >= 512 {
            return Err(LutError::InputOutOfRange);
        }
        if self.table.0 >= 8 {
            return Err(LutError::TableOutOfRange);
        }
        if self.output.row_index() >= 8 {
            return Err(LutError::OutputOutOfRange);
        }
        if !self.ty.is_representable() {
            return Err(LutError::Unrepresentable);
        }
        let end = start + 8 * self.ty.index.bit_count();
        let table = self.table.0 * 64;
        if (start < table + 64 && end > table) || (start < table + 64 + 512 && end > table + 512) {
            return Err(LutError::Overlap);
        }
        Ok(())
    }
}

/// Digit `q` of `v` written in base `radix`, counted from the lowest.
pub open spec fn digit(v: int, radix: int, q: int) -> int
    decreases q,
{
    if q <= 0 {
        v % radix
    } else {
        digit(v / radix, radix, q - 1)
    }
}

proof fn lemma_digits_of_byte(b: u8, shift: u8)
    by (bit_vector)
    requires
        shift < 8,
    ensures
        shift == 0 ==> (b >> shift) & 3 == b % 4 && (b >> shift) & 15 == b % 16,
        shift == 2 ==> (b >> shift) & 3 == (b / 4) % 4,
        shift == 4 ==> (b >> shift) & 3 == ((b / 4) / 4) % 4 && (b >> shift) & 15 == (b / 16) % 16,
        shift == 6 ==> (b >> shift) & 3 == (((b / 4) / 4) / 4) % 4,
{
}

/// The index that picks the entry for lane `lane`: the indices are the
/// digits, lowest first, of the bytes that start at the offset of the
/// indices, in base 4 for 2-bit indices and in base 16 for 4-bit ones.
pub open spec fn lut_index(regs: RegFile, d: Lookup, lane: int) -> int {
    let byte = d.input.bank(regs)[(d.input.offset() + d.ty.index.byte_of(lane)) % 512];
    digit(byte as int, d.ty.index.radix(), d.ty.index.slot_of(lane))
}

/// Byte `k` of the row that the lookup writes: byte `k` belongs to a lane,
/// the index of that lane picks an entry of the table, and the byte is the
/// byte of that entry at the same place.
pub open spec fn lut_out_byte(regs: RegFile, d: Lookup, k: int) -> u8 {
    let lane = d.ty.elem.lane_of(k);
    regs.x_row(d.table.0 as int)[d.ty.elem.start_of(lut_index(regs, d, lane)) + d.ty.elem.within(
        k,
    )]
}

/// The 64 bytes that the lookup writes.
pub open spec fn lut_row(regs: RegFile, d: Lookup) -> Seq<u8> {
    Seq::new(64, |k: int| lut_out_byte(regs, d, k))
}

/// The register file after the lookup.
pub open spec fn lut_result(regs: RegFile, d: Lookup) -> RegFile {
    match d.output {
        LutOut::X(r) => regs.put_x_row(r.0 as int, lut_row(regs, d)),
        LutOut::Y(r) => regs.put_y_row(r.0 as int, lut_row(regs, d)),
    }
}

/// The byte that holds the indices `per_byte * n` and following: the first
/// of them in its lowest bits, the next above it, and so on.
pub open spec fn packed_byte(indices: Seq<int>, width: IndexWidth, n: int) -> int {
    match width {
        IndexWidth::Index2 => indices[4 * n] + 4 * indices[4 * n + 1] + 16 * indices[4 * n + 2]
            + 64 * indices[4 * n + 3],
        IndexWidth::Index4 => indices[2 * n] + 16 * indices[2 * n + 1],
    }
}

/// The run of indices of the lookup, read as the instruction reads it, with
/// wrapping round the end of the bank, holds the 64 indices `indices` packed.
pub open spec fn holds_indices(regs: RegFile, d: Lookup, indices: Seq<int>) -> bool {
    forall|n: int|
        0 <= n < d.ty.index_bytes() ==> (#[trigger] d.input.bank(regs)[(d.input.offset() + n)
            % 512]) as int == packed_byte(indices, d.ty.index, n)
}

/// Where the lookup can be issued, the register file holds 64 indices, each
/// below the number of entries of the table, packed at the place of the
/// indices, then after the lookup every lane of the row of the result holds
/// the entry of the table that the index of that lane picks: byte `b` of
/// lane `lane` is byte `b` of entry `indices[lane]`. This holds wherever the
/// run of indices starts, also where it runs over the end of a row or wraps
/// round the end of the bank. The other rows, and the other banks, are as
/// before.
pub proof fn lemma_lookup_round_trip(
    regs: RegFile,
    d: Lookup,
    indices: Seq<int>,
    lane: int,
    b: int,
)
    requires
        regs.wf(),
        d.valid(),
        indices.len() == 64,
        forall|l: int| 0 <= l < 64 ==> 0 <= #[trigger] indices[l] < d.ty.index.radix(),
        holds_indices(regs, d, indices),
        0 <= lane < d.ty.lanes(),
        0 <= b < d.ty.elem.bytes(),
    ensures
        lut_index(regs, d, lane) == indices[lane],
        ({
            let after = lut_result(regs, d);
            let out = if d.output.in_y() {
                after.y_row(d.output.row())
            } else {
                after.x_row(d.output.row())
            };
            let table = regs.x_row(d.table.0 as int);
            &&& after.wf()
            &&& after.z == regs.z
            &&& out == lut_row(regs, d)
            &&& out[d.ty.elem.start_of(lane) + b] == table[d.ty.elem.start_of(indices[lane]) + b]
            &&& forall|r: int|
                0 <= r < 8 && !(r == d.output.row() && !d.output.in_y()) ==> after.x_row(r)
                    == regs.x_row(r)
            &&& forall|r: int|
                0 <= r < 8 && !(r == d.output.row() && d.output.in_y()) ==> after.y_row(r)
                    == regs.y_row(r)
        }),
{
    lemma_index_of_lane(regs, d, indices, lane);
    lemma_lookup_writes_one_row(regs, d);
    let row = lut_row(regs, d);
    let k = d.ty.elem.start_of(lane) + b;
    assert(0 <= k < 64);
    assert(d.ty.elem.lane_of(k) == lane && d.ty.elem.within(k) == b);
    assert(row[k] == lut_out_byte(regs, d, k));
}

/// The bank with the bytes of `run` put at `offset` and following, wrapping
/// round the end of the bank.
pub open spec fn with_run(bank: Seq<u8>, offset: int, run: Seq<u8>) -> Seq<u8> {
    Seq::new(
        bank.len(),
        |p: int|
            if (p - offset) % 512 < run.len() {
                run[(p - offset) % 512]
            } else {
                bank[p]
            },
    )
}

/// The bytes that hold the 64 indices `indices` packed.
pub open spec fn packed(indices: Seq<int>, width: IndexWidth) -> Seq<u8> {
    Seq::new((8 * width.bits()) as nat, |n: int| packed_byte(indices, width, n) as u8)
}

/// The register file with the 64 indices `indices` packed at the place
/// where the lookup reads its indices and then with `values` loaded into
/// the row of the table.
pub open spec fn placed(regs: RegFile, d: Lookup, indices: Seq<int>, values: Seq<u8>) -> RegFile {
    let run = packed(indices, d.ty.index);
    let with_indices = match d.input {
        LutIn::X(o) => RegFile { x: with_run(regs.x, o.0 as int, run), ..regs },
        LutIn::Y(o) => RegFile { y: with_run(regs.y, o.0 as int, run), ..regs },
    };
    with_indices.put_x_row(d.table.0 as int, values)
}

/// For every lookup that can be issued, every 64 indices below the number
/// of entries of the table and every 64 bytes of table: once the indices
/// are packed at the place of the indices and the table is loaded into its
/// row, the lookup leaves in every lane of the row of the result the entry
/// that the index of that lane picks. Because the indices and the table do
/// not overlap, loading the table leaves the indices as they were placed.
pub proof fn lemma_lookup_after_placing(
    regs: RegFile,
    d: Lookup,
    indices: Seq<int>,
    values: Seq<u8>,
    lane: int,
    b: int,
)
    requires
        regs.wf(),
        d.valid(),
        indices.len() == 64,
        forall|l: int| 0 <= l < 64 ==> 0 <= #[trigger] indices[l] < d.ty.index.radix(),
        values.len() == 64,
        0 <= lane < d.ty.lanes(),
        0 <= b < d.ty.elem.bytes(),
    ensures
        ({
            let start = placed(regs, d, indices, values);
            let after = lut_result(start, d);
            let out = if d.output.in_y() {
                after.y_row(d.output.row())
            } else {
                after.x_row(d.output.row())
            };
            &&& start.wf()
            &&& holds_indices(start, d, indices)
            &&& start.x_row(d.table.0 as int) == values
            &&& out[d.ty.elem.start_of(lane) + b] == values[d.ty.elem.start_of(indices[lane]) + b]
        }),
{
    let start = placed(regs, d, indices, values);
    let run = packed(indices, d.ty.index);
    let offset = d.input.offset();
    assert(start.x_row(d.table.0 as int) =~= values);
    lemma_overlap_is_rejected(d);
    assert forall|n: int| 0 <= n < d.ty.index_bytes() implies (#[trigger] d.input.bank(start)[(
    offset + n) % 512]) as int == packed_byte(indices, d.ty.index, n) by {
        let p = (offset + n) % 512;
        assert((p - offset) % 512 == n);
        assert(!in_table(d.table.0 as int, (d.input.offset() + n) % 512));
        lemma_packed_byte_fits(indices, d.ty.index, n);
        assert(run[n] == packed_byte(indices, d.ty.index, n) as u8);
    }
    lemma_lookup_round_trip(start, d, indices, lane, b);
}

/// A byte of packed indices is below 256.
proof fn lemma_packed_byte_fits(indices: Seq<int>, width: IndexWidth, n: int)
    requires
        indices.len() == 64,
        forall|l: int| 0 <= l < 64 ==> 0 <= #[trigger] indices[l] < width.radix(),
        0 <= n < 8 * width.bits(),
    ensures
        0 <= packed_byte(indices, width, n) < 256,
{
    match width {
        IndexWidth::Index2 => {
            assert(0 <= indices[4 * n] < 4);
            assert(0 <= indices[4 * n + 1] < 4);
            assert(0 <= indices[4 * n + 2] < 4);
            assert(0 <= indices[4 * n + 3] < 4);
        },
        IndexWidth::Index4 => {
            assert(0 <= indices[2 * n] < 16);
            assert(0 <= indices[2 * n + 1] < 16);
        },
    }
}

/// A byte that holds packed indices gives each of them back as the digit
/// at its place.
proof fn lemma_digit_of_packed(indices: Seq<int>, width: IndexWidth, n: int, slot: int)
    requires
        0 <= n,
        0 <= slot < width.per_byte(),
        forall|l: int|
            0 <= l < width.per_byte() ==> 0 <= #[trigger] indices[width.per_byte() * n + l]
                < width.radix(),
    ensures
        digit(packed_byte(indices, width, n), width.radix(), slot) == indices[width.per_byte() * n
            + slot],
{
    reveal_with_fuel(digit, 4);
    match width {
        IndexWidth::Index2 => {
            let d0 = indices[4 * n + 0];
            let d1 = indices[4 * n + 1];
            let d2 = indices[4 * n + 2];
            let d3 = indices[4 * n + 3];
            assert(0 <= d0 < 4 && 0 <= d1 < 4 && 0 <= d2 < 4 && 0 <= d3 < 4);
            let v0 = d0 + 4 * d1 + 16 * d2 + 64 * d3;
            let v1 = d1 + 4 * d2 + 16 * d3;
            let v2 = d2 + 4 * d3;
            assert(packed_byte(indices, width, n) == v0);
            assert(v0 % 4 == d0 && v0 / 4 == v1);
            assert(v1 % 4 == d1 && v1 / 4 == v2);
            assert(v2 % 4 == d2 && v2 / 4 == d3);
            assert(d3 % 4 == d3);
        },
        IndexWidth::Index4 => {
            let d0 = indices[2 * n + 0];
            let d1 = indices[2 * n + 1];
            assert(0 <= d0 < 16 && 0 <= d1 < 16);
            let v0 = d0 + 16 * d1;
            assert(packed_byte(indices, width, n) == v0);
            assert(v0 % 16 == d0 && v0 / 16 == d1);
            assert(d1 % 16 == d1);
        },
    }
}

/// Where the register file holds the packed indices, the index read for a
/// lane is the index of that lane.
proof fn lemma_index_of_lane(regs: RegFile, d: Lookup, indices: Seq<int>, lane: int)
    requires
        indices.len() == 64,
        forall|l: int| 0 <= l < 64 ==> 0 <= #[trigger] indices[l] < d.ty.index.radix(),
        holds_indices(regs, d, indices),
        0 <= lane < 64,
    ensures
        lut_index(regs, d, lane) == indices[lane],
{
    let width = d.ty.index;
    let n = width.byte_of(lane);
    let slot = width.slot_of(lane);
    let byte = d.input.bank(regs)[(d.input.offset() + n) % 512];
    assert(0 <= n < d.ty.index_bytes());
    assert(byte as int == packed_byte(indices, width, n));
    assert(lane == width.per_byte() * n + slot);
    assert forall|l: int| 0 <= l < width.per_byte() implies 0 <= #[trigger] indices[width.per_byte()
        * n + l] < width.radix() by {
        assert(0 <= width.per_byte() * n + l < 64);
    }
    lemma_digit_of_packed(indices, width, n, slot);
}

/// A lookup writes the row of its result and nothing else.
proof fn lemma_lookup_writes_one_row(regs: RegFile, d: Lookup)
    requires
        regs.wf(),
        0 <= d.output.row() < 8,
    ensures
        ({
            let after = lut_result(regs, d);
            let out = if d.output.in_y() {
                after.y_row(d.output.row())
            } else {
                after.x_row(d.output.row())
            };
            &&& after.wf()
            &&& after.z == regs.z
            &&& out == lut_row(regs, d)
            &&& forall|r: int|
                0 <= r < 8 && !(r == d.output.row() && !d.output.in_y()) ==> after.x_row(r)
                    == regs.x_row(r)
            &&& forall|r: int|
                0 <= r < 8 && !(r == d.output.row() && d.output.in_y()) ==> after.y_row(r)
                    == regs.y_row(r)
        }),
{
    let after = lut_result(regs, d);
    let row = lut_row(regs, d);
    if d.output.in_y() {
        assert(after.y_row(d.output.row()) =~= row);
        assert forall|r: int| 0 <= r < 8 && r != d.output.row() implies after.y_row(r)
            == regs.y_row(r) by {
            assert(after.y_row(r) =~= regs.y_row(r));
        }
    } else {
        assert(after.x_row(d.output.row()) =~= row);
        assert forall|r: int| 0 <= r < 8 && r != d.output.row() implies after.x_row(r)
            == regs.x_row(r) by {
            assert(after.x_row(r) =~= regs.x_row(r));
        }
    }
}

/// A lookup whose indices and table have a byte in common is never issued:
/// it is not valid, and where nothing else is wrong with it the fault found
/// is the overlap. To overlap in one of the two pages is to have a byte in
/// common with the table when the run of indices is read with wrapping
/// round the end of the bank.
pub proof fn lemma_overlap_is_rejected(d: Lookup)
    ensures
        d.overlaps() ==> !d.valid(),
        d.input.offset() < 512 && d.table.0 < 8 && d.output.row() < 8 && d.ty.representable() ==> (
        d.fault() == Some(LutError::Overlap) <==> d.overlaps()),
        d.input.offset() < 512 && d.table.0 < 8 ==> (d.overlaps() <==> exists|n: int|
            0 <= n < d.ty.index_bytes() && #[trigger] in_table(
                d.table.0 as int,
                (d.input.offset() + n) % 512,
            )),
{
    if d.input.offset() < 512 && d.table.0 < 8 {
        let start = d.input.offset();
        let end = start + d.ty.index_bytes();
        let table = d.table.0 * 64;
        if d.overlaps() {
            if ranges_overlap(start, end, table, table + 64) {
                let p = if start < table {
                    table
                } else {
                    start
                };
                assert(in_table(d.table.0 as int, (start + (p - start)) % 512));
            } else {
                let p = if start < table + 512 {
                    table + 512
                } else {
                    start
                };
                assert(in_table(d.table.0 as int, (start + (p - start)) % 512));
            }
        }
        if exists|n: int|
            0 <= n < d.ty.index_bytes() && #[trigger] in_table(
                d.table.0 as int,
                (d.input.offset() + n) % 512,
            ) {
            let n = choose|n: int|
                0 <= n < d.ty.index_bytes() && #[trigger] in_table(
                    d.table.0 as int,
                    (d.input.offset() + n) % 512,
                );
            let p = start + n;
            if p < 512 {
                assert(ranges_overlap(start, end, table, table + 64));
            } else {
                assert(ranges_overlap(start, end, table + 512, table + 64 + 512));
            }
        }
    }
}

/// Byte `p` of X is a byte of row `row`.
pub open spec fn in_table(row: int, p: int) -> bool {
    row * 64 <= p < row * 64 + 64
}

/// The operand word of the lookup instruction.
///
/// Bits 0 to 8 hold the byte offset of the indices and bit 10 is set when
/// they are read from Y. Bits 20 to 22 hold the row of the result and bit 25
/// is set when that row is a row of Y. Bits 53 to 56 hold the number of the
/// kind of lookup. Bits 60 to 62 hold the row of X that holds the table.
/// Every other bit is zero.
#[derive(Clone, Copy, Debug, PartialEq, Eq)]
pub struct LutOperand(pub u64);

impl LutOperand {
    /// The byte offset of the indices.
    pub open spec fn input_offset_field(self) -> int {
        (self.0 & 0x1ff) as int
    }

    /// The flag that has the indices read from Y.
    pub open spec fn input_in_y_field(self) -> bool {
        (self.0 >> 10) & 1 == 1
    }

    /// The row of the result.
    pub open spec fn output_row_field(self) -> int {
        ((self.0 >> 20) & 7) as int
    }

    /// The flag that has the result written to Y.
    pub open spec fn output_in_y_field(self) -> bool {
        (self.0 >> 25) & 1 == 1
    }

    /// The number of the kind of lookup.
    pub open spec fn mode_field(self) -> int {
        ((self.0 >> 53) & 0xf) as int
    }

    /// The row of the table.
    pub open spec fn table_row_field(self) -> int {
        ((self.0 >> 60) & 7) as int
    }

    /// The lookup that the word asks for, if the number of its kind stands
    /// for one.
    pub open spec fn lookup(self) -> Option<Lookup> {
        match LutTy::from_mode_number(self.mode_field()) {
            Some(ty) => Some(
                Lookup {
                    input: if self.input_in_y_field() {
                        LutIn::Y(YBytes(self.input_offset_field() as usize))
                    } else {
                        LutIn::X(XBytes(self.input_offset_field() as usize))
                    },
                    table: XRow(self.table_row_field() as usize),
                    output: if self.output_in_y_field() {
                        LutOut::Y(YRow(self.output_row_field() as usize))
                    } else {
                        LutOut::X(XRow(self.output_row_field() as usize))
                    },
                    ty,
                },
            ),
            None => None,
        }
    }

    /// No bit outside the fields is set, and the word asks for a lookup
    /// that can be issued.
    pub open spec fn valid(self) -> bool {
        &&& self.0 & 0x8e1f_ffff_fd8f_fa00 == 0
        &&& self.lookup() matches Some(d) && d.valid()
    }

    /// The word that asks for `d`, as a number.
    pub open spec fn word_of(d: Lookup) -> int {
        d.input.offset() + (if d.input.in_y() {
            0x400int
        } else {
            0
        }) + d.output.row() * 0x10_0000 + (if d.output.in_y() {
            0x200_0000int
        } else {
            0
        }) + d.ty.mode_number() * 0x20_0000_0000_0000 + d.table.0 * 0x1000_0000_0000_0000
    }

    /// Packs the operand word of the lookup `d`.
    pub fn new(d: &Lookup) -> (op: LutOperand)
        requires
            d.valid(),
        ensures
            op.valid(),
            op.lookup() == Some(*d),
            op.0 == LutOperand::word_of(*d),
    {
        let offset: u64 = d.input.byte_offset() as u64;
        let from_y: u64 = if d.input.is_in_y() {
            1
        } else {
            0
        };
        let row: u64 = d.output.row_index() as u64;
        let to_y: u64 = if d.output.is_in_y() {
            1
        } else {
            0
        };
        let mode: u64 = d.ty.mode_bits();
        let table: u64 = d.table.0 as u64;
        proof {
            lemma_lut_word(offset, from_y, row, to_y, mode, table);
        }
        LutOperand(
            offset | (from_y << 10) | (row << 20) | (to_y << 25) | (mode << 53) | (table << 60),
        )
    }

    /// The lookup that the word asks for, if the number of its kind stands
    /// for one.
    pub fn decode(&self) -> (d: Option<Lookup>)
        ensures
            d == self.lookup(),
    {
        let w: u64 = self.0;
        proof {
            lemma_lut_field_bounds(w);
        }
        match LutTy::from_mode_bits((w >> 53) & 0xf) {
            Some(ty) => {
                let offset: usize = (w & 0x1ff) as usize;
                let row: usize = ((w >> 20) & 7) as usize;
                Some(
                    Lookup {
                        input: if (w >> 10) & 1 == 1 {
                            LutIn::Y(YBytes(offset))
                        } else {
                            LutIn::X(XBytes(offset))
                        },
                        table: XRow(((w >> 60) & 7) as usize),
                        output: if (w >> 25) & 1 == 1 {
                            LutOut::Y(YRow(row))
                        } else {
                            LutOut::X(XRow(row))
                        },
                        ty,
                    },
                )
            },
            None => None,
        }
    }

    /// Whether the word is one that the lookup instruction takes.
    pub fn is_valid(&self) -> (ok: bool)
        ensures
            ok == self.valid(),
    {
        if self.0 & 0x8e1f_ffff_fd8f_fa00 != 0 {
            return false;
        }
        match self.decode() {
            Some(d) => d.check().is_ok(),
            None => false,
        }
    }
}

proof fn lemma_lut_word(offset: u64, from_y: u64, row: u64, to_y: u64, mode: u64, table: u64)
    by (bit_vector)
    requires
        offset < 512,
        from_y < 2,
        row < 8,
        to_y < 2,
        mode < 16,
        table < 8,
    ensures
        ({
            let w = offset | (from_y << 10) | (row << 20) | (to_y << 25) | (mode << 53) | (table
                << 60);
            &&& w & 0x1ff == offset
            &&& (w >> 10) & 1 == from_y
            &&& (w >> 20) & 7 == row
            &&& (w >> 25) & 1 == to_y
            &&& (w >> 53) & 0xf == mode
            &&& (w >> 60) & 7 == table
            &&& w & 0x8e1f_ffff_fd8f_fa00 == 0
            &&& w == offset + from_y * 0x400 + row * 0x10_0000 + to_y * 0x200_0000 + mode
                * 0x20_0000_0000_0000 + table * 0x1000_0000_0000_0000
        }),
{
}

/// A word that the lookup instruction takes is the word that packing the
/// lookup it asks for gives: to unpack and pack again changes nothing.
pub proof fn lemma_lut_word_is_its_lookup(op: LutOperand)
    requires
        op.valid(),
    ensures
        op.lookup() matches Some(d) && op.0 == LutOperand::word_of(d),
{
    let w = op.0;
    assert(w & 0x8e1f_ffff_fd8f_fa00 == 0 ==> w == (w & 0x1ff) + ((w >> 10) & 1) * 0x400 + ((w
        >> 20) & 7) * 0x10_0000 + ((w >> 25) & 1) * 0x200_0000 + ((w >> 53) & 0xf)
        * 0x20_0000_0000_0000 + ((w >> 60) & 7) * 0x1000_0000_0000_0000 && ((w >> 10) & 1) < 2 && (
    (w >> 25) & 1) < 2 && (w & 0x1ff) < 512 && ((w >> 20) & 7) < 8 && ((w >> 60) & 7) < 8) by (
        bit_vector);
}

proof fn lemma_lut_field_bounds(w: u64)
    by (bit_vector)
    ensures
        w & 0x1ff < 512,
        (w >> 20) & 7 < 8,
        (w >> 53) & 0xf < 16,
        (w >> 60) & 7 < 8,
{
}

} // verus!
