//! Moving rows between memory and the register file.
//!
//! A transfer moves the 64 bytes of one row. The 1024-bit forms move two
//! consecutive rows as two such transfers. The interleaved forms, which exist
//! for Z only, spread the 64 bytes over one half of a pair of rows.

use vstd::prelude::*;
use crate::ops::{AmxOps, Issued, Opcode};
use crate::regs::{XRow, YRow, ZRow};
use crate::state::RegFile;

verus! {

/// One of the three banks of the register file.
#[derive(Clone, Copy, Debug, PartialEq, Eq)]
pub enum Bank {
    X,
    Y,
    Z,
}

impl Bank {
    /// The number of rows in the bank.
    pub open spec fn rows(self) -> int {
        match self {
            Bank::X => 8,
            Bank::Y => 8,
            Bank::Z => 64,
        }
    }
}

impl RegFile {
    /// Row `row` of `bank`.
    pub open spec fn row(self, bank: Bank, row: int) -> Seq<u8> {
        match bank {
            Bank::X => self.x_row(row),
            Bank::Y => self.y_row(row),
            Bank::Z => self.z_row(row),
        }
    }

    /// This register file with row `row` of `bank` replaced by `data`.
    pub open spec fn put_row(self, bank: Bank, row: int, data: Seq<u8>) -> RegFile {
        match bank {
            Bank::X => self.put_x_row(row, data),
            Bank::Y => self.put_y_row(row, data),
            Bank::Z => self.put_z_row(row, data),
        }
    }

    /// The 64 bytes that an interleaved store at row `row` of Z hands out.
    pub open spec fn z_interleaved(self, row: int) -> Seq<u8> {
        Seq::new(64, |k: int| self.z[interleaved_pos(row, k)])
    }

    /// This register file after an interleaved load of `data` at row `row`
    /// of Z.
    pub open spec fn put_z_interleaved(self, row: int, data: Seq<u8>) -> RegFile {
        RegFile {
            z: Seq::new(
                4096,
                |p: int|
                    if interleaved_covers(row, p) {
                        data[interleaved_src(row, p)]
                    } else {
                        self.z[p]
                    },
            ),
            ..self
        }
    }
}

/// The operand word of a transfer instruction.
///
/// Bits 0 to 55 hold the memory address of the buffer, which has no part in
/// what happens to the register file; bits 56 to 61 hold the row; bit 62 asks
/// for a two-row transfer, which this library never issues; bit 63 is
/// reserved. Where a transfer is not told where its buffer lies, it leaves
/// the address bits zero.
#[derive(Clone, Copy, Debug, PartialEq, Eq)]
pub struct TransferOperand(pub u64);

impl TransferOperand {
    /// The row that the word names.
    pub open spec fn row_field(self) -> int {
        ((self.0 >> 56) & 0x3f) as int
    }

    /// The word names a row of a bank with `rows` rows, asks for one row
    /// only and leaves the reserved bit clear.
    pub open spec fn valid_for(self, rows: int) -> bool {
        &&& self.0 >> 62 == 0
        &&& self.row_field() < rows
    }

    /// The memory address that the word holds.
    pub open spec fn address_field(self) -> int {
        (self.0 & 0x00ff_ffff_ffff_ffff) as int
    }

    /// The word for a one-row transfer at `row` of the bytes that lie at the
    /// address `addr`, as a number: the lower 56 bits of the address, and
    /// the row above them.
    pub open spec fn word_of(row: int, addr: int) -> int {
        addr % 0x0100_0000_0000_0000 + row * 0x0100_0000_0000_0000
    }

    /// The word for a one-row transfer at `row` of the bytes that lie at the
    /// address `addr`, of which the word keeps the lower 56 bits.
    pub fn new(row: usize, addr: u64) -> (op: TransferOperand)
        requires
            row < 64,
        ensures
            op.row_field() == row,
            op.valid_for(row + 1),
            op.address_field() == addr % 0x0100_0000_0000_0000,
            op.0 == TransferOperand::word_of(row as int, addr as int),
    {
        let r: u64 = row as u64;
        assert({
            let w = (addr & 0x00ff_ffff_ffff_ffff) | (r << 56);
            &&& (w >> 56) & 0x3f == r
            &&& w >> 62 == 0
            &&& w & 0x00ff_ffff_ffff_ffff == addr % 0x0100_0000_0000_0000
            &&& w == addr % 0x0100_0000_0000_0000 + r * 0x0100_0000_0000_0000
        }) by (bit_vector)
            requires
                r < 64,
        ;
        TransferOperand((addr & 0x00ff_ffff_ffff_ffff) | (r << 56))
    }

    /// The memory address that the word holds.
    pub fn address(&self) -> (addr: u64)
        ensures
            addr == self.address_field(),
    {
        self.0 & 0x00ff_ffff_ffff_ffff
    }

    /// Whether the word names a row of a bank with `rows` rows, asks for one
    /// row only and leaves the reserved bit clear.
    pub fn is_valid_for(&self, rows: usize) -> (ok: bool)
        ensures
            ok == self.valid_for(rows as int),
    {
        self.0 >> 62 == 0 && self.row() < rows
    }

    /// The row that the word names.
    pub fn row(&self) -> (row: usize)
        ensures
            row == self.row_field(),
            row < 64,
    {
        let w: u64 = self.0;
        assert((w >> 56) & 0x3f < 64) by (bit_vector);
        ((w >> 56) & 0x3f) as usize
    }
}

/// The place in Z, as an index into the flat bank, of byte `k` of the buffer
/// of an interleaved transfer at row `row`.
///
/// The buffer is taken as sixteen 4-byte lanes. Even lanes go to the even row
/// of the pair that holds `row`, odd lanes to the odd row; the parity of
/// `row` picks the lower or the upper 32 bytes of both rows.
pub open spec fn interleaved_pos(row: int, k: int) -> int {
    let lane = k / 4;
    ((row / 2) * 2 + lane % 2) * 64 + (row % 2) * 32 + (lane / 2) * 4 + k % 4
}

/// Byte `p` of Z belongs to the half rows that an interleaved transfer at
/// row `row` touches.
pub open spec fn interleaved_covers(row: int, p: int) -> bool {
    &&& (p / 64) / 2 == row / 2
    &&& (p % 64) / 32 == row % 2
}

/// The byte of the buffer that an interleaved transfer moves to or from byte
/// `p` of Z: the inverse of `interleaved_pos` on the bytes that the transfer
/// covers.
pub open spec fn interleaved_src(row: int, p: int) -> int {
    (2 * ((p % 32) / 4) + (p / 64) % 2) * 4 + p % 4
}

/// `interleaved_pos` maps the 64 bytes of the buffer one to one onto the
/// bytes of Z that the transfer covers, and `interleaved_src` maps them back.
pub proof fn lemma_interleaving_is_a_bijection(row: int)
    requires
        0 <= row < 64,
    ensures
        forall|k: int|
            0 <= k < 64 ==> {
                &&& 0 <= #[trigger] interleaved_pos(row, k) < 4096
                &&& interleaved_covers(row, interleaved_pos(row, k))
                &&& interleaved_src(row, interleaved_pos(row, k)) == k
            },
        forall|p: int|
            0 <= p < 4096 && #[trigger] interleaved_covers(row, p) ==> {
                &&& 0 <= interleaved_src(row, p) < 64
                &&& interleaved_pos(row, interleaved_src(row, p)) == p
            },
{
    assert forall|k: int| 0 <= k < 64 implies {
        &&& 0 <= #[trigger] interleaved_pos(row, k) < 4096
        &&& interleaved_covers(row, interleaved_pos(row, k))
        &&& interleaved_src(row, interleaved_pos(row, k)) == k
    } by {
        lemma_interleaved_pos_back(row, k);
    }
    assert forall|p: int| 0 <= p < 4096 && #[trigger] interleaved_covers(row, p) implies {
        &&& 0 <= interleaved_src(row, p) < 64
        &&& interleaved_pos(row, interleaved_src(row, p)) == p
    } by {
        lemma_interleaved_src_back(row, p);
    }
}

proof fn lemma_interleaved_pos_back(row: int, k: int)
    requires
        0 <= row < 64,
        0 <= k < 64,
    ensures
        0 <= interleaved_pos(row, k) < 4096,
        interleaved_covers(row, interleaved_pos(row, k)),
        interleaved_src(row, interleaved_pos(row, k)) == k,
{
    let lane = k / 4;
    let r = (row / 2) * 2 + lane % 2;
    let c = (row % 2) * 32 + (lane / 2) * 4 + k % 4;
    let p = interleaved_pos(row, k);
    assert(p == r * 64 + c);
    assert(0 <= c < 64);
    assert(0 <= r < 64);
    assert(p / 64 == r && p % 64 == c);
    assert(c / 32 == row % 2 && c % 32 == (lane / 2) * 4 + k % 4);
    assert(p % 32 == c % 32);
    assert(p % 4 == k % 4);
    assert(r / 2 == row / 2 && r % 2 == lane % 2);
    assert((p % 32) / 4 == lane / 2);
}

proof fn lemma_interleaved_src_back(row: int, p: int)
    requires
        0 <= row < 64,
        0 <= p < 4096,
        interleaved_covers(row, p),
    ensures
        0 <= interleaved_src(row, p) < 64,
        interleaved_pos(row, interleaved_src(row, p)) == p,
{
    let r = p / 64;
    let c = p % 64;
    let k = interleaved_src(row, p);
    let hi = (p % 32) / 4;
    let lo = r % 2;
    assert(p % 32 == c % 32);
    assert(p % 4 == c % 4);
    assert(0 <= hi < 8);
    assert(k == (2 * hi + lo) * 4 + p % 4);
    let lane = k / 4;
    assert(lane == 2 * hi + lo);
    assert(k % 4 == p % 4);
    assert(lane % 2 == lo && lane / 2 == hi);
    assert((row / 2) * 2 + lo == r);
    assert(c == (row % 2) * 32 + hi * 4 + p % 4);
}

/// Computes `interleaved_pos`.
pub fn interleaved_index(row: usize, k: usize) -> (p: usize)
    requires
        row < 64,
        k < 64,
    ensures
        p == interleaved_pos(row as int, k as int),
        p < 4096,
{
    let lane: usize = k / 4;
    ((row / 2) * 2 + lane % 2) * 64 + (row % 2) * 32 + (lane / 2) * 4 + k % 4
}

/// The instructions that store the first `n` rows of `bank` one by one, in
/// the order of their indices, each with the address bits zero.
pub open spec fn stores_of_rows(bank: Bank, n: nat) -> Seq<Issued> {
    Seq::new(
        n,
        |i: int| Issued { op: Opcode::store(bank), operand: TransferOperand::word_of(i, 0) },
    )
}

/// What is loaded into a row is what a store of that row hands out, and the
/// other rows of the bank, and the other banks, are as before.
pub proof fn lemma_store_after_load(regs: RegFile, bank: Bank, row: int, data: Seq<u8>, other: int)
    requires
        regs.wf(),
        0 <= row < bank.rows(),
        data.len() == 64,
        0 <= other < bank.rows(),
    ensures
        regs.put_row(bank, row, data).wf(),
        regs.put_row(bank, row, data).row(bank, row) == data,
        other != row ==> regs.put_row(bank, row, data).row(bank, other) == regs.row(bank, other),
        bank != Bank::X ==> regs.put_row(bank, row, data).x == regs.x,
        bank != Bank::Y ==> regs.put_row(bank, row, data).y == regs.y,
        bank != Bank::Z ==> regs.put_row(bank, row, data).z == regs.z,
{
    let after = regs.put_row(bank, row, data);
    assert(after.row(bank, row) =~= data);
    assert(after.row(bank, other) =~= if other == row {
        data
    } else {
        regs.row(bank, other)
    });
}

/// Loading into a row what a store of that row handed out changes nothing.
pub proof fn lemma_load_after_store(regs: RegFile, bank: Bank, row: int)
    requires
        regs.wf(),
        0 <= row < bank.rows(),
    ensures
        regs.put_row(bank, row, regs.row(bank, row)) == regs,
{
    let after = regs.put_row(bank, row, regs.row(bank, row));
    assert(after.x =~= regs.x);
    assert(after.y =~= regs.y);
    assert(after.z =~= regs.z);
}

/// What an interleaved load puts into Z is what an interleaved store at the
/// same row hands out, and loading what such a store handed out changes
/// nothing.
pub proof fn lemma_interleaved_round_trip(regs: RegFile, row: int, data: Seq<u8>)
    requires
        regs.wf(),
        0 <= row < 64,
        data.len() == 64,
    ensures
        regs.put_z_interleaved(row, data).wf(),
        regs.put_z_interleaved(row, data).z_interleaved(row) == data,
        regs.put_z_interleaved(row, regs.z_interleaved(row)) == regs,
{
    lemma_interleaving_is_a_bijection(row);
    let after = regs.put_z_interleaved(row, data);
    assert forall|k: int| 0 <= k < 64 implies after.z_interleaved(row)[k] == data[k] by {
        let p = interleaved_pos(row, k);
        assert(interleaved_covers(row, p) && interleaved_src(row, p) == k);
    }
    assert(after.z_interleaved(row) =~= data);
    let same = regs.put_z_interleaved(row, regs.z_interleaved(row));
    assert forall|p: int| 0 <= p < 4096 implies same.z[p] == regs.z[p] by {
        if interleaved_covers(row, p) {
            assert(interleaved_pos(row, interleaved_src(row, p)) == p);
        }
    }
    assert(same.z =~= regs.z);
}

/// A row address that rows can be loaded to and stored from.
pub trait LoadStore: Sized {
    /// The bank that the row lies in.
    spec fn bank(&self) -> Bank;

    /// The index of the row in its bank.
    spec fn index(&self) -> int;

    /// Whether the row lies in its bank.
    fn row_in_range(&self) -> (ok: bool)
        ensures
            ok == (self.index() < self.bank().rows()),
    ;

    /// Whether the row and the one after it lie in their bank.
    fn pair_in_range(&self) -> (ok: bool)
        ensures
            ok == (self.index() + 1 < self.bank().rows()),
    ;

    /// Loads the 64 bytes of `data` into the row.
    fn load512<O: AmxOps>(&self, ops: &mut O, data: &[u8; 64])
        requires
            self.index() < self.bank().rows(),
        ensures
            final(ops).regs() == old(ops).regs().put_row(self.bank(), self.index(), data@),
            final(ops).issued() == old(ops).issued().followed_by(
                Opcode::load(self.bank()),
                TransferOperand::word_of(self.index(), 0),
            ),
    ;

    /// Stores the 64 bytes of the row into `data`.
    fn store512<O: AmxOps>(&self, ops: &mut O, data: &mut [u8; 64])
        requires
            self.index() < self.bank().rows(),
        ensures
            final(ops).regs() == old(ops).regs(),
            final(ops).issued() == old(ops).issued().followed_by(
                Opcode::store(self.bank()),
                TransferOperand::word_of(self.index(), 0),
            ),
            final(data)@ == old(ops).regs().row(self.bank(), self.index()),
    ;

    /// Loads the 128 bytes of `data`, which lie at the address `addr`, into
    /// the row and the one after it.
    fn load1024_aligned<O: AmxOps>(&self, ops: &mut O, addr: usize, data: &[u8; 128])
        requires
            self.index() + 1 < self.bank().rows(),
            addr % 128 == 0,
        ensures
            final(ops).regs() == old(ops).regs().put_row(
                self.bank(),
                self.index(),
                data@.subrange(0, 64),
            ).put_row(self.bank(), self.index() + 1, data@.subrange(64, 128)),
            final(ops).issued() == old(ops).issued().followed_by(
                Opcode::load(self.bank()),
                TransferOperand::word_of(self.index(), addr as int),
            ).followed_by(
                Opcode::load(self.bank()),
                TransferOperand::word_of(self.index() + 1, addr + 64),
            ),
    ;

    /// Stores the 128 bytes of the row and the one after it into `data`,
    /// which lies at the address `addr`.
    fn store1024_aligned<O: AmxOps>(&self, ops: &mut O, addr: usize, data: &mut [u8; 128])
        requires
            self.index() + 1 < self.bank().rows(),
            addr % 128 == 0,
        ensures
            final(ops).regs() == old(ops).regs(),
            final(ops).issued() == old(ops).issued().followed_by(
                Opcode::store(self.bank()),
                TransferOperand::word_of(self.index(), addr as int),
            ).followed_by(
                Opcode::store(self.bank()),
                TransferOperand::word_of(self.index() + 1, addr + 64),
            ),
            final(data)@ == old(ops).regs().row(self.bank(), self.index()) + old(ops).regs().row(
                self.bank(),
                self.index() + 1,
            ),
    ;
}

/// The lower 64 bytes of a 128-byte buffer if `upper` is false, the upper
/// 64 bytes if it is true.
pub fn half_of(data: &[u8; 128], upper: bool) -> (half: [u8; 64])
    ensures
        half@ == if upper {
            data@.subrange(64, 128)
        } else {
            data@.subrange(0, 64)
        },
{
    let base: usize = if upper {
        64
    } else {
        0
    };
    let mut half: [u8; 64] = [0u8; 64];
    let mut i: usize = 0;
    while i < 64
        invariant
            i <= 64,
            base == 0 || base == 64,
            forall|k: int| 0 <= k < i ==> half@[k] == data@[base + k],
        decreases 64 - i,
    {
        half[i] = data[base + i];
        i += 1;
    }
    assert(half@ =~= data@.subrange(base as int, base + 64));
    half
}

/// Writes `half` over the lower 64 bytes of a 128-byte buffer if `upper` is
/// false, over the upper 64 bytes if it is true.
pub fn set_half(data: &mut [u8; 128], upper: bool, half: &[u8; 64])
    ensures
        final(data)@ == if upper {
            old(data)@.subrange(0, 64) + half@
        } else {
            half@ + old(data)@.subrange(64, 128)
        },
{
    let base: usize = if upper {
        64
    } else {
        0
    };
    let mut i: usize = 0;
    while i < 64
        invariant
            i <= 64,
            base == 0 || base == 64,
            forall|k: int|
                0 <= k < 128 ==> data@[k] == if base <= k < base + i {
                    half@[k - base]
                } else {
                    old(data)@[k]
                },
        decreases 64 - i,
    {
        data[base + i] = half[i];
        i += 1;
    }
    if upper {
        assert(data@ =~= old(data)@.subrange(0, 64) + half@);
    } else {
        assert(data@ =~= half@ + old(data)@.subrange(64, 128));
    }
}

impl LoadStore for XRow {
    open spec fn bank(&self) -> Bank {
        Bank::X
    }

    open spec fn index(&self) -> int {
        self.0 as int
    }

    fn row_in_range(&self) -> (ok: bool) {
        self.0 < 8
    }

    fn pair_in_range(&self) -> (ok: bool) {
        self.0 < 7
    }

    fn load512<O: AmxOps>(&self, ops: &mut O, data: &[u8; 64]) {
        ops.ldx(TransferOperand::new(self.0, 0).0, data);
    }

    fn store512<O: AmxOps>(&self, ops: &mut O, data: &mut [u8; 64]) {
        ops.stx(TransferOperand::new(self.0, 0).0, data);
    }

    fn load1024_aligned<O: AmxOps>(&self, ops: &mut O, addr: usize, data: &[u8; 128]) {
        let lower = half_of(data, false);
        let upper = half_of(data, true);
        ops.ldx(TransferOperand::new(self.0, addr as u64).0, &lower);
        ops.ldx(TransferOperand::new(self.0 + 1, addr as u64 + 64).0, &upper);
    }

    fn store1024_aligned<O: AmxOps>(&self, ops: &mut O, addr: usize, data: &mut [u8; 128]) {
        let mut half: [u8; 64] = [0u8; 64];
        ops.stx(TransferOperand::new(self.0, addr as u64).0, &mut half);
        set_half(data, false, &half);
        ops.stx(TransferOperand::new(self.0 + 1, addr as u64 + 64).0, &mut half);
        set_half(data, true, &half);
    }
}

impl LoadStore for YRow {
    open spec fn bank(&self) -> Bank {
        Bank::Y
    }

    open spec fn index(&self) -> int {
        self.0 as int
    }

    fn row_in_range(&self) -> (ok: bool) {
        self.0 < 8
    }

    fn pair_in_range(&self) -> (ok: bool) {
        self.0 < 7
    }

    fn load512<O: AmxOps>(&self, ops: &mut O, data: &[u8; 64]) {
        ops.ldy(TransferOperand::new(self.0, 0).0, data);
    }

    fn store512<O: AmxOps>(&self, ops: &mut O, data: &mut [u8; 64]) {
        ops.sty(TransferOperand::new(self.0, 0).0, data);
    }

    fn load1024_aligned<O: AmxOps>(&self, ops: &mut O, addr: usize, data: &[u8; 128]) {
        let lower = half_of(data, false);
        let upper = half_of(data, true);
        ops.ldy(TransferOperand::new(self.0, addr as u64).0, &lower);
        ops.ldy(TransferOperand::new(self.0 + 1, addr as u64 + 64).0, &upper);
    }

    fn store1024_aligned<O: AmxOps>(&self, ops: &mut O, addr: usize, data: &mut [u8; 128]) {
        let mut half: [u8; 64] = [0u8; 64];
        ops.sty(TransferOperand::new(self.0, addr as u64).0, &mut half);
        set_half(data, false, &half);
        ops.sty(TransferOperand::new(self.0 + 1, addr as u64 + 64).0, &mut half);
        set_half(data, true, &half);
    }
}

impl LoadStore for ZRow {
    open spec fn bank(&self) -> Bank {
        Bank::Z
    }

    open spec fn index(&self) -> int {
        self.0 as int
    }

    fn row_in_range(&self) -> (ok: bool) {
        self.0 < 64
    }

    fn pair_in_range(&self) -> (ok: bool) {
        self.0 < 63
    }

    fn load512<O: AmxOps>(&self, ops: &mut O, data: &[u8; 64]) {
        ops.ldz(TransferOperand::new(self.0, 0).0, data);
    }

    fn store512<O: AmxOps>(&self, ops: &mut O, data: &mut [u8; 64]) {
        ops.stz(TransferOperand::new(self.0, 0).0, data);
    }

    fn load1024_aligned<O: AmxOps>(&self, ops: &mut O, addr: usize, data: &[u8; 128]) {
        let lower = half_of(data, false);
        let upper = half_of(data, true);
        ops.ldz(TransferOperand::new(self.0, addr as u64).0, &lower);
        ops.ldz(TransferOperand::new(self.0 + 1, addr as u64 + 64).0, &upper);
    }

    fn store1024_aligned<O: AmxOps>(&self, ops: &mut O, addr: usize, data: &mut [u8; 128]) {
        let mut half: [u8; 64] = [0u8; 64];
        ops.stz(TransferOperand::new(self.0, addr as u64).0, &mut half);
        set_half(data, false, &half);
        ops.stz(TransferOperand::new(self.0 + 1, addr as u64 + 64).0, &mut half);
        set_half(data, true, &half);
    }
}

/// Loads the 64 bytes of `data` into Z at row `row` with interleaving.
pub fn load512_z_interleaved<O: AmxOps>(ops: &mut O, data: &[u8; 64], row: ZRow)
    requires
        row.in_range(),
    ensures
        final(ops).regs() == old(ops).regs().put_z_interleaved(row.0 as int, data@),
        final(ops).issued() == old(ops).issued().followed_by(
            Opcode::Ldzi,
            TransferOperand::word_of(row.0 as int, 0),
        ),
{
    ops.ldzi(TransferOperand::new(row.0, 0).0, data);
}

/// Stores into `data` the 64 bytes that lie in Z at row `row` with
/// interleaving.
pub fn store512_z_interleaved<O: AmxOps>(ops: &mut O, data: &mut [u8; 64], row: ZRow)
    requires
        row.in_range(),
    ensures
        final(ops).regs() == old(ops).regs(),
        final(ops).issued() == old(ops).issued().followed_by(
            Opcode::Stzi,
            TransferOperand::word_of(row.0 as int, 0),
        ),
        final(data)@ == old(ops).regs().z_interleaved(row.0 as int),
{
    ops.stzi(TransferOperand::new(row.0, 0).0, data);
}

} // verus!
