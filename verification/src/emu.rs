//! A register file held in memory.
//!
//! [`AmxEmuCtx`] carries out each primitive instruction on three arrays of
//! bytes, as the contract of the instruction says, and keeps the record of
//! what was issued to it.

use vstd::prelude::*;
use crate::genlut::{
    digit, lut_index, lut_out_byte, lut_row, IndexWidth, LutIn, LutOperand, LutOut,
};
use crate::load_store::{
    interleaved_covers, interleaved_index, interleaved_pos, interleaved_src,
    lemma_interleaving_is_a_bijection, TransferOperand,
};
use crate::mac::{
    fma32_put, fma32_row, fma32_z_byte, mac16_lane, mac16_step, mac16_term, mac16_writes_row,
    mac16_z_byte, Fma32Lanes, MacFields, MacOperand,
};
use crate::ops::{AmxOps, Issued, Opcode, Trace};
use crate::state::{lane16, lane32, read_row, write_row, z_lane32, RegFile};

verus! {

/// A model of the coprocessor that keeps the three banks in memory and
/// carries out each instruction on them.
pub struct AmxEmuCtx {
    x: [u8; 512],
    y: [u8; 512],
    z: [u8; 4096],
    issued: Ghost<Seq<Issued>>,
}

impl View for AmxEmuCtx {
    type V = RegFile;

    closed spec fn view(&self) -> RegFile {
        RegFile { x: self.x@, y: self.y@, z: self.z@ }
    }
}

impl AmxEmuCtx {
    /// A register file with every byte zero, to which nothing was issued.
    pub fn new() -> (ctx: AmxEmuCtx)
        ensures
            ctx@ == RegFile::zeroed(),
            ctx.issued() == Trace::empty(),
    {
        let ctx = AmxEmuCtx {
            x: [0u8; 512],
            y: [0u8; 512],
            z: [0u8; 4096],
            issued: Ghost(Seq::empty()),
        };
        assert(ctx.x@ =~= RegFile::zeroed().x);
        assert(ctx.y@ =~= RegFile::zeroed().y);
        assert(ctx.z@ =~= RegFile::zeroed().z);
        ctx
    }
}

impl AmxEmuCtx {
    /// The lanes that the 32-bit multiply-accumulate step with this operand
    /// word works on, as bit patterns.
    ///
    /// The lanes of that step are floating-point numbers, whose arithmetic
    /// this library does not do. This function and `fma32_store` are the
    /// two ends of the step: what it reads and what it writes.
    pub fn fma32_lanes(&self, operand: u64) -> (lanes: Fma32Lanes)
        requires
            MacOperand(operand).valid(),
        ensures
            lanes.read_from(self@, MacOperand(operand).fields()),
    {
        let op = MacOperand(operand);
        let x_offset = op.x_offset();
        let y_offset = op.y_offset();
        let group = op.z_row() % 4;
        let ghost f = op.fields();
        let mut lanes = Fma32Lanes { x: [0u32; 16], y: [0u32; 16], z: [0u32; 256] };
        let mut i: usize = 0;
        while i < 16
            invariant
                i <= 16,
                x_offset == f.x_offset,
                y_offset == f.y_offset,
                x_offset < 512,
                y_offset < 512,
                forall|k: int|
                    0 <= k < i ==> #[trigger] lanes.x@[k] == lane32(self@.x, f.x_offset, k),
                forall|k: int|
                    0 <= k < i ==> #[trigger] lanes.y@[k] == lane32(self@.y, f.y_offset, k),
            decreases 16 - i,
        {
            lanes.x[i] = read_lane32(&self.x, x_offset, i);
            lanes.y[i] = read_lane32(&self.y, y_offset, i);
            i += 1;
        }
        let mut j: usize = 0;
        while j < 16
            invariant
                j <= 16,
                group == f.z_row % 4,
                forall|k: int|
                    0 <= k < 16 ==> #[trigger] lanes.x@[k] == lane32(self@.x, f.x_offset, k),
                forall|k: int|
                    0 <= k < 16 ==> #[trigger] lanes.y@[k] == lane32(self@.y, f.y_offset, k),
                forall|r: int, k: int|
                    0 <= r < j && 0 <= k < 16 ==> #[trigger] lanes.z@[16 * r + k] == z_lane32(
                        self@.z,
                        fma32_row(f, r),
                        k,
                    ),
            decreases 16 - j,
        {
            let row: usize = 4 * j + group;
            let mut i: usize = 0;
            while i < 16
                invariant
                    i <= 16,
                    j < 16,
                    group == f.z_row % 4,
                    row == fma32_row(f, j as int),
                    forall|k: int|
                        0 <= k < 16 ==> #[trigger] lanes.x@[k] == lane32(self@.x, f.x_offset, k),
                    forall|k: int|
                        0 <= k < 16 ==> #[trigger] lanes.y@[k] == lane32(self@.y, f.y_offset, k),
                    forall|r: int, k: int|
                        0 <= r < j && 0 <= k < 16 ==> #[trigger] lanes.z@[16 * r + k] == z_lane32(
                            self@.z,
                            fma32_row(f, r),
                            k,
                        ),
                    forall|k: int|
                        0 <= k < i ==> #[trigger] lanes.z@[16 * j + k] == z_lane32(
                            self@.z,
                            row as int,
                            k,
                        ),
                decreases 16 - i,
            {
                let at: usize = row * 64 + 4 * i;
                let v: u32 = self.z[at] as u32 + 0x100 * (self.z[at + 1] as u32) + 0x1_0000 * (
                self.z[at + 2] as u32) + 0x100_0000 * (self.z[at + 3] as u32);
                lanes.z[16 * j + i] = v;
                i += 1;
            }
            j += 1;
        }
        lanes
    }

    /// Writes `lanes`, as bit patterns, into the rows of Z that the 32-bit
    /// multiply-accumulate step with this operand word writes: 16 lanes for
    /// each of the 16 rows, row after row. With this the step is done, and
    /// it is added to the record of what was issued.
    pub fn fma32_store(&mut self, operand: u64, lanes: &[u32; 256])
        requires
            MacOperand(operand).valid(),
        ensures
            final(self)@ == fma32_put(old(self)@, MacOperand(operand).fields(), lanes@),
            final(self).issued() == old(self).issued().followed_by(Opcode::Fma32, operand as int),
    {
        let ghost logged = Issued { op: Opcode::Fma32, operand: operand as int };
        self.issued = Ghost(self.issued@.push(logged));
        let op = MacOperand(operand);
        let group = op.z_row() % 4;
        let ghost f = op.fields();
        let ghost before = self@;
        let mut n: usize = 0;
        while n < 256
            invariant
                n <= 256,
                group == f.z_row % 4,
                before == old(self)@,
                self.x == old(self).x,
                self.y == old(self).y,
                self.issued@ == old(self).issued@.push(logged),
                forall|p: int|
                    0 <= p < 4096 ==> self.z@[p] == if fma32_done(f, n as int, p) {
                        fma32_z_byte(before, f, lanes@, p)
                    } else {
                        before.z[p]
                    },
            decreases 256 - n,
        {
            let row: usize = 4 * (n / 16) + group;
            let at: usize = row * 64 + 4 * (n % 16);
            let v: u32 = lanes[n];
            proof {
                assert(at / 64 == row && at % 64 == 4 * (n % 16));
                assert((at + 1) / 64 == row && (at + 1) % 64 == 4 * (n % 16) + 1);
                assert((at + 2) / 64 == row && (at + 2) % 64 == 4 * (n % 16) + 2);
                assert((at + 3) / 64 == row && (at + 3) % 64 == 4 * (n % 16) + 3);
                assert(row / 4 == n / 16 && row % 4 == group);
            }
            self.z[at] = (v % 0x100) as u8;
            self.z[at + 1] = ((v / 0x100) % 0x100) as u8;
            self.z[at + 2] = ((v / 0x1_0000) % 0x100) as u8;
            self.z[at + 3] = ((v / 0x100_0000) % 0x100) as u8;
            n += 1;
            proof {
                assert forall|p: int| 0 <= p < 4096 implies self.z@[p] == if fma32_done(
                    f,
                    n as int,
                    p,
                ) {
                    fma32_z_byte(before, f, lanes@, p)
                } else {
                    before.z[p]
                } by {
                    if at <= p < at + 4 {
                        assert(fma32_done(f, n as int, p));
                        assert(16 * ((p / 64) / 4) + (p % 64) / 4 == n - 1);
                    } else {
                        assert(fma32_done(f, n as int, p) == fma32_done(f, n - 1, p));
                    }
                }
            }
        }
        proof {
            assert forall|p: int| 0 <= p < 4096 implies self.z@[p] == fma32_z_byte(
                before,
                f,
                lanes@,
                p,
            ) by {
                if !fma32_done(f, 256, p) {
                    assert((p / 64) % 4 != f.z_row % 4);
                }
            }
            assert(self.z@ =~= fma32_put(before, f, lanes@).z);
        }
    }
}

/// Byte `p` of Z lies in a lane that `fma32_store` has dealt with when it
/// stands at lane `n` of the lanes it is given.
spec fn fma32_done(f: MacFields, n: int, p: int) -> bool {
    &&& (p / 64) % 4 == f.z_row % 4
    &&& 16 * ((p / 64) / 4) + (p % 64) / 4 < n
}

/// Reads lane `i` of the 32-bit vector that starts `offset` bytes into a
/// bank of 512 bytes.
fn read_lane32(bank: &[u8; 512], offset: usize, i: usize) -> (v: u32)
    requires
        offset < 512,
        i < 16,
    ensures
        v == lane32(bank@, offset as int, i as int),
{
    let b0: u8 = bank[(offset + 4 * i) % 512];
    let b1: u8 = bank[(offset + 4 * i + 1) % 512];
    let b2: u8 = bank[(offset + 4 * i + 2) % 512];
    let b3: u8 = bank[(offset + 4 * i + 3) % 512];
    b0 as u32 + 0x100 * (b1 as u32) + 0x1_0000 * (b2 as u32) + 0x100_0000 * (b3 as u32)
}

impl Default for AmxEmuCtx {
    fn default() -> (ctx: AmxEmuCtx)
        ensures
            ctx@ == RegFile::zeroed(),
            ctx.issued() == Trace::empty(),
    {
        AmxEmuCtx::new()
    }
}

/// Reads lane `i` of the 16-bit vector that starts `offset` bytes into a
/// bank of 512 bytes.
fn read_lane16(bank: &[u8; 512], offset: usize, i: usize) -> (v: u32)
    requires
        offset < 512,
        i < 32,
    ensures
        v == lane16(bank@, offset as int, i as int),
        v < 0x1_0000,
{
    let lo: u8 = bank[(offset + 2 * i) % 512];
    let hi: u8 = bank[(offset + 2 * i + 1) % 512];
    lo as u32 + 256 * (hi as u32)
}

/// Reads the index for lane `lane` from the run of indices that starts
/// `offset` bytes into a bank of 512 bytes.
fn read_index(bank: &[u8; 512], offset: usize, width: IndexWidth, lane: usize) -> (index: usize)
    requires
        offset < 512,
        lane < 64,
    ensures
        index == digit(
            bank@[(offset + width.byte_of(lane as int)) % 512] as int,
            width.radix(),
            width.slot_of(lane as int),
        ),
        index < width.radix(),
{
    match width {
        IndexWidth::Index2 => width.index_in_byte(bank[(offset + lane / 4) % 512], lane % 4),
        IndexWidth::Index4 => width.index_in_byte(bank[(offset + lane / 2) % 512], lane % 2),
    }
}

/// Byte `p` of Z lies in a lane that the loops of `mac16` have dealt with
/// when they stand at lane `i` of the row fed by lane `j` of Y.
spec fn mac16_done(f: MacFields, j: int, i: int, p: int) -> bool {
    &&& mac16_writes_row(f, p / 64)
    &&& ((p / 64) / 2 < j || ((p / 64) / 2 == j && (p % 64) / 2 < i))
}

impl AmxOps for AmxEmuCtx {
    open spec fn regs(&self) -> RegFile {
        self@
    }

    closed spec fn issued(&self) -> Trace {
        Trace { steps: self.issued@ }
    }

    proof fn regs_wf(&self) {
    }

    fn ldx(&mut self, operand: u64, data: &[u8; 64]) {
        let ghost logged = Issued { op: Opcode::Ldx, operand: operand as int };
        self.issued = Ghost(self.issued@.push(logged));
        let row = TransferOperand(operand).row();
        write_row(&mut self.x, row, data);
    }

    fn ldy(&mut self, operand: u64, data: &[u8; 64]) {
        let ghost logged = Issued { op: Opcode::Ldy, operand: operand as int };
        self.issued = Ghost(self.issued@.push(logged));
        let row = TransferOperand(operand).row();
        write_row(&mut self.y, row, data);
    }

    fn ldz(&mut self, operand: u64, data: &[u8; 64]) {
        let ghost logged = Issued { op: Opcode::Ldz, operand: operand as int };
        self.issued = Ghost(self.issued@.push(logged));
        let row = TransferOperand(operand).row();
        write_row(&mut self.z, row, data);
    }

    fn ldzi(&mut self, operand: u64, data: &[u8; 64]) {
        let ghost logged = Issued { op: Opcode::Ldzi, operand: operand as int };
        self.issued = Ghost(self.issued@.push(logged));
        let row = TransferOperand(operand).row();
        proof {
            lemma_interleaving_is_a_bijection(row as int);
        }
        let mut k: usize = 0;
        while k < 64
            invariant
                k <= 64,
                row < 64,
                self.x == old(self).x,
                self.y == old(self).y,
                self.issued@ == old(self).issued@.push(logged),
                forall|j: int|
                    0 <= j < 64 ==> {
                        &&& 0 <= #[trigger] interleaved_pos(row as int, j) < 4096
                        &&& interleaved_covers(row as int, interleaved_pos(row as int, j))
                        &&& interleaved_src(row as int, interleaved_pos(row as int, j)) == j
                    },
                forall|p: int|
                    0 <= p < 4096 && #[trigger] interleaved_covers(row as int, p) ==> {
                        &&& 0 <= interleaved_src(row as int, p) < 64
                        &&& interleaved_pos(row as int, interleaved_src(row as int, p)) == p
                    },
                forall|p: int|
                    0 <= p < 4096 ==> self.z@[p] == if interleaved_covers(row as int, p)
                        && interleaved_src(row as int, p) < k {
                        data@[interleaved_src(row as int, p)]
                    } else {
                        old(self).z@[p]
                    },
            decreases 64 - k,
        {
            let p = interleaved_index(row, k);
            let ghost z_before = self.z@;
            self.z[p] = data[k];
            k += 1;
            proof {
                assert(interleaved_covers(row as int, p as int));
                assert(interleaved_src(row as int, p as int) == k - 1);
                assert forall|q: int| 0 <= q < 4096 implies self.z@[q] == if interleaved_covers(
                    row as int,
                    q,
                ) && interleaved_src(row as int, q) < k {
                    data@[interleaved_src(row as int, q)]
                } else {
                    old(self).z@[q]
                } by {
                    if q != p {
                        assert(self.z@[q] == z_before[q]);
                        if interleaved_covers(row as int, q) {
                            assert(interleaved_pos(row as int, interleaved_src(row as int, q))
                                == q);
                            assert(interleaved_src(row as int, q) != k - 1);
                        }
                    }
                }
            }
        }
        assert(self.z@ =~= old(self)@.put_z_interleaved(row as int, data@).z);
    }

    fn mac16(&mut self, operand: u64) {
        let ghost logged = Issued { op: Opcode::Mac16, operand: operand as int };
        self.issued = Ghost(self.issued@.push(logged));
        let op = MacOperand(operand);
        let x_offset = op.x_offset();
        let y_offset = op.y_offset();
        let parity = op.z_row() % 2;
        let overwrite = op.overwrite();
        let skip_x = op.skip_x();
        let skip_y = op.skip_y();
        let ghost f = op.fields();
        let ghost before = self@;
        let mut j: usize = 0;
        while j < 32
            invariant
                j <= 32,
                parity == f.z_row % 2,
                x_offset == f.x_offset,
                y_offset == f.y_offset,
                x_offset < 512,
                y_offset < 512,
                overwrite == f.overwrite,
                skip_x == f.skip_x,
                skip_y == f.skip_y,
                before == old(self)@,
                self.x == old(self).x,
                self.y == old(self).y,
                self.issued@ == old(self).issued@.push(logged),
                forall|p: int|
                    0 <= p < 4096 ==> self.z@[p] == if mac16_done(f, j as int, 0, p) {
                        mac16_z_byte(before, f, p)
                    } else {
                        before.z[p]
                    },
            decreases 32 - j,
        {
            let yv = read_lane16(&self.y, y_offset, j);
            let row: usize = 2 * j + parity;
            let mut i: usize = 0;
            while i < 32
                invariant
                    i <= 32,
                    j < 32,
                    row == 2 * j + parity,
                    parity == f.z_row % 2,
                    parity < 2,
                    x_offset == f.x_offset,
                    y_offset == f.y_offset,
                    x_offset < 512,
                    y_offset < 512,
                    overwrite == f.overwrite,
                    skip_x == f.skip_x,
                    skip_y == f.skip_y,
                    yv == lane16(before.y, f.y_offset, j as int),
                    yv < 0x1_0000,
                    before == old(self)@,
                    self.x == old(self).x,
                    self.y == old(self).y,
                    self.issued@ == old(self).issued@.push(logged),
                    forall|p: int|
                        0 <= p < 4096 ==> self.z@[p] == if mac16_done(f, j as int, i as int, p) {
                            mac16_z_byte(before, f, p)
                        } else {
                            before.z[p]
                        },
                decreases 32 - i,
            {
                let xv = read_lane16(&self.x, x_offset, i);
                let lo: usize = row * 64 + 2 * i;
                let acc: u32 = if overwrite {
                    0
                } else {
                    self.z[lo] as u32 + 256 * (self.z[lo + 1] as u32)
                };
                assert(xv * yv <= 0xffff * 0xffff) by (nonlinear_arith)
                    requires
                        xv <= 0xffff,
                        yv <= 0xffff,
                ;
                let term: u32 = if skip_x && skip_y {
                    0
                } else if skip_x {
                    yv
                } else if skip_y {
                    xv
                } else {
                    xv * yv
                };
                let v: u32 = (acc + term) % 0x1_0000;
                proof {
                    assert(!mac16_done(f, j as int, i as int, lo as int));
                    assert(!mac16_done(f, j as int, i as int, lo + 1));
                    assert(lo / 64 == row && lo % 64 == 2 * i);
                    assert((lo + 1) / 64 == row && (lo + 1) % 64 == 2 * i + 1);
                    assert(row / 2 == j);
                    assert(term == mac16_term(before, f, i as int, j as int));
                    assert(v == mac16_lane(before, f, row as int, i as int));
                }
                self.z[lo] = (v % 256) as u8;
                self.z[lo + 1] = (v / 256) as u8;
                i += 1;
                proof {
                    assert forall|p: int| 0 <= p < 4096 implies self.z@[p] == if mac16_done(
                        f,
                        j as int,
                        i as int,
                        p,
                    ) {
                        mac16_z_byte(before, f, p)
                    } else {
                        before.z[p]
                    } by {
                        if p == lo || p == lo + 1 {
                            assert(mac16_done(f, j as int, i as int, p));
                        } else {
                            assert(mac16_done(f, j as int, i as int, p) == mac16_done(
                                f,
                                j as int,
                                i - 1,
                                p,
                            ));
                        }
                    }
                }
            }
            j += 1;
            proof {
                assert forall|p: int| 0 <= p < 4096 implies mac16_done(f, j as int, 0, p)
                    == mac16_done(f, j - 1, 32, p) by {}
            }
        }
        proof {
            assert forall|p: int| 0 <= p < 4096 implies self.z@[p] == mac16_z_byte(
                before,
                f,
                p,
            ) by {
                if !mac16_done(f, 32, 0, p) {
                    assert(!mac16_writes_row(f, p / 64));
                }
            }
            assert(self.z@ =~= mac16_step(before, f).z);
        }
    }

    fn genlut(&mut self, operand: u64) {
        let ghost logged = Issued { op: Opcode::Genlut, operand: operand as int };
        self.issued = Ghost(self.issued@.push(logged));
        let d = LutOperand(operand).decode().unwrap();
        let offset = d.input.byte_offset();
        let mut table: [u8; 64] = [0u8; 64];
        read_row(&self.x, d.table.0, &mut table);
        let mut out: [u8; 64] = [0u8; 64];
        let mut k: usize = 0;
        while k < 64
            invariant
                k <= 64,
                d.valid(),
                offset == d.input.offset(),
                self.x == old(self).x,
                self.y == old(self).y,
                self.issued@ == old(self).issued@.push(logged),
                self.z == old(self).z,
                table@ == self@.x_row(d.table.0 as int),
                forall|q: int| 0 <= q < k ==> out@[q] == lut_out_byte(self@, d, q),
            decreases 64 - k,
        {
            let lane: usize = k / d.ty.elem.byte_count();
            let within: usize = k % d.ty.elem.byte_count();
            let index = match d.input {
                LutIn::X(_) => read_index(&self.x, offset, d.ty.index, lane),
                LutIn::Y(_) => read_index(&self.y, offset, d.ty.index, lane),
            };
            let at: usize = index * d.ty.elem.byte_count() + within;
            assert(lane == d.ty.elem.lane_of(k as int));
            assert(within == d.ty.elem.within(k as int));
            assert(index == lut_index(self@, d, lane as int));
            assert(index * d.ty.elem.bytes() == d.ty.elem.start_of(index as int));
            out[k] = table[at];
            k += 1;
        }
        assert(out@ =~= lut_row(old(self)@, d));
        match d.output {
            LutOut::X(r) => write_row(&mut self.x, r.0, &out),
            LutOut::Y(r) => write_row(&mut self.y, r.0, &out),
        }
    }

    fn stx(&mut self, operand: u64, data: &mut [u8; 64]) {
        let ghost logged = Issued { op: Opcode::Stx, operand: operand as int };
        self.issued = Ghost(self.issued@.push(logged));
        let row = TransferOperand(operand).row();
        read_row(&self.x, row, data);
    }

    fn sty(&mut self, operand: u64, data: &mut [u8; 64]) {
        let ghost logged = Issued { op: Opcode::Sty, operand: operand as int };
        self.issued = Ghost(self.issued@.push(logged));
        let row = TransferOperand(operand).row();
        read_row(&self.y, row, data);
    }

    fn stz(&mut self, operand: u64, data: &mut [u8; 64]) {
        let ghost logged = Issued { op: Opcode::Stz, operand: operand as int };
        self.issued = Ghost(self.issued@.push(logged));
        let row = TransferOperand(operand).row();
        read_row(&self.z, row, data);
    }

    fn stzi(&mut self, operand: u64, data: &mut [u8; 64]) {
        let ghost logged = Issued { op: Opcode::Stzi, operand: operand as int };
        self.issued = Ghost(self.issued@.push(logged));
        let row = TransferOperand(operand).row();
        proof {
            lemma_interleaving_is_a_bijection(row as int);
        }
        let mut k: usize = 0;
        while k < 64
            invariant
                k <= 64,
                row < 64,
                self.x == old(self).x,
                self.y == old(self).y,
                self.issued@ == old(self).issued@.push(logged),
                self.z == old(self).z,
                forall|j: int|
                    0 <= j < 64 ==> 0 <= #[trigger] interleaved_pos(row as int, j) < 4096,
                forall|j: int| 0 <= j < k ==> data@[j] == self.z@[interleaved_pos(row as int, j)],
            decreases 64 - k,
        {
            let p = interleaved_index(row, k);
            data[k] = self.z[p];
            k += 1;
        }
        assert(data@ =~= old(self)@.z_interleaved(row as int));
    }
}

} // verus!
