//! The register file and the instructions of a matrix coprocessor.
//!
//! The coprocessor holds three banks of 64-byte rows, X, Y and Z, and works
//! on them with a handful of instructions: transfers of rows to and from
//! memory, an outer product of a vector of X with a vector of Y that is added
//! into Z, and a table lookup.
//!
//! [`AmxOps`] is the set of primitive instructions, each taking a packed
//! operand word. [`Amx`] offers the same operations over typed addresses and
//! is implemented for whatever implements [`AmxOps`]: it works through the
//! primitive instructions alone, and its contracts say which of them it
//! issues, with which operand words, and what the register file holds after
//! them. [`AmxEmuCtx`] is a register file held in memory that carries out
//! every instruction as its contract says.

use vstd::prelude::*;

pub mod emu;
pub mod genlut;
pub mod load_store;
pub mod mac;
pub mod ops;
pub mod regs;
pub mod state;

pub use crate::emu::AmxEmuCtx;
pub use crate::genlut::{
    lut_result, ElemWidth, IndexWidth, Lookup, LutError, LutIn, LutMode, LutOperand, LutOut, LutTy,
};
pub use crate::load_store::{
    load512_z_interleaved, store512_z_interleaved, stores_of_rows, Bank, LoadStore,
    TransferOperand,
};
pub use crate::mac::{
    outer_product_fields, outer_product_i16, Fma32Lanes, MacFields, MacOperand,
};
pub use crate::ops::{AmxOps, Issued, Opcode, Trace};
pub use crate::regs::{XBytes, XRow, YBytes, YRow, ZRow};
pub use crate::state::{
    rows_joined, write_row, RegFile, ROW_BYTES, XY_BYTES, X_ROWS, Y_ROWS, Z_BYTES, Z_ROWS,
};

verus! {

/// The operations of the coprocessor over typed addresses.
pub trait Amx: AmxOps {
    /// Loads the 64 bytes of `data` into the row `row`, by one load
    /// instruction.
    fn load512<R: LoadStore>(&mut self, data: &[u8; 64], row: R)
        requires
            row.index() < row.bank().rows(),
        ensures
            final(self).regs() == old(self).regs().put_row(row.bank(), row.index(), data@),
            final(self).issued() == old(self).issued().followed_by(
                Opcode::load(row.bank()),
                TransferOperand::word_of(row.index(), 0),
            ),
    {
        row.load512(self, data);
    }

    /// Loads the 128 bytes of `data` into the row `row` and the one after
    /// it, by two load instructions of one row each. `addr` is the address
    /// at which `data` lies in memory, which the coprocessor wants to be a
    /// multiple of 128.
    fn load1024_aligned<R: LoadStore>(&mut self, addr: usize, data: &[u8; 128], row: R)
        requires
            row.index() + 1 < row.bank().rows(),
            addr % 128 == 0,
        ensures
            final(self).regs() == old(self).regs().put_row(
                row.bank(),
                row.index(),
                data@.subrange(0, 64),
            ).put_row(row.bank(), row.index() + 1, data@.subrange(64, 128)),
            final(self).issued() == old(self).issued().followed_by(
                Opcode::load(row.bank()),
                TransferOperand::word_of(row.index(), addr as int),
            ).followed_by(
                Opcode::load(row.bank()),
                TransferOperand::word_of(row.index() + 1, addr + 64),
            ),
    {
        row.load1024_aligned(self, addr, data);
    }

    /// Stores the 64 bytes of the row `row` into `data`, by one store
    /// instruction.
    fn store512<R: LoadStore>(&mut self, data: &mut [u8; 64], row: R)
        requires
            row.index() < row.bank().rows(),
        ensures
            final(self).regs() == old(self).regs(),
            final(self).issued() == old(self).issued().followed_by(
                Opcode::store(row.bank()),
                TransferOperand::word_of(row.index(), 0),
            ),
            final(data)@ == old(self).regs().row(row.bank(), row.index()),
    {
        row.store512(self, data);
    }

    /// Stores the 128 bytes of the row `row` and the one after it into
    /// `data`, by two store instructions of one row each. `addr` is the
    /// address at which `data` lies in memory, which the coprocessor wants
    /// to be a multiple of 128.
    fn store1024_aligned<R: LoadStore>(&mut self, addr: usize, data: &mut [u8; 128], row: R)
        requires
            row.index() + 1 < row.bank().rows(),
            addr % 128 == 0,
        ensures
            final(self).regs() == old(self).regs(),
            final(self).issued() == old(self).issued().followed_by(
                Opcode::store(row.bank()),
                TransferOperand::word_of(row.index(), addr as int),
            ).followed_by(
                Opcode::store(row.bank()),
                TransferOperand::word_of(row.index() + 1, addr + 64),
            ),
            final(data)@ == old(self).regs().row(row.bank(), row.index()) + old(self).regs().row(
                row.bank(),
                row.index() + 1,
            ),
    {
        row.store1024_aligned(self, addr, data);
    }

    /// Loads the 64 bytes of `data` into Z at row `row` with interleaving.
    fn load512_interleaved(&mut self, data: &[u8; 64], row: ZRow)
        requires
            row.in_range(),
        ensures
            final(self).regs() == old(self).regs().put_z_interleaved(row.0 as int, data@),
            final(self).issued() == old(self).issued().followed_by(
                Opcode::Ldzi,
                TransferOperand::word_of(row.0 as int, 0),
            ),
    {
        load512_z_interleaved(self, data, row);
    }

    /// Stores into `data` the 64 bytes that lie in Z at row `row` with
    /// interleaving.
    fn store512_interleaved(&mut self, data: &mut [u8; 64], row: ZRow)
        requires
            row.in_range(),
        ensures
            final(self).regs() == old(self).regs(),
            final(self).issued() == old(self).issued().followed_by(
                Opcode::Stzi,
                TransferOperand::word_of(row.0 as int, 0),
            ),
            final(data)@ == old(self).regs().z_interleaved(row.0 as int),
    {
        store512_z_interleaved(self, data, row);
    }

    /// Reads the whole of X: stores its rows one by one, in the order of
    /// their indices, and joins them.
    fn read_x(&mut self) -> (ret: [u8; XY_BYTES])
        ensures
            final(self).regs() == old(self).regs(),
            ret@ == old(self).regs().x,
            ret@ == rows_joined(old(self).regs().x, 8),
            final(self).issued() == old(self).issued().followed_by_all(
                stores_of_rows(Bank::X, 8),
            ),
    {
        let mut ret: [u8; XY_BYTES] = [0u8; XY_BYTES];
        let mut row_bytes: [u8; ROW_BYTES] = [0u8; ROW_BYTES];
        proof {
            self.regs_wf();
        }
        assert(self.issued().steps =~= old(self).issued().followed_by_all(
            stores_of_rows(Bank::X, 0),
        ).steps);
        let mut i: usize = 0;
        while i < X_ROWS
            invariant
                i <= X_ROWS,
                self.regs() == old(self).regs(),
                self.regs().wf(),
                forall|k: int| 0 <= k < i * 64 ==> ret@[k] == self.regs().x[k],
                self.issued() == old(self).issued().followed_by_all(
                    stores_of_rows(Bank::X, i as nat),
                ),
            decreases X_ROWS - i,
        {
            self.store512(&mut row_bytes, XRow(i));
            write_row(&mut ret, i, &row_bytes);
            i += 1;
            assert(self.issued().steps =~= old(self).issued().followed_by_all(
                stores_of_rows(Bank::X, i as nat),
            ).steps);
        }
        proof {
            assert(ret@ =~= self.regs().x);
            crate::state::lemma_rows_joined(self.regs().x, 8);
            assert(self.regs().x.subrange(0, 512) =~= self.regs().x);
        }
        ret
    }

    /// Reads the whole of Y: stores its rows one by one, in the order of
    /// their indices, and joins them.
    fn read_y(&mut self) -> (ret: [u8; XY_BYTES])
        ensures
            final(self).regs() == old(self).regs(),
            ret@ == old(self).regs().y,
            ret@ == rows_joined(old(self).regs().y, 8),
            final(self).issued() == old(self).issued().followed_by_all(
                stores_of_rows(Bank::Y, 8),
            ),
    {
        let mut ret: [u8; XY_BYTES] = [0u8; XY_BYTES];
        let mut row_bytes: [u8; ROW_BYTES] = [0u8; ROW_BYTES];
        proof {
            self.regs_wf();
        }
        assert(self.issued().steps =~= old(self).issued().followed_by_all(
            stores_of_rows(Bank::Y, 0),
        ).steps);
        let mut i: usize = 0;
        while i < Y_ROWS
            invariant
                i <= Y_ROWS,
                self.regs() == old(self).regs(),
                self.regs().wf(),
                forall|k: int| 0 <= k < i * 64 ==> ret@[k] == self.regs().y[k],
                self.issued() == old(self).issued().followed_by_all(
                    stores_of_rows(Bank::Y, i as nat),
                ),
            decreases Y_ROWS - i,
        {
            self.store512(&mut row_bytes, YRow(i));
            write_row(&mut ret, i, &row_bytes);
            i += 1;
            assert(self.issued().steps =~= old(self).issued().followed_by_all(
                stores_of_rows(Bank::Y, i as nat),
            ).steps);
        }
        proof {
            assert(ret@ =~= self.regs().y);
            crate::state::lemma_rows_joined(self.regs().y, 8);
            assert(self.regs().y.subrange(0, 512) =~= self.regs().y);
        }
        ret
    }

    /// Reads the whole of Z: stores its rows one by one, in the order of
    /// their indices, and joins them.
    fn read_z(&mut self) -> (ret: [u8; Z_BYTES])
        ensures
            final(self).regs() == old(self).regs(),
            ret@ == old(self).regs().z,
            ret@ == rows_joined(old(self).regs().z, 64),
            final(self).issued() == old(self).issued().followed_by_all(
                stores_of_rows(Bank::Z, 64),
            ),
    {
        let mut ret: [u8; Z_BYTES] = [0u8; Z_BYTES];
        let mut row_bytes: [u8; ROW_BYTES] = [0u8; ROW_BYTES];
        proof {
            self.regs_wf();
        }
        assert(self.issued().steps =~= old(self).issued().followed_by_all(
            stores_of_rows(Bank::Z, 0),
        ).steps);
        let mut i: usize = 0;
        while i < Z_ROWS
            invariant
                i <= Z_ROWS,
                self.regs() == old(self).regs(),
                self.regs().wf(),
                forall|k: int| 0 <= k < i * 64 ==> ret@[k] == self.regs().z[k],
                self.issued() == old(self).issued().followed_by_all(
                    stores_of_rows(Bank::Z, i as nat),
                ),
            decreases Z_ROWS - i,
        {
            self.store512(&mut row_bytes, ZRow(i));
            write_row(&mut ret, i, &row_bytes);
            i += 1;
            assert(self.issued().steps =~= old(self).issued().followed_by_all(
                stores_of_rows(Bank::Z, i as nat),
            ).steps);
        }
        proof {
            assert(ret@ =~= self.regs().z);
            crate::state::lemma_rows_joined(self.regs().z, 64);
            assert(self.regs().z.subrange(0, 4096) =~= self.regs().z);
        }
        ret
    }

    /// Adds to Z, or writes over it, the outer product of 32 lanes of 16
    /// bits of X with 32 lanes of 16 bits of Y.
    ///
    /// The vectors start at the given byte offsets. Where an offset is
    /// `None` that bank takes no part and nothing is multiplied: the lanes
    /// of the other bank are added as they are, and where both are `None`
    /// nothing is added. The rows of Z that are written are every second
    /// row, the even ones or the odd ones by the lowest bit of `z_index`, so
    /// two values of `z_index` that agree in that bit do the same. With
    /// `accumulate` the result is added to the lanes of Z, without it the
    /// result takes their place. All this is one multiply-accumulate
    /// instruction, whose operand word packs the arguments.
    fn outer_product_i16_xy_to_z(
        &mut self,
        x_offset_bytes: Option<XBytes>,
        y_offset_bytes: Option<YBytes>,
        z_index: ZRow,
        accumulate: bool,
    )
        requires
            x_offset_bytes matches Some(x) ==> x.in_range(),
            y_offset_bytes matches Some(y) ==> y.in_range(),
            z_index.in_range(),
        ensures
            final(self).regs() == outer_product_i16(
                old(self).regs(),
                x_offset_bytes,
                y_offset_bytes,
                z_index,
                accumulate,
            ),
            final(self).issued() == old(self).issued().followed_by(
                Opcode::Mac16,
                MacOperand::word_of(
                    outer_product_fields(x_offset_bytes, y_offset_bytes, z_index, accumulate),
                ),
            ),
    {
        let op = MacOperand::new(x_offset_bytes, y_offset_bytes, z_index, accumulate);
        self.mac16(op.0);
    }

    /// Looks entries of a table up.
    ///
    /// The indices are read from `input`, the table is the row `table` of
    /// X, the result goes to the row `output`, and `ty` gives the widths of
    /// an index and of an entry. Lane by lane, the row `output` receives
    /// the entry of the table that the index of that lane picks. All this
    /// is one lookup instruction, whose operand word packs the arguments.
    fn lut(&mut self, input: LutIn, table: XRow, output: LutOut, ty: LutTy)
        requires
            (Lookup { input, table, output, ty }).valid(),
        ensures
            final(self).regs() == lut_result(
                old(self).regs(),
                (Lookup { input, table, output, ty }),
            ),
            final(self).issued() == old(self).issued().followed_by(
                Opcode::Genlut,
                LutOperand::word_of((Lookup { input, table, output, ty })),
            ),
    {
        let d = Lookup { input, table, output, ty };
        let op = LutOperand::new(&d);
        self.genlut(op.0);
    }

    /// Looks entries of a table up as `lut` does if the lookup can be
    /// issued, and otherwise issues nothing, changes nothing and says what
    /// is wrong.
    fn try_lut(&mut self, input: LutIn, table: XRow, output: LutOut, ty: LutTy) -> (r: Result<
        (),
        LutError,
    >)
        ensures
            r is Ok <==> (Lookup { input, table, output, ty }).valid(),
            r is Ok ==> final(self).regs() == lut_result(
                old(self).regs(),
                (Lookup { input, table, output, ty }),
            ),
            r is Ok ==> final(self).issued() == old(self).issued().followed_by(
                Opcode::Genlut,
                LutOperand::word_of((Lookup { input, table, output, ty })),
            ),
            r matches Err(e) ==> (Lookup { input, table, output, ty }).fault() == Some(e),
            r is Err ==> final(self).regs() == old(self).regs(),
            r is Err ==> final(self).issued() == old(self).issued(),
    {
        let d = Lookup { input, table, output, ty };
        match d.check() {
            Ok(()) => {
                self.lut(input, table, output, ty);
                Ok(())
            },
            Err(e) => Err(e),
        }
    }
}

impl<T: AmxOps> Amx for T {
}

} // verus!
