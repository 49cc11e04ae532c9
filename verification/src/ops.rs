//! The primitive instructions.
//!
//! Whatever drives a register file, the coprocessor itself or a model of it
//! in memory, offers the same few instructions. Each takes one 64-bit operand
//! word, and the transfers take a 64-byte buffer as well. Each is one step:
//! its contract gives the register file after it as a function of the
//! register file before it and of its arguments, and adds the instruction to
//! the record of what was issued.

use vstd::prelude::*;
use crate::genlut::{lut_result, LutOperand};
use crate::load_store::{Bank, TransferOperand};
use crate::mac::{mac16_step, MacOperand};
use crate::state::RegFile;

verus! {

/// The primitive instructions by name.
#[derive(Clone, Copy, Debug, PartialEq, Eq)]
pub enum Opcode {
    Ldx,
    Ldy,
    Ldz,
    Ldzi,
    Stx,
    Sty,
    Stz,
    Stzi,
    Mac16,
    Fma32,
    Genlut,
}

impl Opcode {
    /// The instruction that loads a row of `bank`.
    pub open spec fn load(bank: Bank) -> Opcode {
        match bank {
            Bank::X => Opcode::Ldx,
            Bank::Y => Opcode::Ldy,
            Bank::Z => Opcode::Ldz,
        }
    }

    /// The instruction that stores a row of `bank`.
    pub open spec fn store(bank: Bank) -> Opcode {
        match bank {
            Bank::X => Opcode::Stx,
            Bank::Y => Opcode::Sty,
            Bank::Z => Opcode::Stz,
        }
    }
}

/// One instruction as it was issued: which one, and with what operand word.
pub struct Issued {
    pub op: Opcode,
    /// The operand word, as a number.
    pub operand: int,
}

/// The instructions that were issued to a register file, oldest first.
pub struct Trace {
    pub steps: Seq<Issued>,
}

impl Trace {
    /// The record with nothing in it.
    pub open spec fn empty() -> Trace {
        Trace { steps: Seq::empty() }
    }

    /// This record with one more instruction at its end.
    pub open spec fn followed_by(self, op: Opcode, operand: int) -> Trace {
        Trace { steps: self.steps.push(Issued { op, operand }) }
    }

    /// This record with the instructions of `more` at its end.
    pub open spec fn followed_by_all(self, more: Seq<Issued>) -> Trace {
        Trace { steps: self.steps + more }
    }
}

/// The primitive instructions over one register file.
pub trait AmxOps: Sized {
    /// The contents of the register file.
    spec fn regs(&self) -> RegFile;

    /// The instructions issued so far.
    spec fn issued(&self) -> Trace;

    /// Every bank of the register file has its full size.
    proof fn regs_wf(&self)
        ensures
            self.regs().wf(),
    ;

    /// Loads `data` into a row of X.
    fn ldx(&mut self, operand: u64, data: &[u8; 64])
        requires
            TransferOperand(operand).valid_for(8),
        ensures
            final(self).regs() == old(self).regs().put_x_row(
                TransferOperand(operand).row_field(),
                data@,
            ),
            final(self).issued() == old(self).issued().followed_by(Opcode::Ldx, operand as int),
    ;

    /// Loads `data` into a row of Y.
    fn ldy(&mut self, operand: u64, data: &[u8; 64])
        requires
            TransferOperand(operand).valid_for(8),
        ensures
            final(self).regs() == old(self).regs().put_y_row(
                TransferOperand(operand).row_field(),
                data@,
            ),
            final(self).issued() == old(self).issued().followed_by(Opcode::Ldy, operand as int),
    ;

    /// Loads `data` into a row of Z.
    fn ldz(&mut self, operand: u64, data: &[u8; 64])
        requires
            TransferOperand(operand).valid_for(64),
        ensures
            final(self).regs() == old(self).regs().put_z_row(
                TransferOperand(operand).row_field(),
                data@,
            ),
            final(self).issued() == old(self).issued().followed_by(Opcode::Ldz, operand as int),
    ;

    /// Loads `data` into Z with interleaving.
    fn ldzi(&mut self, operand: u64, data: &[u8; 64])
        requires
            TransferOperand(operand).valid_for(64),
        ensures
            final(self).regs() == old(self).regs().put_z_interleaved(
                TransferOperand(operand).row_field(),
                data@,
            ),
            final(self).issued() == old(self).issued().followed_by(Opcode::Ldzi, operand as int),
    ;

    /// Stores a row of X into `data`.
    fn stx(&mut self, operand: u64, data: &mut [u8; 64])
        requires
            TransferOperand(operand).valid_for(8),
        ensures
            final(self).regs() == old(self).regs(),
            final(self).issued() == old(self).issued().followed_by(Opcode::Stx, operand as int),
            final(data)@ == old(self).regs().x_row(TransferOperand(operand).row_field()),
    ;

    /// Stores a row of Y into `data`.
    fn sty(&mut self, operand: u64, data: &mut [u8; 64])
        requires
            TransferOperand(operand).valid_for(8),
        ensures
            final(self).regs() == old(self).regs(),
            final(self).issued() == old(self).issued().followed_by(Opcode::Sty, operand as int),
            final(data)@ == old(self).regs().y_row(TransferOperand(operand).row_field()),
    ;

    /// Stores a row of Z into `data`.
    fn stz(&mut self, operand: u64, data: &mut [u8; 64])
        requires
            TransferOperand(operand).valid_for(64),
        ensures
            final(self).regs() == old(self).regs(),
            final(self).issued() == old(self).issued().followed_by(Opcode::Stz, operand as int),
            final(data)@ == old(self).regs().z_row(TransferOperand(operand).row_field()),
    ;

    /// Stores 64 bytes of Z into `data` with interleaving.
    fn stzi(&mut self, operand: u64, data: &mut [u8; 64])
        requires
            TransferOperand(operand).valid_for(64),
        ensures
            final(self).regs() == old(self).regs(),
            final(self).issued() == old(self).issued().followed_by(Opcode::Stzi, operand as int),
            final(data)@ == old(self).regs().z_interleaved(TransferOperand(operand).row_field()),
    ;

    /// Carries out one 16-bit multiply-accumulate step.
    fn mac16(&mut self, operand: u64)
        requires
            MacOperand(operand).valid(),
        ensures
            final(self).regs() == mac16_step(old(self).regs(), MacOperand(operand).fields()),
            final(self).issued() == old(self).issued().followed_by(Opcode::Mac16, operand as int),
    ;

    /// Carries out one table lookup.
    fn genlut(&mut self, operand: u64)
        requires
            LutOperand(operand).valid(),
        ensures
            LutOperand(operand).lookup() matches Some(d) && final(self).regs() == lut_result(
                old(self).regs(),
                d,
            ),
            final(self).issued() == old(self).issued().followed_by(Opcode::Genlut, operand as int),
    ;
}

} // verus!
