//! Typed addresses into the register file.
//!
//! A row address and a byte offset into the same bank are different types,
//! and so are addresses into different banks, so that an address meant for Y
//! cannot be handed to an operation that expects one for X.

use vstd::prelude::*;
use crate::state::{ROW_BYTES, XY_BYTES, X_ROWS, Y_ROWS, Z_ROWS};

verus! {

/// A row of X: in range when below [`X_ROWS`].
#[derive(Clone, Copy, Debug, PartialEq, Eq)]
pub struct XRow(pub usize);

/// A row of Y: in range when below [`Y_ROWS`].
#[derive(Clone, Copy, Debug, PartialEq, Eq)]
pub struct YRow(pub usize);

/// A row of Z: in range when below [`Z_ROWS`].
#[derive(Clone, Copy, Debug, PartialEq, Eq)]
pub struct ZRow(pub usize);

/// A byte offset into X: in range when below [`XY_BYTES`].
#[derive(Clone, Copy, Debug, PartialEq, Eq)]
pub struct XBytes(pub usize);

/// A byte offset into Y: in range when below [`XY_BYTES`].
#[derive(Clone, Copy, Debug, PartialEq, Eq)]
pub struct YBytes(pub usize);

impl XRow {
    /// The row lies in the bank.
    pub open spec fn in_range(self) -> bool {
        self.0 < X_ROWS
    }

    /// Whether the row lies in the bank.
    pub fn is_in_range(&self) -> (ok: bool)
        ensures
            ok == self.in_range(),
    {
        self.0 < X_ROWS
    }

    /// The offset of the row's first byte.
    pub fn first_byte(&self) -> (offset: XBytes)
        requires
            self.in_range(),
        ensures
            offset.0 == self.0 * ROW_BYTES,
            offset.in_range(),
    {
        XBytes(self.0 * ROW_BYTES)
    }
}

impl YRow {
    /// The row lies in the bank.
    pub open spec fn in_range(self) -> bool {
        self.0 < Y_ROWS
    }

    /// Whether the row lies in the bank.
    pub fn is_in_range(&self) -> (ok: bool)
        ensures
            ok == self.in_range(),
    {
        self.0 < Y_ROWS
    }

    /// The offset of the row's first byte.
    pub fn first_byte(&self) -> (offset: YBytes)
        requires
            self.in_range(),
        ensures
            offset.0 == self.0 * ROW_BYTES,
            offset.in_range(),
    {
        YBytes(self.0 * ROW_BYTES)
    }
}

impl ZRow {
    /// The row lies in the bank.
    pub open spec fn in_range(self) -> bool {
        self.0 < Z_ROWS
    }

    /// Whether the row lies in the bank.
    pub fn is_in_range(&self) -> (ok: bool)
        ensures
            ok == self.in_range(),
    {
        self.0 < Z_ROWS
    }
}

impl XBytes {
    /// The offset lies in the bank.
    pub open spec fn in_range(self) -> bool {
        self.0 < XY_BYTES
    }

    /// Whether the offset lies in the bank.
    pub fn is_in_range(&self) -> (ok: bool)
        ensures
            ok == self.in_range(),
    {
        self.0 < XY_BYTES
    }

    /// The row that holds the byte at this offset.
    pub fn row(&self) -> (row: XRow)
        ensures
            row.0 == self.0 / ROW_BYTES,
            self.in_range() ==> row.in_range(),
    {
        XRow(self.0 / ROW_BYTES)
    }
}

impl YBytes {
    /// The offset lies in the bank.
    pub open spec fn in_range(self) -> bool {
        self.0 < XY_BYTES
    }

    /// Whether the offset lies in the bank.
    pub fn is_in_range(&self) -> (ok: bool)
        ensures
            ok == self.in_range(),
    {
        self.0 < XY_BYTES
    }

    /// The row that holds the byte at this offset.
    pub fn row(&self) -> (row: YRow)
        ensures
            row.0 == self.0 / ROW_BYTES,
            self.in_range() ==> row.in_range(),
    {
        YRow(self.0 / ROW_BYTES)
    }
}

} // verus!
