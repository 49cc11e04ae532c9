//! The register file as a mathematical value.
//!
//! The coprocessor holds three banks of 64-byte rows: X and Y with 8 rows
//! each and Z with 64 rows. Every contract in this crate speaks of a bank as
//! one flat sequence of bytes, row after row, so that a row index `r` and a
//! byte offset `64 * r` name the same storage.

use vstd::prelude::*;

verus! {

/// Bytes in one register row.
pub const ROW_BYTES: usize = 64;

/// Rows in the X bank.
pub const X_ROWS: usize = 8;

/// Rows in the Y bank.
pub const Y_ROWS: usize = 8;

/// Rows in the Z bank.
pub const Z_ROWS: usize = 64;

/// Bytes in the X bank, and in the Y bank.
pub const XY_BYTES: usize = 512;

/// Bytes in the Z bank.
pub const Z_BYTES: usize = 4096;

/// The contents of the three banks.
pub struct RegFile {
    /// X, 8 rows of 64 bytes.
    pub x: Seq<u8>,
    /// Y, 8 rows of 64 bytes.
    pub y: Seq<u8>,
    /// Z, 64 rows of 64 bytes.
    pub z: Seq<u8>,
}

impl RegFile {
    /// Every bank has its full size.
    pub open spec fn wf(self) -> bool {
        &&& self.x.len() == 512
        &&& self.y.len() == 512
        &&& self.z.len() == 4096
    }

    /// The register file with every byte zero.
    pub open spec fn zeroed() -> RegFile {
        RegFile {
            x: Seq::new(512, |k: int| 0u8),
            y: Seq::new(512, |k: int| 0u8),
            z: Seq::new(4096, |k: int| 0u8),
        }
    }

    /// Row `row` of X.
    pub open spec fn x_row(self, row: int) -> Seq<u8> {
        row_of(self.x, row)
    }

    /// Row `row` of Y.
    pub open spec fn y_row(self, row: int) -> Seq<u8> {
        row_of(self.y, row)
    }

    /// Row `row` of Z.
    pub open spec fn z_row(self, row: int) -> Seq<u8> {
        row_of(self.z, row)
    }

    /// This register file with row `row` of X replaced by `data`.
    pub open spec fn put_x_row(self, row: int, data: Seq<u8>) -> RegFile {
        RegFile { x: with_row(self.x, row, data), ..self }
    }

    /// This register file with row `row` of Y replaced by `data`.
    pub open spec fn put_y_row(self, row: int, data: Seq<u8>) -> RegFile {
        RegFile { y: with_row(self.y, row, data), ..self }
    }

    /// This register file with row `row` of Z replaced by `data`.
    pub open spec fn put_z_row(self, row: int, data: Seq<u8>) -> RegFile {
        RegFile { z: with_row(self.z, row, data), ..self }
    }
}

/// The 64 bytes of row `row` of a bank.
pub open spec fn row_of(bank: Seq<u8>, row: int) -> Seq<u8> {
    bank.subrange(row * 64, row * 64 + 64)
}

/// The bank with the 64 bytes of row `row` replaced by `data`.
pub open spec fn with_row(bank: Seq<u8>, row: int, data: Seq<u8>) -> Seq<u8> {
    Seq::new(
        bank.len(),
        |k: int|
            if row * 64 <= k < row * 64 + 64 {
                data[k - row * 64]
            } else {
                bank[k]
            },
    )
}

/// Copies `data` over row `row` of a buffer that holds whole rows.
pub fn write_row<const N: usize>(bank: &mut [u8; N], row: usize, data: &[u8; 64])
    requires
        row * 64 + 64 <= N,
    ensures
        final(bank)@ == with_row(old(bank)@, row as int, data@),
{
    let base: usize = row * 64;
    let mut i: usize = 0;
    while i < 64
        invariant
            i <= 64,
            base == row * 64,
            base + 64 <= N,
            forall|k: int|
                0 <= k < N ==> bank@[k] == if base <= k < base + i {
                    data@[k - base]
                } else {
                    old(bank)@[k]
                },
        decreases 64 - i,
    {
        bank[base + i] = data[i];
        i += 1;
    }
    assert(bank@ =~= with_row(old(bank)@, row as int, data@));
}

/// Copies row `row` of a buffer that holds whole rows into `data`.
pub fn read_row<const N: usize>(bank: &[u8; N], row: usize, data: &mut [u8; 64])
    requires
        row * 64 + 64 <= N,
    ensures
        final(data)@ == row_of(bank@, row as int),
{
    let base: usize = row * 64;
    let mut i: usize = 0;
    while i < 64
        invariant
            i <= 64,
            base == row * 64,
            base + 64 <= N,
            forall|k: int| 0 <= k < i ==> data@[k] == bank@[base + k],
        decreases 64 - i,
    {
        data[i] = bank[base + i];
        i += 1;
    }
    assert(data@ =~= row_of(bank@, row as int));
}

/// The first `n` rows of a bank, one after the other.
pub open spec fn rows_joined(bank: Seq<u8>, n: nat) -> Seq<u8>
    decreases n,
{
    if n == 0 {
        Seq::empty()
    } else {
        rows_joined(bank, (n - 1) as nat) + row_of(bank, n - 1)
    }
}

/// The first `n` rows of a bank, one after the other, are the first `64 * n`
/// bytes of the bank: a bank is its rows in the order of their indices.
pub proof fn lemma_rows_joined(bank: Seq<u8>, n: nat)
    requires
        64 * n <= bank.len(),
    ensures
        rows_joined(bank, n) == bank.subrange(0, 64 * (n as int)),
    decreases n,
{
    if n == 0 {
        assert(rows_joined(bank, n) =~= bank.subrange(0, 0));
    } else {
        lemma_rows_joined(bank, (n - 1) as nat);
        assert(rows_joined(bank, n) =~= bank.subrange(0, 64 * (n as int)));
    }
}

/// The unsigned 16-bit value whose low byte is `lo` and whose high byte is `hi`.
pub open spec fn word16(lo: u8, hi: u8) -> int {
    lo as int + 256 * (hi as int)
}

/// The signed reading of a 16-bit pattern given as an unsigned value.
pub open spec fn signed16(v: int) -> int {
    if v < 0x8000 {
        v
    } else {
        v - 0x10000
    }
}

/// Lane `i` of the 16-bit vector that starts `offset` bytes into a 512-byte
/// bank, read little-endian. The read wraps round from the last byte of the
/// bank to the first.
pub open spec fn lane16(bank: Seq<u8>, offset: int, i: int) -> int {
    word16(bank[(offset + 2 * i) % 512], bank[(offset + 2 * i + 1) % 512])
}

/// Lane `i` of row `row` of Z, read as a little-endian 16-bit value.
pub open spec fn z_lane16(z: Seq<u8>, row: int, i: int) -> int {
    word16(z[row * 64 + 2 * i], z[row * 64 + 2 * i + 1])
}

/// Lane `i` of a 64-byte buffer, read as a little-endian 16-bit value.
pub open spec fn buf_lane16(buf: Seq<u8>, i: int) -> int {
    word16(buf[2 * i], buf[2 * i + 1])
}

/// The unsigned 32-bit value whose bytes, lowest first, are `b0` to `b3`.
pub open spec fn word32(b0: u8, b1: u8, b2: u8, b3: u8) -> int {
    b0 as int + 0x100 * (b1 as int) + 0x1_0000 * (b2 as int) + 0x100_0000 * (b3 as int)
}

/// Byte `k` of the unsigned 32-bit value `v`, counted from the lowest.
pub open spec fn byte_of_word32(v: int, k: int) -> int {
    if k == 0 {
        v % 0x100
    } else if k == 1 {
        (v / 0x100) % 0x100
    } else if k == 2 {
        (v / 0x1_0000) % 0x100
    } else {
        (v / 0x100_0000) % 0x100
    }
}

/// Lane `i` of the 32-bit vector that starts `offset` bytes into a 512-byte
/// bank, read little-endian as a bit pattern. The read wraps round from the
/// last byte of the bank to the first.
pub open spec fn lane32(bank: Seq<u8>, offset: int, i: int) -> int {
    word32(
        bank[(offset + 4 * i) % 512],
        bank[(offset + 4 * i + 1) % 512],
        bank[(offset + 4 * i + 2) % 512],
        bank[(offset + 4 * i + 3) % 512],
    )
}

/// Lane `i` of row `row` of Z, read little-endian as a 32-bit pattern.
pub open spec fn z_lane32(z: Seq<u8>, row: int, i: int) -> int {
    word32(
        z[row * 64 + 4 * i],
        z[row * 64 + 4 * i + 1],
        z[row * 64 + 4 * i + 2],
        z[row * 64 + 4 * i + 3],
    )
}

} // verus!
