//! Matrices as content-store blobs: a frame of the row count, the column
//! count (both `u64`, little-endian) and the cells in row-major order, each
//! the little-endian bit pattern of a 32-bit float.
use vstd::prelude::*;
use vstd::bytes::{
    lemma_auto_spec_u32_to_from_le_bytes, lemma_auto_spec_u64_to_from_le_bytes,
    spec_u32_from_le_bytes, spec_u32_to_le_bytes, spec_u64_from_le_bytes, spec_u64_to_le_bytes,
    u32_from_le_bytes, u32_to_le_bytes, u64_from_le_bytes, u64_to_le_bytes,
};
use vstd::slice::slice_subrange;

verus! {

/// Runs compute tasks on this node.
#[derive(Debug, Clone, Copy, PartialEq, Eq)]
pub struct ComputeEngine;

impl ComputeEngine {
    pub fn new() -> (r: ComputeEngine) {
        ComputeEngine
    }
}

/// A matrix with its cells as float bit patterns, row by row.
#[derive(Debug, Clone, PartialEq, Eq)]
pub struct MatrixFrame {
    pub rows: u64,
    pub cols: u64,
    pub cells: Vec<u32>,
}

/// Why bytes are not a matrix frame.
#[derive(PartialEq, Eq, Structural, Clone, Copy, Debug)]
pub enum MatrixFormatError {
    /// Fewer than the 16 bytes of the header.
    TooShort,
    /// The cells do not fill a whole number of 4-byte groups.
    PartialCell,
    /// The number of cells is not rows × cols.
    ShapeMismatch,
}

pub open spec fn cells_bytes(cells: Seq<u32>) -> Seq<u8>
    decreases cells.len(),
{
    if cells.len() == 0 {
        seq![]
    } else {
        cells_bytes(cells.drop_last()) + spec_u32_to_le_bytes(cells.last())
    }
}

/// The frame of a matrix.
pub open spec fn matrix_frame(rows: u64, cols: u64, cells: Seq<u32>) -> Seq<u8> {
    spec_u64_to_le_bytes(rows) + spec_u64_to_le_bytes(cols) + cells_bytes(cells)
}

proof fn lemma_cells_bytes_len(cells: Seq<u32>)
    ensures
        cells_bytes(cells).len() == 4 * cells.len(),
    decreases cells.len(),
{
    lemma_auto_spec_u32_to_from_le_bytes();
    if cells.len() > 0 {
        lemma_cells_bytes_len(cells.drop_last());
    }
}

/// The frame of `m`.
pub fn serialize_matrix(m: &MatrixFrame) -> (r: Vec<u8>)
    requires
        m.cells@.len() <= (usize::MAX - 16) / 4,
    ensures
        r@ == matrix_frame(m.rows, m.cols, m.cells@),
{
    proof { lemma_auto_spec_u64_to_from_le_bytes(); lemma_auto_spec_u32_to_from_le_bytes(); }
    let mut r = u64_to_le_bytes(m.rows);
    let mut c = u64_to_le_bytes(m.cols);
    r.append(&mut c);
    let n = m.cells.len();
    let mut i: usize = 0;
    assert(m.cells@.subrange(0, 0) =~= seq![]);
    while i < n
        invariant
            n == m.cells@.len(),
            i <= n,
            r@ == spec_u64_to_le_bytes(m.rows) + spec_u64_to_le_bytes(m.cols) + cells_bytes(
                m.cells@.subrange(0, i as int),
            ),
        decreases n - i,
    {
        let mut b = u32_to_le_bytes(m.cells[i]);
        proof { lemma_auto_spec_u32_to_from_le_bytes(); }
        let ghost prev = r@;
        r.append(&mut b);
        let ghost sub = m.cells@.subrange(0, i + 1);
        assert(sub.drop_last() =~= m.cells@.subrange(0, i as int));
        assert(sub.last() == m.cells@[i as int]);
        assert(r@ =~= spec_u64_to_le_bytes(m.rows) + spec_u64_to_le_bytes(m.cols) + cells_bytes(sub));
        i = i + 1;
    }
    assert(m.cells@.subrange(0, n as int) =~= m.cells@);
    r
}

/// Reads a matrix frame. The header gives the shape; the rest must be whole
/// cells, exactly rows × cols of them.
pub fn deserialize_matrix(bytes: &[u8]) -> (r: Result<MatrixFrame, MatrixFormatError>)
    ensures
        bytes@.len() < 16 ==> r == Err::<MatrixFrame, MatrixFormatError>(MatrixFormatError::TooShort),
        bytes@.len() >= 16 && (bytes@.len() - 16) % 4 != 0 ==> r == Err::<MatrixFrame, MatrixFormatError>(
            MatrixFormatError::PartialCell,
        ),
        bytes@.len() >= 16 && (bytes@.len() - 16) % 4 == 0 ==> {
            let rows = spec_u64_from_le_bytes(bytes@.subrange(0, 8));
            let cols = spec_u64_from_le_bytes(bytes@.subrange(8, 16));
            if rows * cols == (bytes@.len() - 16) / 4 {
                r matches Ok(m) && m.rows == rows && m.cols == cols && matrix_frame(m.rows, m.cols, m.cells@) == bytes@
                    && m.cells@.len() == rows * cols
            } else {
                r == Err::<MatrixFrame, MatrixFormatError>(MatrixFormatError::ShapeMismatch)
            }
        },
{
    proof { lemma_auto_spec_u64_to_from_le_bytes(); lemma_auto_spec_u32_to_from_le_bytes(); }
    let len = bytes.len();
    if len < 16 {
        return Err(MatrixFormatError::TooShort);
    }
    if (len - 16) % 4 != 0 {
        return Err(MatrixFormatError::PartialCell);
    }
    let rows = u64_from_le_bytes(slice_subrange(bytes, 0, 8));
    let cols = u64_from_le_bytes(slice_subrange(bytes, 8, 16));
    let count = (len - 16) / 4;
    match rows.checked_mul(cols) {
        Some(p) => {
            if p != count as u64 {
                return Err(MatrixFormatError::ShapeMismatch);
            }
        },
        None => {
            return Err(MatrixFormatError::ShapeMismatch);
        },
    }
    let mut cells: Vec<u32> = Vec::new();
    let mut i: usize = 0;
    while i < count
        invariant
            len == bytes@.len(),
            count == (len - 16) / 4,
            (len - 16) % 4 == 0,
            i <= count,
            cells@.len() == i,
            cells_bytes(cells@) == bytes@.subrange(16, 16 + 4 * i),
        decreases count - i,
    {
        let start = 16 + 4 * i;
        let group = slice_subrange(bytes, start, start + 4);
        let c = u32_from_le_bytes(group);
        proof { lemma_auto_spec_u32_to_from_le_bytes(); }
        let ghost prev = cells@;
        cells.push(c);
        assert(cells@.drop_last() =~= prev);
        assert(spec_u32_to_le_bytes(c) == group@);
        assert(bytes@.subrange(16, 16 + 4 * (i + 1)) =~= bytes@.subrange(16, 16 + 4 * i) + group@);
        i = i + 1;
    }
    assert(bytes@.subrange(0, 8) + bytes@.subrange(8, 16) + bytes@.subrange(16, len as int) =~= bytes@);
    Ok(MatrixFrame { rows, cols, cells })
}

/// A frame read back gives the shape it was written with, and its cells
/// take up four bytes each after the 16-byte header.
pub proof fn lemma_frame_header(rows: u64, cols: u64, cells: Seq<u32>)
    ensures
        matrix_frame(rows, cols, cells).len() == 16 + 4 * cells.len(),
        spec_u64_from_le_bytes(matrix_frame(rows, cols, cells).subrange(0, 8)) == rows,
        spec_u64_from_le_bytes(matrix_frame(rows, cols, cells).subrange(8, 16)) == cols,
{
    lemma_auto_spec_u64_to_from_le_bytes();
    lemma_cells_bytes_len(cells);
    let f = matrix_frame(rows, cols, cells);
    assert(f.subrange(0, 8) =~= spec_u64_to_le_bytes(rows));
    assert(f.subrange(8, 16) =~= spec_u64_to_le_bytes(cols));
}

proof fn lemma_cells_bytes_injective(a: Seq<u32>, b: Seq<u32>)
    requires
        cells_bytes(a) == cells_bytes(b),
    ensures
        a == b,
    decreases a.len(),
{
    lemma_auto_spec_u32_to_from_le_bytes();
    lemma_cells_bytes_len(a);
    lemma_cells_bytes_len(b);
    if a.len() > 0 {
        let n = cells_bytes(a).len() as int;
        lemma_cells_bytes_len(a.drop_last());
        lemma_cells_bytes_len(b.drop_last());
        let ta = spec_u32_to_le_bytes(a.last());
        let tb = spec_u32_to_le_bytes(b.last());
        assert(cells_bytes(a).subrange(n - 4, n) =~= ta);
        assert(cells_bytes(b).subrange(n - 4, n) =~= tb);
        assert(spec_u32_from_le_bytes(ta) == a.last());
        assert(spec_u32_from_le_bytes(tb) == b.last());
        assert(cells_bytes(a).subrange(0, n - 4) =~= cells_bytes(a.drop_last()));
        assert(cells_bytes(b).subrange(0, n - 4) =~= cells_bytes(b.drop_last()));
        lemma_cells_bytes_injective(a.drop_last(), b.drop_last());
        assert(a =~= a.drop_last().push(a.last()));
        assert(b =~= b.drop_last().push(b.last()));
    } else {
        assert(a =~= b);
    }
}

/// Two matrices with the same frame are the same matrix, so reading back a
/// written frame gives the matrix that was written.
pub proof fn lemma_frame_injective(r1: u64, c1: u64, a: Seq<u32>, r2: u64, c2: u64, b: Seq<u32>)
    requires
        matrix_frame(r1, c1, a) == matrix_frame(r2, c2, b),
    ensures
        r1 == r2,
        c1 == c2,
        a == b,
{
    lemma_frame_header(r1, c1, a);
    lemma_frame_header(r2, c2, b);
    let f = matrix_frame(r1, c1, a);
    lemma_auto_spec_u64_to_from_le_bytes();
    assert(f.subrange(16, f.len() as int) =~= cells_bytes(a));
    assert(matrix_frame(r2, c2, b).subrange(16, f.len() as int) =~= cells_bytes(b));
    lemma_cells_bytes_injective(a, b);
}

} // verus!
