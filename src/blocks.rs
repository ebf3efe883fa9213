use vstd::prelude::*;
use vstd::arithmetic::div_mod::{lemma_fundamental_div_mod, lemma_fundamental_div_mod_converse};
use crate::error::CodecError;

verus! {

/// How many blocks of side `block_size` the scan keeps along an axis of length
/// `dim`: the scan starts at 0 and steps by `block_size` while the start lies
/// strictly below `dim - block_size`, so a last block that ends exactly at the
/// edge is not kept.
pub open spec fn kept_blocks(dim: int, block_size: int) -> int {
    if dim <= block_size {
        0
    } else {
        (dim - 1) / block_size
    }
}

/// The top-left corner (row, column) of the block with linear index `k`, when
/// blocks are laid out row-major, `per_row` to a row, at a pitch of `pitch`.
pub open spec fn grid_origin(k: int, per_row: int, pitch: int) -> (int, int) {
    ((k / per_row) * pitch, (k % per_row) * pitch)
}

/// The corners of the blocks that the scan of a `height` x `width` plane keeps,
/// in row-major block order.
pub open spec fn scan_origins(height: int, width: int, block_size: int) -> Seq<(int, int)> {
    let per_row = kept_blocks(width, block_size);
    Seq::new(
        (kept_blocks(height, block_size) * per_row) as nat,
        |k: int| grid_origin(k, per_row, block_size),
    )
}

pub open spec fn origins_view(v: Seq<(usize, usize)>) -> Seq<(int, int)> {
    v.map_values(|p: (usize, usize)| (p.0 as int, p.1 as int))
}

/// Rows of the canvas that holds `num_blocks` reconstructed blocks of side
/// `restrict`, `block_row_width` to a row: only whole rows of blocks count.
pub open spec fn canvas_rows(num_blocks: int, block_row_width: int, restrict: int) -> int {
    (num_blocks / block_row_width) * restrict
}

pub open spec fn canvas_cols(block_row_width: int, restrict: int) -> int {
    block_row_width * restrict
}

/// The start `m * block_size` is kept by the scan exactly when `m` is below the
/// count of kept blocks.
pub proof fn lemma_kept_start(dim: int, block_size: int, m: int)
    requires
        block_size > 0,
        m >= 0,
    ensures
        m < kept_blocks(dim, block_size) <==> m * block_size + block_size < dim,
{
    if dim > block_size {
        let q = (dim - 1) / block_size;
        let r = (dim - 1) % block_size;
        lemma_fundamental_div_mod(dim - 1, block_size);
        assert(0 <= r < block_size);
        assert(m < q <==> m * block_size + block_size < dim) by (nonlinear_arith)
            requires
                dim - 1 == block_size * q + r,
                0 <= r < block_size,
                block_size > 0,
                m >= 0,
        ;
    } else {
        assert(m * block_size >= 0) by (nonlinear_arith)
            requires
                m >= 0,
                block_size > 0,
        ;
    }
}

/// For an axis whose length is a positive multiple of the block size, the scan
/// keeps one block fewer than fit along it: the last row or column of blocks is
/// dropped.
pub proof fn lemma_exact_fit_drops_last(dim: int, block_size: int)
    requires
        block_size > 0,
        dim > 0,
        dim % block_size == 0,
    ensures
        kept_blocks(dim, block_size) == dim / block_size - 1,
{
    let q = dim / block_size;
    lemma_fundamental_div_mod(dim, block_size);
    assert(q >= 1) by (nonlinear_arith)
        requires
            dim == block_size * q,
            dim > 0,
            block_size > 0,
    ;
    if dim > block_size {
        assert(dim - 1 == (q - 1) * block_size + (block_size - 1)) by (nonlinear_arith)
            requires
                dim == block_size * q,
        ;
        lemma_fundamental_div_mod_converse(dim - 1, block_size, q - 1, block_size - 1);
    } else {
        assert(q == 1) by (nonlinear_arith)
            requires
                dim == block_size * q,
                dim <= block_size,
                q >= 1,
                block_size > 0,
        ;
    }
}

/// Counts the blocks that the scan keeps along an axis of length `dim`.
pub fn blocks_per_axis(dim: usize, block_size: usize) -> (count: usize)
    requires
        block_size > 0,
    ensures
        count == kept_blocks(dim as int, block_size as int),
        forall|m: int|
            0 <= m ==> (m < count <==> #[trigger] (m * block_size) + block_size < dim),
{
    proof {
        assert forall|m: int| 0 <= m implies (m < kept_blocks(dim as int, block_size as int)
            <==> #[trigger] (m * block_size) + block_size < dim) by {
            lemma_kept_start(dim as int, block_size as int, m);
        }
    }
    if dim <= block_size {
        0
    } else {
        (dim - 1) / block_size
    }
}

/// Lists the top-left corners of the blocks that compression reads from a
/// `height` x `width` plane, in row-major block order. A zero block size is an
/// `InvalidSize`; a coefficient window wider than the block a
/// `DimensionMismatch`. A plane smaller than one block gives no corners.
pub fn block_origins(height: usize, width: usize, block_size: usize, restrict: usize) -> (r: Result<
    Vec<(usize, usize)>,
    CodecError,
>)
    ensures
        block_size == 0 ==> r == Err::<Vec<(usize, usize)>, CodecError>(CodecError::InvalidSize),
        block_size > 0 && restrict > block_size ==> r == Err::<Vec<(usize, usize)>, CodecError>(
            CodecError::DimensionMismatch,
        ),
        block_size > 0 && restrict <= block_size ==> r is Ok,
        r is Ok ==> origins_view(r->Ok_0@) == scan_origins(
            height as int,
            width as int,
            block_size as int,
        ),
        r is Ok ==> forall|k: int|
            0 <= k < r->Ok_0@.len() ==> r->Ok_0@[k].0 + block_size < height
                && r->Ok_0@[k].1 + block_size < width,
{
    if block_size == 0 {
        return Err(CodecError::InvalidSize);
    }
    if restrict > block_size {
        return Err(CodecError::DimensionMismatch);
    }
    let rows = blocks_per_axis(height, block_size);
    let per_row = blocks_per_axis(width, block_size);
    let ghost target = scan_origins(height as int, width as int, block_size as int);
    let mut out: Vec<(usize, usize)> = Vec::new();
    let mut i: usize = 0;
    while i < rows
        invariant
            rows == kept_blocks(height as int, block_size as int),
            per_row == kept_blocks(width as int, block_size as int),
            forall|m: int|
                0 <= m ==> (m < rows <==> #[trigger] (m * block_size) + block_size < height),
            forall|m: int|
                0 <= m ==> (m < per_row <==> #[trigger] (m * block_size) + block_size < width),
            block_size > 0,
            i <= rows,
            out@.len() == i * per_row,
            target == scan_origins(height as int, width as int, block_size as int),
            forall|k: int|
                0 <= k < out@.len() ==> (out@[k].0 as int, out@[k].1 as int) == #[trigger] target[k],
            forall|k: int|
                0 <= k < out@.len() ==> out@[k].0 + block_size < height && out@[k].1 + block_size
                    < width,
        decreases rows - i,
    {
        assert(i * block_size + block_size < height);
        let row = i * block_size;
        let mut j: usize = 0;
        while j < per_row
            invariant
                rows == kept_blocks(height as int, block_size as int),
                per_row == kept_blocks(width as int, block_size as int),
                forall|m: int|
                    0 <= m ==> (m < per_row <==> #[trigger] (m * block_size) + block_size < width),
                block_size > 0,
                i < rows,
                row == i * block_size,
                row + block_size < height,
                j <= per_row,
                out@.len() == i * per_row + j,
                target == scan_origins(height as int, width as int, block_size as int),
                forall|k: int|
                    0 <= k < out@.len() ==> (out@[k].0 as int, out@[k].1 as int)
                        == #[trigger] target[k],
                forall|k: int|
                    0 <= k < out@.len() ==> out@[k].0 + block_size < height && out@[k].1
                        + block_size < width,
            decreases per_row - j,
        {
            assert(j * block_size + block_size < width);
            let ghost k = i * per_row + j;
            proof {
                lemma_fundamental_div_mod_converse(k, per_row as int, i as int, j as int);
                assert(i * per_row + j < rows * per_row) by (nonlinear_arith)
                    requires
                        i < rows,
                        j < per_row,
                ;
            }
            out.push((row, j * block_size));
            j += 1;
        }
        assert((i + 1) * per_row == i * per_row + per_row) by (nonlinear_arith);
        i += 1;
    }
    proof {
        assert(out@.len() == target.len());
        assert(origins_view(out@) =~= target);
    }
    Ok(out)
}

/// Shape of the canvas that decompression fills.
#[derive(Debug, Clone, Copy, PartialEq, Eq, Structural)]
pub struct CanvasPlan {
    pub rows: usize,
    pub cols: usize,
    /// How many blocks, from the start of the list, land on the canvas: the
    /// whole rows of blocks. Blocks past them have no place and are left out.
    pub placed: usize,
}

/// Sizes the canvas for `num_blocks` reconstructed blocks of side `restrict`,
/// laid out row-major with `block_row_width` blocks to a row. A zero width is an
/// `InvalidSize`; a canvas whose side does not fit in `usize` is a
/// `DimensionMismatch`.
pub fn plan_canvas(num_blocks: usize, block_row_width: usize, restrict: usize) -> (r: Result<
    CanvasPlan,
    CodecError,
>)
    ensures
        block_row_width == 0 ==> r == Err::<CanvasPlan, CodecError>(CodecError::InvalidSize),
        block_row_width > 0 ==> (r is Ok <==> canvas_rows(
            num_blocks as int,
            block_row_width as int,
            restrict as int,
        ) <= usize::MAX && canvas_cols(block_row_width as int, restrict as int) <= usize::MAX),
        block_row_width > 0 && !(r is Ok) ==> r == Err::<CanvasPlan, CodecError>(
            CodecError::DimensionMismatch,
        ),
        r is Ok ==> r->Ok_0.rows == canvas_rows(
            num_blocks as int,
            block_row_width as int,
            restrict as int,
        ) && r->Ok_0.cols == canvas_cols(block_row_width as int, restrict as int)
            && r->Ok_0.placed == (num_blocks / block_row_width) * block_row_width
            && r->Ok_0.placed <= num_blocks && r->Ok_0.placed % block_row_width == 0
            && r->Ok_0.rows == canvas_rows(
            r->Ok_0.placed as int,
            block_row_width as int,
            restrict as int,
        ),
{
    if block_row_width == 0 {
        return Err(CodecError::InvalidSize);
    }
    let block_rows = num_blocks / block_row_width;
    proof {
        let n = num_blocks as int;
        let w = block_row_width as int;
        lemma_fundamental_div_mod(n, w);
        assert(block_rows * w <= n) by (nonlinear_arith)
            requires
                n == w * block_rows + n % w,
                0 <= n % w,
        ;
    }
    let placed = block_rows * block_row_width;
    proof {
        lemma_fundamental_div_mod_converse(placed as int, block_row_width as int, block_rows as int, 0);
    }
    match (block_rows.checked_mul(restrict), block_row_width.checked_mul(restrict)) {
        (Some(rows), Some(cols)) => Ok(CanvasPlan { rows, cols, placed }),
        _ => Err(CodecError::DimensionMismatch),
    }
}

/// Where the reconstructed block with linear index `k` goes on the canvas:
/// block row `k / block_row_width`, block column `k % block_row_width`, each
/// `restrict` wide. The block lies wholly inside the canvas.
pub fn block_offset(k: usize, block_row_width: usize, restrict: usize, plan: CanvasPlan) -> (r: (
    usize,
    usize,
))
    requires
        block_row_width > 0,
        plan.rows == canvas_rows(plan.placed as int, block_row_width as int, restrict as int),
        plan.cols == canvas_cols(block_row_width as int, restrict as int),
        plan.placed % block_row_width == 0,
        k < plan.placed,
    ensures
        (r.0 as int, r.1 as int) == grid_origin(k as int, block_row_width as int, restrict as int),
        r.0 + restrict <= plan.rows,
        r.1 + restrict <= plan.cols,
{
    let row = k / block_row_width;
    let col = k % block_row_width;
    proof {
        let n = plan.placed as int;
        let w = block_row_width as int;
        let rf = restrict as int;
        lemma_fundamental_div_mod(k as int, w);
        lemma_fundamental_div_mod(n, w);
        assert(row < n / w) by (nonlinear_arith)
            requires
                k == w * row + col,
                0 <= col,
                n == w * (n / w) + 0,
                k < n,
                w > 0,
        ;
        assert((row + 1) * rf <= (n / w) * rf) by (nonlinear_arith)
            requires
                row < n / w,
                rf >= 0,
        ;
        assert((col + 1) * rf <= w * rf) by (nonlinear_arith)
            requires
                col < w,
                rf >= 0,
        ;
        assert(row * rf + rf == (row + 1) * rf && col * rf + rf == (col + 1) * rf)
            by (nonlinear_arith);
    }
    (row * restrict, col * restrict)
}

/// Reassembling the blocks that a scan kept, with the block-row width of that
/// scan and a coefficient window narrower than the block, yields a canvas
/// strictly smaller than the plane along both axes.
pub proof fn lemma_reconstruction_is_smaller(height: int, width: int, block_size: int, restrict: int)
    requires
        0 <= restrict < block_size,
        0 < height,
        block_size < width,
    ensures
        ({
            let per_row = kept_blocks(width, block_size);
            let num_blocks = scan_origins(height, width, block_size).len() as int;
            &&& canvas_rows(num_blocks, per_row, restrict) < height
            &&& canvas_cols(per_row, restrict) < width
        }),
{
    let per_row = kept_blocks(width, block_size);
    let rows = kept_blocks(height, block_size);
    lemma_kept_start(width, block_size, 0);
    assert(per_row >= 1);
    lemma_kept_start(width, block_size, per_row - 1);
    assert((per_row - 1) * block_size + block_size == per_row * block_size) by (nonlinear_arith);
    assert(per_row * restrict < per_row * block_size) by (nonlinear_arith)
        requires
            per_row >= 1,
            0 <= restrict < block_size,
    ;
    assert(canvas_cols(per_row, restrict) < width);
    if rows > 0 {
        lemma_kept_start(height, block_size, rows - 1);
        assert((rows - 1) * block_size + block_size == rows * block_size) by (nonlinear_arith);
        assert(rows * restrict <= rows * block_size) by (nonlinear_arith)
            requires
                rows > 0,
                0 <= restrict < block_size,
        ;
    } else {
        assert(rows == 0) by {
            if height > block_size {
                lemma_kept_start(height, block_size, 0);
            }
        }
    }
    assert(rows * per_row >= 0) by (nonlinear_arith)
        requires
            rows >= 0,
            per_row >= 1,
    ;
    assert(scan_origins(height, width, block_size).len() == rows * per_row);
    lemma_fundamental_div_mod_converse(rows * per_row, per_row, rows, 0);
    assert(canvas_rows(rows * per_row, per_row, restrict) == rows * restrict);
}

} // verus!
