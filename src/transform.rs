use vstd::prelude::*;
use crate::error::CodecError;

verus! {

/// Checks that a block of `rows` x `cols` can go through a transform of size
/// `n`: a zero size is an `InvalidSize`, a block that is not `n` x `n` a
/// `DimensionMismatch`.
pub fn check_block_shape(rows: usize, cols: usize, n: usize) -> (r: Result<(), CodecError>)
    ensures
        n == 0 ==> r == Err::<(), CodecError>(CodecError::InvalidSize),
        n > 0 && (rows != n || cols != n) ==> r == Err::<(), CodecError>(
            CodecError::DimensionMismatch,
        ),
        r is Ok <==> n > 0 && rows == n && cols == n,
{
    if n == 0 {
        Err(CodecError::InvalidSize)
    } else if rows != n || cols != n {
        Err(CodecError::DimensionMismatch)
    } else {
        Ok(())
    }
}

} // verus!
