use vstd::prelude::*;
use vstd::arithmetic::div_mod::{lemma_fundamental_div_mod, lemma_fundamental_div_mod_converse};
use std::collections::HashMap;
use crate::error::CodecError;

verus! {

broadcast use vstd::std_specs::hash::group_hash_axioms;

/// Side of the base quantization table.
pub const TABLE_SIZE: usize = 8;

/// The base table of perceptual weights (the luminance table of baseline
/// JPEG), row-major.
pub open spec fn base_weights() -> Seq<int> {
    seq![
        16, 11, 10, 16, 24, 40, 51, 61,
        12, 12, 14, 19, 26, 58, 60, 55,
        14, 13, 16, 24, 40, 57, 69, 56,
        14, 17, 22, 29, 51, 87, 80, 62,
        18, 22, 37, 56, 68, 109, 103, 77,
        24, 35, 55, 64, 81, 104, 113, 92,
        49, 64, 78, 87, 103, 121, 120, 101,
        72, 92, 95, 98, 112, 100, 103, 99,
    ]
}

pub open spec fn base_weight(i: int, j: int) -> int {
    base_weights()[i * 8 + j]
}

pub open spec fn valid_level(level: int) -> bool {
    1 <= level <= 100
}

/// The factor by which a quality level scales the base table is
/// `scale_numerator(level) / scale_denominator(level)`: `(100 - level) / 50`
/// above 50, `50 / level` below 50, and 1 at 50.
pub open spec fn scale_numerator(level: int) -> int {
    if level > 50 {
        100 - level
    } else if level < 50 {
        50
    } else {
        1
    }
}

pub open spec fn scale_denominator(level: int) -> int {
    if level > 50 {
        50
    } else if level < 50 {
        level
    } else {
        1
    }
}

/// Numerators of the top-left `size` x `size` part of the table for `level`,
/// row-major, over the common denominator `scale_denominator(level)`.
pub open spec fn scaled_numerators(level: int, size: int) -> Seq<int> {
    Seq::new(
        (size * size) as nat,
        |k: int| base_weight(k / size, k % size) * scale_numerator(level),
    )
}

/// A square quantization table held exactly: entry (i, j) is
/// `numerators[i * size + j] / denominator`.
#[derive(Debug)]
pub struct ScaledTable {
    pub size: usize,
    pub numerators: Vec<u64>,
    pub denominator: u32,
}

impl ScaledTable {
    pub open spec fn entries(&self) -> Seq<int> {
        self.numerators@.map_values(|v: u64| v as int)
    }

    /// This is the top-left `size` x `size` part of the table for `level`.
    pub open spec fn is_table_of(&self, level: int, size: int) -> bool {
        &&& self.size == size
        &&& self.denominator == scale_denominator(level)
        &&& self.entries() == scaled_numerators(level, size)
    }

    /// Copies the top-left `size` x `size` part of the table.
    pub fn top_left(&self, size: usize, Ghost(level): Ghost<int>) -> (r: ScaledTable)
        requires
            self.is_table_of(level, self.size as int),
            size <= self.size,
        ensures
            r.is_table_of(level, size as int),
    {
        let n = self.size;
        assert(self.numerators@.len() == self.entries().len());
        let len = self.numerators.len();
        let mut out: Vec<u64> = Vec::new();
        let mut i: usize = 0;
        while i < size
            invariant
                self.is_table_of(level, n as int),
                len == self.numerators@.len(),
                len == n * n,
                size <= n,
                i <= size,
                out@.len() == i * size,
                forall|k: int|
                    0 <= k < out@.len() ==> out@[k] as int == #[trigger] scaled_numerators(
                        level,
                        size as int,
                    )[k],
            decreases size - i,
        {
            let mut j: usize = 0;
            while j < size
                invariant
                    self.is_table_of(level, n as int),
                    len == self.numerators@.len(),
                len == n * n,
                    size <= n,
                    i < size,
                    j <= size,
                    out@.len() == i * size + j,
                    forall|k: int|
                        0 <= k < out@.len() ==> out@[k] as int == #[trigger] scaled_numerators(
                            level,
                            size as int,
                        )[k],
                decreases size - j,
            {
                proof {
                    assert(i * n + j < n * n) by (nonlinear_arith)
                        requires
                            i < size,
                            j < size,
                            size <= n,
                    ;
                    assert(i * size + j < size * size) by (nonlinear_arith)
                        requires
                            i < size,
                            j < size,
                    ;
                    lemma_fundamental_div_mod_converse(i * n + j, n as int, i as int, j as int);
                    lemma_fundamental_div_mod_converse(
                        i * size + j,
                        size as int,
                        i as int,
                        j as int,
                    );
                    assert(self.entries()[i * n + j] == self.numerators@[i * n + j] as int);
                }
                out.push(self.numerators[i * n + j]);
                j += 1;
            }
            assert((i + 1) * size == i * size + size) by (nonlinear_arith);
            i += 1;
        }
        let r = ScaledTable { size, numerators: out, denominator: self.denominator };
        assert(r.entries() =~= scaled_numerators(level, size as int));
        r
    }
}

/// The base table as stored.
fn base_table() -> (r: Vec<u32>)
    ensures
        r@.map_values(|v: u32| v as int) == base_weights(),
{
    let r: Vec<u32> = vec![
        16, 11, 10, 16, 24, 40, 51, 61,
        12, 12, 14, 19, 26, 58, 60, 55,
        14, 13, 16, 24, 40, 57, 69, 56,
        14, 17, 22, 29, 51, 87, 80, 62,
        18, 22, 37, 56, 68, 109, 103, 77,
        24, 35, 55, 64, 81, 104, 113, 92,
        49, 64, 78, 87, 103, 121, 120, 101,
        72, 92, 95, 98, 112, 100, 103, 99,
    ];
    assert(r@.map_values(|v: u32| v as int) =~= base_weights());
    r
}

/// Builds the full table for a quality level from the base table.
fn generate_quantization_matrix(level: u32) -> (r: ScaledTable)
    requires
        valid_level(level as int),
    ensures
        r.is_table_of(level as int, TABLE_SIZE as int),
{
    let base = base_table();
    let ghost base_ints = base@.map_values(|v: u32| v as int);
    assert(base@.len() == base_ints.len());
    let (num, den): (u32, u32) = if level > 50 {
        (100 - level, 50)
    } else if level < 50 {
        (50, level)
    } else {
        (1, 1)
    };
    let mut out: Vec<u64> = Vec::new();
    let mut k: usize = 0;
    while k < TABLE_SIZE * TABLE_SIZE
        invariant
            base_ints == base@.map_values(|v: u32| v as int),
            base_ints == base_weights(),
            base@.len() == 64,
            num == scale_numerator(level as int),
            num <= 100,
            k <= 64,
            out@.len() == k,
            forall|t: int|
                0 <= t < k ==> out@[t] as int == #[trigger] scaled_numerators(level as int, 8)[t],
        decreases 64 - k,
    {
        proof {
            lemma_fundamental_div_mod(k as int, 8);
            assert(base_ints[k as int] == base@[k as int] as int);
            assert((base@[k as int] as u64) * (num as u64) <= 0xffff_ffff * 100) by (nonlinear_arith)
                requires
                    num <= 100,
            ;
        }
        out.push((base[k] as u64) * (num as u64));
        k += 1;
    }
    let r = ScaledTable { size: TABLE_SIZE, numerators: out, denominator: den };
    assert(r.entries() =~= scaled_numerators(level as int, 8));
    r
}

/// Quality-scaled quantization tables, each derived from the base table once
/// per level and kept for the life of the calculator.
pub struct QuantizationCalculator {
    quantization_matrices: HashMap<u32, ScaledTable>,
}

impl QuantizationCalculator {
    /// Every cached table is the full table of its level.
    pub closed spec fn wf(&self) -> bool {
        forall|l: u32| #[trigger]
            self.quantization_matrices@.contains_key(l) ==> valid_level(l as int)
                && self.quantization_matrices@[l].is_table_of(l as int, TABLE_SIZE as int)
    }

    /// The levels whose tables have been derived.
    pub closed spec fn cached_levels(&self) -> Set<u32> {
        self.quantization_matrices@.dom()
    }

    /// A calculator with the table of `required_quality_level` derived. A level
    /// outside 1..=100 is an `InvalidQualityLevel`.
    pub fn new(required_quality_level: u32) -> (r: Result<Self, CodecError>)
        ensures
            r is Ok <==> valid_level(required_quality_level as int),
            !valid_level(required_quality_level as int) ==> r == Err::<Self, CodecError>(
                CodecError::InvalidQualityLevel,
            ),
            r is Ok ==> r->Ok_0.wf() && r->Ok_0.cached_levels() == set![required_quality_level],
    {
        let mut calc = QuantizationCalculator { quantization_matrices: HashMap::new() };
        let got = calc.get_quantization_matrix(required_quality_level);
        match got {
            Ok(_) => {
                assert(calc.cached_levels() =~= set![required_quality_level]);
                Ok(calc)
            },
            Err(e) => Err(e),
        }
    }

    /// The full table of `required_quality_level`, derived on first request and
    /// cached. A level outside 1..=100 is an `InvalidQualityLevel`, and leaves
    /// the cache as it was.
    pub fn get_quantization_matrix(&mut self, required_quality_level: u32) -> (r: Result<
        ScaledTable,
        CodecError,
    >)
        requires
            old(self).wf(),
        ensures
            final(self).wf(),
            r is Ok <==> valid_level(required_quality_level as int),
            !valid_level(required_quality_level as int) ==> r == Err::<ScaledTable, CodecError>(
                CodecError::InvalidQualityLevel,
            ) && final(self).cached_levels() == old(self).cached_levels(),
            r is Ok ==> r->Ok_0.is_table_of(required_quality_level as int, TABLE_SIZE as int)
                && final(self).cached_levels() == old(self).cached_levels().insert(
                required_quality_level,
            ),
    {
        let level = required_quality_level;
        if level == 0 || level > 100 {
            return Err(CodecError::InvalidQualityLevel);
        }
        match self.quantization_matrices.get(&level) {
            Some(table) => {
                assert(self.quantization_matrices@.contains_key(level));
                let copy = table.top_left(TABLE_SIZE, Ghost(level as int));
                assert(self.cached_levels().insert(level) =~= self.cached_levels());
                Ok(copy)
            },
            None => {
                let table = generate_quantization_matrix(level);
                let copy = table.top_left(TABLE_SIZE, Ghost(level as int));
                self.quantization_matrices.insert(level, table);
                Ok(copy)
            },
        }
    }

    /// The table that quantizes a transformed block with `cols` columns at
    /// `required_quality_level`: the full table for eight columns, its
    /// top-left `cols` x `cols` part for fewer. Errors, in this order: a level
    /// outside 1..=100 is an `InvalidQualityLevel`; more than eight columns a
    /// `DimensionMismatch`; at level 100 the scale is zero, so a non-empty table
    /// is all zeros and a `SingularTable`.
    pub fn quantization_table(&mut self, required_quality_level: u32, cols: usize) -> (r: Result<
        ScaledTable,
        CodecError,
    >)
        requires
            old(self).wf(),
        ensures
            final(self).wf(),
            !valid_level(required_quality_level as int) ==> r == Err::<ScaledTable, CodecError>(
                CodecError::InvalidQualityLevel,
            ) && final(self).cached_levels() == old(self).cached_levels(),
            valid_level(required_quality_level as int) ==> final(self).cached_levels() == old(
                self,
            ).cached_levels().insert(required_quality_level),
            valid_level(required_quality_level as int) && cols > TABLE_SIZE ==> r == Err::<
                ScaledTable,
                CodecError,
            >(CodecError::DimensionMismatch),
            valid_level(required_quality_level as int) && cols <= TABLE_SIZE
                && scale_numerator(required_quality_level as int) == 0 && cols > 0 ==> r == Err::<
                ScaledTable,
                CodecError,
            >(CodecError::SingularTable),
            r is Ok <==> valid_level(required_quality_level as int) && cols <= TABLE_SIZE && (
            scale_numerator(required_quality_level as int) != 0 || cols == 0),
            r is Ok ==> r->Ok_0.is_table_of(required_quality_level as int, cols as int),
    {
        let full = self.get_quantization_matrix(required_quality_level);
        match full {
            Err(e) => Err(e),
            Ok(table) => {
                if cols > TABLE_SIZE {
                    Err(CodecError::DimensionMismatch)
                } else if required_quality_level == 100 && cols > 0 {
                    Err(CodecError::SingularTable)
                } else {
                    Ok(table.top_left(cols, Ghost(required_quality_level as int)))
                }
            },
        }
    }

    /// The table that dequantizes a coefficient block with `rows` rows at
    /// `required_quality_level`: the full table for eight rows, its top-left
    /// `rows` x `rows` part for fewer. A level outside 1..=100 is an
    /// `InvalidQualityLevel`; more than eight rows a `DimensionMismatch`.
    pub fn dequantization_table(&mut self, required_quality_level: u32, rows: usize) -> (r:
        Result<ScaledTable, CodecError>)
        requires
            old(self).wf(),
        ensures
            final(self).wf(),
            !valid_level(required_quality_level as int) ==> r == Err::<ScaledTable, CodecError>(
                CodecError::InvalidQualityLevel,
            ) && final(self).cached_levels() == old(self).cached_levels(),
            valid_level(required_quality_level as int) ==> final(self).cached_levels() == old(
                self,
            ).cached_levels().insert(required_quality_level),
            valid_level(required_quality_level as int) && rows > TABLE_SIZE ==> r == Err::<
                ScaledTable,
                CodecError,
            >(CodecError::DimensionMismatch),
            r is Ok <==> valid_level(required_quality_level as int) && rows <= TABLE_SIZE,
            r is Ok ==> r->Ok_0.is_table_of(required_quality_level as int, rows as int),
    {
        let full = self.get_quantization_matrix(required_quality_level);
        match full {
            Err(e) => Err(e),
            Ok(table) => {
                if rows > TABLE_SIZE {
                    Err(CodecError::DimensionMismatch)
                } else {
                    Ok(table.top_left(rows, Ghost(required_quality_level as int)))
                }
            },
        }
    }
}

} // verus!
