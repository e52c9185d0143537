//! When to build an approximate index over the vectors, and with what
//! parameters.

use vstd::prelude::*;

verus! {

/// The fewest rows for which an index is built; below it a scan of all
/// rows is faster.
pub const MIN_ROWS_FOR_INDEX: usize = 1000;

/// How the distance of two vectors is measured.
#[derive(Clone, Copy, Debug, PartialEq, Eq, Structural)]
pub enum DistanceType {
    Cosine,
    L2,
    Dot,
}

/// The parameters of an inverted-file index with product quantization.
#[derive(Clone, Copy, Debug, PartialEq, Eq, Structural)]
pub struct IndexParams {
    /// Whether an index is built at all.
    pub should_create_index: bool,
    /// The number of partitions of the inverted file.
    pub num_partitions: u32,
    /// The number of parts into which each vector is cut.
    pub num_sub_vectors: u32,
    /// The number of bits of each code.
    pub num_bits: usize,
    /// How the distance of two vectors is measured.
    pub distance_type: DistanceType,
}

/// The rules of index tuning.
#[derive(Clone, Copy, Debug)]
pub struct VectorOptimizer;

/// Whether `p` is the square root of `n`, rounded down and brought into
/// `[2, 256]`.
pub open spec fn is_partition_count(n: int, p: int) -> bool {
    &&& 2 <= p <= 256
    &&& p > 2 ==> p * p <= n
    &&& p < 256 ==> n < (p + 1) * (p + 1)
}

/// An eighth of the dimension, rounded down and brought into `[1, 96]`.
pub open spec fn sub_vector_count(dim: int) -> int {
    if dim / 8 < 1 {
        1
    } else if dim / 8 > 96 {
        96
    } else {
        dim / 8
    }
}

/// The parameters for a table of `rows` rows of vectors of dimension `dim`:
/// no index below a thousand rows; else as many partitions as the square
/// root of the number of rows, within `[2, 256]`, an eighth of the
/// dimension as the number of sub-vectors, within `[1, 96]`, eight bits,
/// and the cosine distance.
pub open spec fn is_index_choice(rows: int, dim: int, p: IndexParams) -> bool {
    if rows < MIN_ROWS_FOR_INDEX {
        p == (IndexParams {
            should_create_index: false,
            num_partitions: 0,
            num_sub_vectors: 0,
            num_bits: 0,
            distance_type: DistanceType::Cosine,
        })
    } else {
        &&& p.should_create_index
        &&& is_partition_count(rows, p.num_partitions as int)
        &&& p.num_sub_vectors == sub_vector_count(dim)
        &&& p.num_bits == 8
        &&& p.distance_type == DistanceType::Cosine
    }
}

/// There is only one number of partitions for each number of rows.
pub proof fn lemma_partition_count_unique(n: int, p: int, q: int)
    requires
        is_partition_count(n, p),
        is_partition_count(n, q),
    ensures
        p == q,
{
    if p < q {
        assert((p + 1) * (p + 1) <= q * q) by (nonlinear_arith)
            requires
                0 <= p + 1 <= q,
        ;
    } else if q < p {
        assert((q + 1) * (q + 1) <= p * p) by (nonlinear_arith)
            requires
                0 <= q + 1 <= p,
        ;
    }
}

/// There is only one choice of parameters for each table.
pub proof fn lemma_index_choice_unique(rows: int, dim: int, p: IndexParams, q: IndexParams)
    requires
        is_index_choice(rows, dim, p),
        is_index_choice(rows, dim, q),
    ensures
        p == q,
{
    if rows >= MIN_ROWS_FOR_INDEX {
        lemma_partition_count_unique(rows, p.num_partitions as int, q.num_partitions as int);
    }
}

impl VectorOptimizer {
    /// The square root of `n`, rounded down and brought into `[2, 256]`.
    pub fn partition_count(n: usize) -> (p: u32)
        ensures
            is_partition_count(n as int, p as int),
    {
        let mut p: u32 = 2;
        let mut found = false;
        while p < 256 && !found
            invariant
                2 <= p <= 256,
                p > 2 ==> p * p <= n,
                found ==> n < (p + 1) * (p + 1),
            decreases
                    (256 - p) * 2 + if found {
                        0int
                    } else {
                        1int
                    },
        {
            let next: u64 = p as u64 + 1;
            assert(next * next <= 65536) by (nonlinear_arith)
                requires
                    next <= 256,
            ;
            if next * next <= n as u64 {
                p = p + 1;
            } else {
                found = true;
            }
        }
        p
    }

    /// The parameters of the index for a table of `row_count` rows of
    /// vectors of dimension `vector_dim`.
    pub fn calculate_index_params(row_count: usize, vector_dim: usize) -> (params: IndexParams)
        ensures
            is_index_choice(row_count as int, vector_dim as int, params),
            row_count < 1000 ==> !params.should_create_index,
            row_count >= 1000 ==> 2 <= params.num_partitions <= 256 && 1 <= params.num_sub_vectors
                <= 96,
    {
        if row_count < MIN_ROWS_FOR_INDEX {
            return IndexParams {
                should_create_index: false,
                num_partitions: 0,
                num_sub_vectors: 0,
                num_bits: 0,
                distance_type: DistanceType::Cosine,
            };
        }
        let num_partitions = VectorOptimizer::partition_count(row_count);
        let eighth: usize = vector_dim / 8;
        let num_sub_vectors: u32 = if eighth < 1 {
            1
        } else if eighth > 96 {
            96
        } else {
            eighth as u32
        };
        IndexParams {
            should_create_index: true,
            num_partitions,
            num_sub_vectors,
            num_bits: 8,
            distance_type: DistanceType::Cosine,
        }
    }

    /// Whether an index that exists is built anew because the table has
    /// grown: never; a caller who wants a new index asks for one.
    pub fn should_optimize_for_growth(_row_count: usize, _vector_dim: usize, _has_index: bool) -> (r:
        bool)
        ensures
            !r,
    {
        false
    }
}

} // verus!
