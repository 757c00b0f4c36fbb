//! Layout of contiguous blocks inside one flat vector.

use vstd::prelude::*;

verus! {

/// The sum of a sequence of sizes.
pub open spec fn seq_sum(s: Seq<usize>) -> int
    decreases s.len(),
{
    if s.len() == 0 {
        0
    } else {
        seq_sum(s.drop_last()) + s.last()
    }
}

/// Describes the layout of contiguous blocks within a single flat vector.
///
/// For a two field system with `n1` and `n2` entries, the layout is
/// `[field_0: 0..n1, field_1: n1..n1+n2]`.
#[derive(Debug, Clone)]
pub struct BlockLayout {
    /// Size of each block, in order.
    pub block_sizes: Vec<usize>,
}

/// A prefix sum never exceeds the sum of the whole sequence.
pub proof fn lemma_prefix_sum_le(s: Seq<usize>, i: int)
    requires
        0 <= i <= s.len(),
    ensures
        0 <= seq_sum(s.take(i)) <= seq_sum(s),
    decreases s.len() - i,
{
    if i == s.len() {
        assert(s.take(i) =~= s);
        lemma_sum_nonneg(s);
    } else {
        lemma_prefix_sum_le(s, i + 1);
        assert(s.take(i + 1).drop_last() =~= s.take(i));
        lemma_sum_nonneg(s.take(i));
    }
}

/// Sums of sizes are never negative.
pub proof fn lemma_sum_nonneg(s: Seq<usize>)
    ensures
        seq_sum(s) >= 0,
    decreases s.len(),
{
    if s.len() > 0 {
        lemma_sum_nonneg(s.drop_last());
    }
}

impl BlockLayout {
    /// Total entry count across all blocks.
    pub fn total_size(&self) -> (total: usize)
        requires
            seq_sum(self.block_sizes@) <= usize::MAX,
        ensures
            total == seq_sum(self.block_sizes@),
    {
        assert(self.block_sizes@.take(self.block_sizes@.len() as int) =~= self.block_sizes@);
        self.prefix_sum(self.block_sizes.len())
    }

    /// Number of blocks.
    pub fn num_blocks(&self) -> (n: usize)
        ensures
            n == self.block_sizes@.len(),
    {
        self.block_sizes.len()
    }

    /// Sum of the first `count` block sizes.
    fn prefix_sum(&self, count: usize) -> (s: usize)
        requires
            count <= self.block_sizes@.len(),
            seq_sum(self.block_sizes@) <= usize::MAX,
        ensures
            s == seq_sum(self.block_sizes@.take(count as int)),
    {
        let mut acc: usize = 0;
        let mut k: usize = 0;
        while k < count
            invariant
                k <= count <= self.block_sizes@.len(),
                seq_sum(self.block_sizes@) <= usize::MAX,
                acc == seq_sum(self.block_sizes@.take(k as int)),
            decreases count - k,
        {
            proof {
                lemma_prefix_sum_le(self.block_sizes@, k + 1);
                assert(self.block_sizes@.take(k + 1).drop_last() =~= self.block_sizes@.take(k as int));
            }
            acc = acc + self.block_sizes[k];
            k = k + 1;
        }
        acc
    }

    /// Return (offset, size) for block `i`: the offset is the sum of the
    /// sizes of the blocks before it.
    pub fn block_range(&self, i: usize) -> (r: (usize, usize))
        requires
            i < self.block_sizes@.len(),
            seq_sum(self.block_sizes@) <= usize::MAX,
        ensures
            r.0 == seq_sum(self.block_sizes@.take(i as int)),
            r.1 == self.block_sizes@[i as int],
    {
        let offset = self.prefix_sum(i);
        (offset, self.block_sizes[i])
    }
}

/// The blocks tile the flat vector: each block starts where the one
/// before it ends, the first starts at 0 and the last ends at the total
/// size.
pub proof fn lemma_blocks_are_contiguous(sizes: Seq<usize>, i: int)
    requires
        0 <= i < sizes.len(),
    ensures
        seq_sum(sizes.take(0)) == 0,
        seq_sum(sizes.take(i)) + sizes[i] == seq_sum(sizes.take(i + 1)),
        i == sizes.len() - 1 ==> seq_sum(sizes.take(i)) + sizes[i] == seq_sum(sizes),
{
    assert(sizes.take(0) =~= Seq::<usize>::empty());
    assert(sizes.take(i + 1).drop_last() =~= sizes.take(i));
    if i == sizes.len() - 1 {
        assert(sizes.take(i + 1) =~= sizes);
    }
}

} // verus!
