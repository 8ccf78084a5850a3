//! The byte size of a tree, summed over the sizes its files report.
use vstd::prelude::*;

verus! {

/// What one file adds: its length, or nothing where it could not be read.
pub open spec fn size_of(entry: Option<u64>) -> nat {
    match entry {
        Some(n) => n as nat,
        None => 0,
    }
}

/// The sum of the sizes of all files.
pub open spec fn total_size(sizes: Seq<Option<u64>>) -> nat
    decreases sizes.len(),
{
    if sizes.len() == 0 {
        0
    } else {
        total_size(sizes.drop_last()) + size_of(sizes.last())
    }
}

/// `n` where it fits in a `u64`, else the largest `u64`.
pub open spec fn saturate(n: nat) -> u64 {
    if n <= u64::MAX {
        n as u64
    } else {
        u64::MAX
    }
}

/// Sums the sizes of the files of a tree, one entry per file in any order;
/// `None` marks a file whose length could not be read and counts as zero.
/// A sum past the largest `u64` stays at the largest `u64`.
pub fn folder_size(sizes: &Vec<Option<u64>>) -> (r: u64)
    ensures
        r == saturate(total_size(sizes@)),
{
    let mut total: u64 = 0;
    let mut i: usize = 0;
    while i < sizes.len()
        invariant
            i <= sizes@.len(),
            total == saturate(total_size(sizes@.take(i as int))),
        decreases sizes@.len() - i,
    {
        proof {
            assert(sizes@.take(i + 1).drop_last() =~= sizes@.take(i as int));
        }
        let add: u64 = match sizes[i] {
            Some(n) => n,
            None => 0,
        };
        total = total.saturating_add(add);
        i = i + 1;
    }
    proof {
        assert(sizes@.take(i as int) =~= sizes@);
    }
    total
}

} // verus!
