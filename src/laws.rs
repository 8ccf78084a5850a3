//! Facts about the bounded search: why a capped file or a capped search may
//! stop early, and what the result batch looks like in each case.
use vstd::prelude::*;
use crate::engine::{
    cap, file_hits, line_hits, record, records, search_output, tree_hits, tree_view, GLOBAL_CAP,
    NO_RESULTS, PER_FILE_CAP, TRUNCATION_NOTICE,
};
use crate::text::contains;

verus! {

/// `a` is an initial part of `b`.
pub open spec fn is_prefix<A>(a: Seq<A>, b: Seq<A>) -> bool {
    a.len() <= b.len() && b.take(a.len() as int) == a
}

proof fn lemma_prefix_extend<A>(a: Seq<A>, b: Seq<A>, c: Seq<A>)
    requires
        is_prefix(a, b),
    ensures
        is_prefix(a, b + c),
{
    assert((b + c).take(a.len() as int) =~= b.take(a.len() as int));
}

/// The hits among the first `k` lines of a file come first among the hits of
/// the whole file.
pub proof fn lemma_line_hits_prefix(q: Seq<char>, lines: Seq<Seq<char>>, k: int)
    requires
        0 <= k <= lines.len(),
    ensures
        is_prefix(line_hits(q, lines.take(k)), line_hits(q, lines)),
    decreases lines.len(),
{
    if k == lines.len() {
        assert(lines.take(k) =~= lines);
        let h = line_hits(q, lines);
        assert(h.take(h.len() as int) =~= h);
    } else {
        lemma_line_hits_prefix(q, lines.drop_last(), k);
        assert(lines.drop_last().take(k) =~= lines.take(k));
        let h = line_hits(q, lines.drop_last());
        lemma_prefix_extend(line_hits(q, lines.take(k)), h, seq![lines.last()]);
        assert(h.push(lines.last()) =~= h + seq![lines.last()]);
    }
}

/// A file whose first `k` lines already hold `PER_FILE_CAP` hits contributes
/// the same as the whole file: the rest of it need not be read.
pub proof fn lemma_capped_file(q: Seq<char>, lines: Seq<Seq<char>>, k: int)
    requires
        0 <= k <= lines.len(),
        line_hits(q, lines.take(k)).len() >= PER_FILE_CAP,
    ensures
        file_hits(q, lines.take(k)) == file_hits(q, lines),
{
    lemma_line_hits_prefix(q, lines, k);
    let a = line_hits(q, lines.take(k));
    let b = line_hits(q, lines);
    assert(a.take(PER_FILE_CAP as int) =~= b.take(PER_FILE_CAP as int));
}

/// The hits of the first `k` files of a walk come first among the hits of the
/// whole walk.
pub proof fn lemma_tree_hits_prefix(q: Seq<char>, files: Seq<Seq<Seq<char>>>, k: int)
    requires
        0 <= k <= files.len(),
    ensures
        is_prefix(tree_hits(q, files.take(k)), tree_hits(q, files)),
    decreases files.len(),
{
    if k == files.len() {
        assert(files.take(k) =~= files);
        let h = tree_hits(q, files);
        assert(h.take(h.len() as int) =~= h);
    } else {
        lemma_tree_hits_prefix(q, files.drop_last(), k);
        assert(files.drop_last().take(k) =~= files.take(k));
        lemma_prefix_extend(
            tree_hits(q, files.take(k)),
            tree_hits(q, files.drop_last()),
            file_hits(q, files.last()),
        );
    }
}

/// Once the first `k` files of a walk hold `GLOBAL_CAP` hits, the files after
/// them change nothing in the result: the walk may stop there.
pub proof fn lemma_capped_walk(q: Seq<char>, files: Seq<Seq<Seq<char>>>, k: int)
    requires
        0 <= k <= files.len(),
        tree_hits(q, files.take(k)).len() >= GLOBAL_CAP,
    ensures
        search_output(q, files.take(k)) == search_output(q, files),
{
    lemma_tree_hits_prefix(q, files, k);
    let a = tree_hits(q, files.take(k));
    let b = tree_hits(q, files);
    assert(cap(a, GLOBAL_CAP as nat) =~= cap(b, GLOBAL_CAP as nat));
    assert(records(a) =~= records(b));
}

/// Every matching line of every file, with no cap, in walk order.
pub open spec fn all_line_hits(q: Seq<char>, files: Seq<Seq<Seq<char>>>) -> Seq<Seq<char>>
    decreases files.len(),
{
    if files.len() == 0 {
        seq![]
    } else {
        all_line_hits(q, files.drop_last()) + line_hits(q, files.last())
    }
}

/// How the capped hits relate to all matching lines: never more; all of them
/// while there are fewer than a file's cap; and at least `GLOBAL_CAP` of them
/// once there are that many matching lines.
pub proof fn lemma_hits_bounds(q: Seq<char>, files: Seq<Seq<Seq<char>>>)
    ensures
        tree_hits(q, files).len() <= all_line_hits(q, files).len(),
        all_line_hits(q, files).len() < PER_FILE_CAP ==> tree_hits(q, files) == all_line_hits(
            q,
            files,
        ),
        all_line_hits(q, files).len() >= GLOBAL_CAP ==> tree_hits(q, files).len() >= GLOBAL_CAP,
    decreases files.len(),
{
    if files.len() > 0 {
        lemma_hits_bounds(q, files.drop_last());
    }
}

/// A search in which no line of any file holds the query returns the
/// no-results entry alone.
pub proof fn lemma_no_match_gives_sentinel(q: Seq<char>, files: Seq<Seq<Seq<char>>>)
    requires
        forall|f: int, l: int|
            0 <= f < files.len() && 0 <= l < files[f].len() ==> !contains(#[trigger] files[f][l], q),
    ensures
        search_output(q, files) == seq![NO_RESULTS@],
{
    lemma_no_match_no_hits(q, files);
}

proof fn lemma_no_match_line_hits(q: Seq<char>, lines: Seq<Seq<char>>)
    requires
        forall|l: int| 0 <= l < lines.len() ==> !contains(#[trigger] lines[l], q),
    ensures
        line_hits(q, lines).len() == 0,
    decreases lines.len(),
{
    if lines.len() > 0 {
        lemma_no_match_line_hits(q, lines.drop_last());
    }
}

proof fn lemma_no_match_no_hits(q: Seq<char>, files: Seq<Seq<Seq<char>>>)
    requires
        forall|f: int, l: int|
            0 <= f < files.len() && 0 <= l < files[f].len() ==> !contains(#[trigger] files[f][l], q),
    ensures
        tree_hits(q, files).len() == 0,
    decreases files.len(),
{
    if files.len() > 0 {
        let last = files.len() - 1;
        assert forall|f: int, l: int|
            0 <= f < files.drop_last().len() && 0 <= l < files.drop_last()[f].len() implies !contains(
            #[trigger] files.drop_last()[f][l],
            q,
        ) by {
            assert(files.drop_last()[f] == files[f]);
        }
        lemma_no_match_no_hits(q, files.drop_last());
        assert forall|l: int| 0 <= l < files.last().len() implies !contains(
            #[trigger] files.last()[l],
            q,
        ) by {
            assert(files[last][l] == files.last()[l]);
        }
        lemma_no_match_line_hits(q, files.last());
    }
}

/// Where the files hold at least `GLOBAL_CAP` matching lines, the search
/// returns `GLOBAL_CAP` records, numbered from 1, and then the truncation
/// notice: one entry more than the cap.
pub proof fn lemma_many_matches_truncate(q: Seq<char>, files: Seq<Seq<Seq<char>>>)
    requires
        all_line_hits(q, files).len() >= GLOBAL_CAP,
    ensures
        search_output(q, files).len() == GLOBAL_CAP + 1,
        search_output(q, files)[GLOBAL_CAP as int] == TRUNCATION_NOTICE@,
        forall|i: int|
            0 <= i < GLOBAL_CAP ==> #[trigger] search_output(q, files)[i] == record(
                (i + 1) as nat,
                tree_hits(q, files)[i],
            ),
{
    lemma_hits_bounds(q, files);
}

/// Where the files hold some matching lines but fewer than `GLOBAL_CAP`, the
/// search returns exactly one record per matching line, in walk order and
/// numbered from 1, with no notice and no no-results entry.
pub proof fn lemma_few_matches_exact(q: Seq<char>, files: Seq<Seq<Seq<char>>>)
    requires
        0 < all_line_hits(q, files).len() < GLOBAL_CAP,
    ensures
        search_output(q, files) == Seq::new(
            all_line_hits(q, files).len(),
            |i: int| record((i + 1) as nat, all_line_hits(q, files)[i]),
        ),
{
    lemma_hits_bounds(q, files);
    assert(search_output(q, files) =~= Seq::new(
        all_line_hits(q, files).len(),
        |i: int| record((i + 1) as nat, all_line_hits(q, files)[i]),
    ));
}

/// The records of a search carry the numbers 1, 2, 3, ... in order, whichever
/// file each came from: the record at position `i` is numbered `i + 1`.
pub proof fn lemma_records_numbered(q: Seq<char>, files: Seq<Seq<Seq<char>>>)
    ensures
        forall|i: int|
            0 <= i < cap(tree_hits(q, files), GLOBAL_CAP as nat).len() ==> #[trigger] search_output(
                q,
                files,
            )[i] == record((i + 1) as nat, tree_hits(q, files)[i]),
{
}

/// Searching twice for the same query over the same unchanged files gives the
/// same batch.
pub proof fn lemma_search_repeatable(
    q: Seq<char>,
    first: Seq<Vec<String>>,
    second: Seq<Vec<String>>,
)
    requires
        tree_view(first) == tree_view(second),
    ensures
        search_output(q, tree_view(first)) == search_output(q, tree_view(second)),
{
}

} // verus!
