//! Counting the entries of a list that bear a small number, where no number
//! is borne twice.
use vstd::prelude::*;

verus! {

/// How many of the first `n` entries bear a number below `c`. An entry
/// that is `None` bears none.
pub open spec fn count_below(keys: Seq<Option<int>>, c: int, n: int) -> nat
    decreases n,
{
    if n <= 0 {
        0
    } else {
        count_below(keys, c, n - 1) + if keys[n - 1] is Some && keys[n - 1]->0 < c {
            1nat
        } else {
            0nat
        }
    }
}

/// How many of the first `n` entries bear the number `c`.
pub open spec fn count_at(keys: Seq<Option<int>>, c: int, n: int) -> nat
    decreases n,
{
    if n <= 0 {
        0
    } else {
        count_at(keys, c, n - 1) + if keys[n - 1] == Some(c) {
            1nat
        } else {
            0nat
        }
    }
}

/// Whether no number is borne by two entries.
pub open spec fn distinct(keys: Seq<Option<int>>) -> bool {
    forall|i: int, j: int|
        0 <= i < j < keys.len() && keys[i] is Some ==> #[trigger] keys[i] != #[trigger] keys[j]
}

proof fn lemma_count_at_none(keys: Seq<Option<int>>, c: int, n: int)
    requires
        0 <= n <= keys.len(),
        forall|i: int| 0 <= i < n ==> keys[i] != Some(c),
    ensures
        count_at(keys, c, n) == 0,
    decreases n,
{
    if n > 0 {
        lemma_count_at_none(keys, c, n - 1);
    }
}

proof fn lemma_count_at_most_one(keys: Seq<Option<int>>, c: int, n: int)
    requires
        0 <= n <= keys.len(),
        distinct(keys),
    ensures
        count_at(keys, c, n) <= 1,
    decreases n,
{
    if n > 0 {
        if keys[n - 1] == Some(c) {
            assert forall|i: int| 0 <= i < n - 1 implies keys[i] != Some(c) by {}
            lemma_count_at_none(keys, c, n - 1);
        } else {
            lemma_count_at_most_one(keys, c, n - 1);
        }
    }
}

proof fn lemma_count_split(keys: Seq<Option<int>>, c: int, n: int)
    requires
        0 <= n <= keys.len(),
    ensures
        count_below(keys, c + 1, n) == count_below(keys, c, n) + count_at(keys, c, n),
    decreases n,
{
    if n > 0 {
        lemma_count_split(keys, c, n - 1);
    }
}

proof fn lemma_count_below_zero(keys: Seq<Option<int>>, n: int)
    requires
        0 <= n <= keys.len(),
        forall|i: int| 0 <= i < keys.len() && keys[i] is Some ==> keys[i]->0 >= 0,
    ensures
        count_below(keys, 0, n) == 0,
    decreases n,
{
    if n > 0 {
        lemma_count_below_zero(keys, n - 1);
    }
}

/// Where no number is borne twice and none is negative, at most `c` entries
/// bear a number below `c`.
pub proof fn lemma_pigeonhole(keys: Seq<Option<int>>, c: int)
    requires
        c >= 0,
        distinct(keys),
        forall|i: int| 0 <= i < keys.len() && keys[i] is Some ==> keys[i]->0 >= 0,
    ensures
        count_below(keys, c, keys.len() as int) <= c,
    decreases c,
{
    if c == 0 {
        lemma_count_below_zero(keys, keys.len() as int);
    } else {
        lemma_pigeonhole(keys, c - 1);
        lemma_count_split(keys, c - 1, keys.len() as int);
        lemma_count_at_most_one(keys, c - 1, keys.len() as int);
    }
}

} // verus!
