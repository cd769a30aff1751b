//! Removing marked records from a list: which positions are marked, how many
//! of the marks count under a limit, and what is left.
use vstd::prelude::*;
use crate::types::views;

verus! {

/// How many positions are marked.
pub open spec fn count_true(flags: Seq<bool>) -> nat
    decreases flags.len(),
{
    if flags.len() == 0 {
        0
    } else {
        count_true(flags.drop_last()) + if flags.last() {
            1nat
        } else {
            0nat
        }
    }
}

/// The marks that count under a limit: a mark counts when fewer than `limit`
/// positions before it are marked.
pub open spec fn capped(flags: Seq<bool>, limit: nat) -> Seq<bool> {
    Seq::new(flags.len(), |i: int| flags[i] && count_true(flags.subrange(0, i)) < limit)
}

/// The items at the positions that are not marked, in order.
pub open spec fn unflagged<T>(items: Seq<T>, flags: Seq<bool>) -> Seq<T>
    recommends
        flags.len() == items.len(),
    decreases items.len(),
{
    if items.len() == 0 {
        items
    } else if flags[items.len() - 1] {
        unflagged(items.drop_last(), flags.take(items.len() - 1))
    } else {
        unflagged(items.drop_last(), flags.take(items.len() - 1)).push(items.last())
    }
}

/// Whether `part` holds items of `whole` only, in the order of `whole`, each
/// position of `whole` at most once.
pub open spec fn embeds<T>(part: Seq<T>, whole: Seq<T>) -> bool {
    &&& forall|k: int|
        0 <= k < part.len() ==> exists|i: int|
            0 <= i < whole.len() && whole[i] == #[trigger] part[k]
    &&& forall|k: int, l: int|
        0 <= k < l < part.len() ==> exists|i: int, j: int|
            0 <= i < j < whole.len() && whole[i] == #[trigger] part[k] && whole[j]
                == #[trigger] part[l]
}

/// The marks before a position are no more than all marks, and fewer when the
/// position itself is marked.
pub proof fn lemma_count_true_prefix(flags: Seq<bool>, i: int)
    requires
        0 <= i <= flags.len(),
    ensures
        count_true(flags.subrange(0, i)) <= count_true(flags),
        i < flags.len() ==> count_true(flags.subrange(0, i + 1)) == count_true(
            flags.subrange(0, i),
        ) + if flags[i] {
            1nat
        } else {
            0nat
        },
        i < flags.len() && flags[i] ==> count_true(flags.subrange(0, i)) < count_true(flags),
    decreases flags.len() - i,
{
    if i < flags.len() {
        assert(flags.subrange(0, i + 1).drop_last() =~= flags.subrange(0, i));
        lemma_count_true_prefix(flags, i + 1);
    } else {
        assert(flags.subrange(0, i) =~= flags);
    }
}

/// Under a limit, as many marks count as there are, up to the limit.
pub proof fn lemma_count_capped(flags: Seq<bool>, limit: nat)
    ensures
        count_true(capped(flags, limit)) == if count_true(flags) <= limit {
            count_true(flags)
        } else {
            limit
        },
    decreases flags.len(),
{
    if flags.len() > 0 {
        let n = flags.len() - 1;
        lemma_count_capped(flags.drop_last(), limit);
        assert(capped(flags, limit).drop_last() =~= capped(flags.drop_last(), limit)) by {
            assert forall|i: int| 0 <= i < n implies capped(flags, limit).drop_last()[i] == capped(
                flags.drop_last(),
                limit,
            )[i] by {
                assert(flags.subrange(0, i) =~= flags.drop_last().subrange(0, i));
            }
        }
    }
}

/// What is left after removing the marked items has the length of the list
/// less the number of marks.
pub proof fn lemma_unflagged_len<T>(items: Seq<T>, flags: Seq<bool>)
    requires
        flags.len() == items.len(),
    ensures
        unflagged(items, flags).len() == items.len() - count_true(flags),
    decreases items.len(),
{
    if items.len() > 0 {
        let n = items.len() - 1;
        lemma_unflagged_len(items.drop_last(), flags.take(n));
    }
}

/// Where nothing is marked, everything is left.
pub proof fn lemma_unflagged_none<T>(items: Seq<T>, flags: Seq<bool>)
    requires
        flags.len() == items.len(),
        forall|i: int| 0 <= i < flags.len() ==> !flags[i],
    ensures
        unflagged(items, flags) == items,
        count_true(flags) == 0,
    decreases items.len(),
{
    if items.len() > 0 {
        let n = items.len() - 1;
        lemma_unflagged_none(items.drop_last(), flags.take(n));
    }
}

/// What is left after removing the marked items holds items of the list
/// only, in the order of the list.
pub proof fn lemma_unflagged_embeds<T>(items: Seq<T>, flags: Seq<bool>)
    requires
        flags.len() == items.len(),
    ensures
        embeds(unflagged(items, flags), items),
    decreases items.len(),
{
    if items.len() > 0 {
        let n = items.len() - 1;
        lemma_unflagged_embeds(items.drop_last(), flags.take(n));
    }
}

/// A list holds its own items, in its own order: it is what is left of it
/// when nothing is removed.
pub proof fn lemma_embeds_itself<T>(items: Seq<T>)
    ensures
        embeds(items, items),
{
    let none = Seq::new(items.len(), |i: int| false);
    lemma_unflagged_none(items, none);
    lemma_unflagged_embeds(items, none);
}

/// Counts the marks.
pub fn count_flags(flags: &Vec<bool>) -> (n: usize)
    ensures
        n == count_true(flags@),
{
    let mut n: usize = 0;
    let mut i: usize = 0;
    while i < flags.len()
        invariant
            i <= flags.len(),
            n == count_true(flags@.subrange(0, i as int)),
            n <= i,
        decreases flags.len() - i,
    {
        assert(flags@.subrange(0, i + 1).drop_last() =~= flags@.subrange(0, i as int));
        if flags[i] {
            n += 1;
        }
        i += 1;
    }
    assert(flags@.subrange(0, i as int) =~= flags@);
    n
}

/// Keeps the marks that count under a limit and clears the others.
pub fn cap_flags(flags: &mut Vec<bool>, limit: usize)
    ensures
        final(flags)@ == capped(old(flags)@, limit as nat),
{
    let ghost start = flags@;
    let mut seen: usize = 0;
    let mut i: usize = 0;
    while i < flags.len()
        invariant
            i <= flags.len(),
            flags.len() == start.len(),
            seen == count_true(start.subrange(0, i as int)),
            seen <= i,
            forall|j: int| 0 <= j < i ==> flags@[j] == capped(start, limit as nat)[j],
            forall|j: int| i <= j < flags.len() ==> flags@[j] == start[j],
        decreases flags.len() - i,
    {
        assert(start.subrange(0, i + 1).drop_last() =~= start.subrange(0, i as int));
        if flags[i] {
            if seen >= limit {
                flags.set(i, false);
            }
            seen += 1;
        }
        i += 1;
    }
}

/// Removes the marked items from a list, keeping the order of the others.
pub fn remove_flagged<T: View>(items: &mut Vec<T>, flags: &Vec<bool>)
    requires
        flags.len() == old(items).len(),
    ensures
        views(final(items)@) == unflagged(views(old(items)@), flags@),
        final(items).len() == old(items).len() - count_true(flags@),
{
    let ghost start = views(items@);
    let n = flags.len();
    let mut k: usize = 0;
    let mut j: usize = 0;
    while k < n
        invariant
            n == flags.len(),
            n == start.len(),
            j <= k <= n,
            items.len() - j == n - k,
            views(items@).subrange(0, j as int) == unflagged(
                start.subrange(0, k as int),
                flags@.subrange(0, k as int),
            ),
            views(items@).subrange(j as int, items.len() as int) == start.subrange(
                k as int,
                n as int,
            ),
        decreases n - k,
    {
        let ghost before = views(items@);
        let ghost head = start.subrange(0, k + 1);
        assert(head.drop_last() =~= start.subrange(0, k as int));
        assert(flags@.subrange(0, k + 1).take(k as int) =~= flags@.subrange(0, k as int));
        assert(before.subrange(j as int, items.len() as int)[0] == start[k as int]);
        if flags[k] {
            items.remove(j);
            assert(views(items@).subrange(j as int, items.len() as int) =~= before.subrange(
                j as int,
                before.len() as int,
            ).drop_first());
        } else {
            assert(before.subrange(j + 1, items.len() as int) =~= before.subrange(
                j as int,
                before.len() as int,
            ).drop_first());
            j += 1;
        }
        k += 1;
    }
    proof {
        assert(start.subrange(0, n as int) =~= start);
        assert(flags@.subrange(0, n as int) =~= flags@);
        lemma_unflagged_len(start, flags@);
    }
}

} // verus!
