//! Ranking the eligible solvers by reputation.
use vstd::prelude::*;
use crate::contract::OracleIntentContract;
use crate::scoring::reputation;
use crate::types::{views, OracleSolver, SolverView};

verus! {

/// Whether the reputation of `a` is higher than that of `b`. Two ratios are
/// compared by their cross products.
pub open spec fn outranks(a: SolverView, b: SolverView) -> bool {
    let ra = reputation(a.successful_evaluations, a.total_evaluations);
    let rb = reputation(b.successful_evaluations, b.total_evaluations);
    ra.0 * rb.1 > rb.0 * ra.1
}

/// The first position of a ranking whose solver `s` outranks, or the length
/// of the ranking if it outranks none.
pub open spec fn first_outranked(ranked: Seq<SolverView>, s: SolverView) -> int
    decreases ranked.len(),
{
    if ranked.len() == 0 {
        0
    } else if outranks(s, ranked[0]) {
        0
    } else {
        1 + first_outranked(ranked.drop_first(), s)
    }
}

/// The eligible solvers by falling reputation; among solvers of one
/// reputation, the one that registered first comes first.
pub open spec fn ranking(solvers: Seq<SolverView>) -> Seq<SolverView>
    decreases solvers.len(),
{
    if solvers.len() == 0 {
        Seq::empty()
    } else if solvers.last().is_eligible() {
        let rest = ranking(solvers.drop_last());
        rest.insert(first_outranked(rest, solvers.last()), solvers.last())
    } else {
        ranking(solvers.drop_last())
    }
}

/// The first `limit` of the ranking.
pub open spec fn top_of(solvers: Seq<SolverView>, limit: nat) -> Seq<SolverView> {
    if limit <= ranking(solvers).len() {
        ranking(solvers).take(limit as int)
    } else {
        ranking(solvers)
    }
}

/// A solver that does not outrank a second, which does not outrank a third,
/// does not outrank the third.
pub proof fn lemma_ranks_are_ordered(a: SolverView, b: SolverView, c: SolverView)
    requires
        !outranks(a, b),
        !outranks(b, c),
    ensures
        !outranks(a, c),
{
    let ra = reputation(a.successful_evaluations, a.total_evaluations);
    let rb = reputation(b.successful_evaluations, b.total_evaluations);
    let rc = reputation(c.successful_evaluations, c.total_evaluations);
    let (ka, na) = (ra.0 as int, ra.1 as int);
    let (kb, nb) = (rb.0 as int, rb.1 as int);
    let (kc, nc) = (rc.0 as int, rc.1 as int);
    assert(ka * nc <= kc * na) by (nonlinear_arith)
        requires
            ka * nb <= kb * na,
            kb * nc <= kc * nb,
            ka >= 0,
            kb >= 0,
            kc >= 0,
            na > 0,
            nb > 0,
            nc > 0,
    {
    }
}

/// The place at which a solver enters a ranking: it outranks nobody before
/// that place, and it outranks the solver at that place.
pub proof fn lemma_first_outranked(ranked: Seq<SolverView>, s: SolverView)
    ensures
        0 <= first_outranked(ranked, s) <= ranked.len(),
        forall|i: int| 0 <= i < first_outranked(ranked, s) ==> !outranks(s, #[trigger] ranked[i]),
        first_outranked(ranked, s) < ranked.len() ==> outranks(
            s,
            ranked[first_outranked(ranked, s)],
        ),
    decreases ranked.len(),
{
    if ranked.len() > 0 && !outranks(s, ranked[0]) {
        let rest = ranked.drop_first();
        lemma_first_outranked(rest, s);
        assert forall|i: int| 0 <= i < first_outranked(ranked, s) implies !outranks(
            s,
            #[trigger] ranked[i],
        ) by {
            if i > 0 {
                assert(rest[i - 1] == ranked[i]);
            }
        }
    }
}

/// In the ranking no solver is outranked by one that comes after it, and
/// every solver of the ranking is eligible.
pub proof fn lemma_ranking_is_sorted(solvers: Seq<SolverView>)
    ensures
        forall|i: int, j: int|
            0 <= i < j < ranking(solvers).len() ==> !outranks(
                #[trigger] ranking(solvers)[j],
                #[trigger] ranking(solvers)[i],
            ),
        forall|i: int|
            0 <= i < ranking(solvers).len() ==> (#[trigger] ranking(solvers)[i]).is_eligible(),
        ranking(solvers).len() <= solvers.len(),
    decreases solvers.len(),
{
    if solvers.len() > 0 {
        lemma_ranking_is_sorted(solvers.drop_last());
        if solvers.last().is_eligible() {
            let rest = ranking(solvers.drop_last());
            let s = solvers.last();
            let p = first_outranked(rest, s);
            lemma_first_outranked(rest, s);
            let all = ranking(solvers);
            assert forall|i: int, j: int| 0 <= i < j < all.len() implies !outranks(
                #[trigger] all[j],
                #[trigger] all[i],
            ) by {
                if j < p {
                } else if j == p {
                } else if i < p {
                } else if i == p {
                    // what comes after the place does not outrank the solver
                    // at the place, which the newcomer outranks
                    if outranks(rest[j - 1], s) {
                        lemma_ranks_are_ordered(s, rest[j - 1], rest[p]);
                    }
                }
            }
        }
    }
}

/// Whether the reputation of the first solver is higher than that of the
/// second.
pub fn solver_outranks(a: &OracleSolver, b: &OracleSolver) -> (higher: bool)
    ensures
        higher == outranks(a@, b@),
{
    let ka: u128 = if a.total_evaluations == 0 {
        1
    } else {
        a.successful_evaluations as u128
    };
    let na: u128 = if a.total_evaluations == 0 {
        1
    } else {
        a.total_evaluations as u128
    };
    let kb: u128 = if b.total_evaluations == 0 {
        1
    } else {
        b.successful_evaluations as u128
    };
    let nb: u128 = if b.total_evaluations == 0 {
        1
    } else {
        b.total_evaluations as u128
    };
    assert(ka * nb <= 0xFFFF_FFFF_FFFF_FFFF * 0xFFFF_FFFF_FFFF_FFFF) by (nonlinear_arith)
        requires
            ka <= 0xFFFF_FFFF_FFFF_FFFF,
            nb <= 0xFFFF_FFFF_FFFF_FFFF,
    ;
    assert(kb * na <= 0xFFFF_FFFF_FFFF_FFFF * 0xFFFF_FFFF_FFFF_FFFF) by (nonlinear_arith)
        requires
            kb <= 0xFFFF_FFFF_FFFF_FFFF,
            na <= 0xFFFF_FFFF_FFFF_FFFF,
    ;
    ka * nb > kb * na
}

/// The place at which a solver enters a ranking.
pub fn place_in_ranking(ranked: &Vec<OracleSolver>, s: &OracleSolver) -> (place: usize)
    ensures
        place == first_outranked(views(ranked@), s@),
        place <= ranked.len(),
{
    let ghost all = views(ranked@);
    let mut p: usize = 0;
    proof {
        assert(all.subrange(0, all.len() as int) =~= all);
    }
    while p < ranked.len()
        invariant
            p <= ranked.len(),
            all == views(ranked@),
            first_outranked(all, s@) == p + first_outranked(
                all.subrange(p as int, all.len() as int),
                s@,
            ),
        decreases ranked.len() - p,
    {
        let ghost rest = all.subrange(p as int, all.len() as int);
        assert(rest.drop_first() =~= all.subrange(p + 1, all.len() as int));
        if solver_outranks(s, &ranked[p]) {
            return p;
        }
        p += 1;
    }
    p
}

impl OracleIntentContract {
    /// The `limit` eligible solvers of highest reputation, by falling
    /// reputation; among solvers of one reputation, the one that registered
    /// first comes first.
    pub fn get_top_performers(&self, limit: u32) -> (top: Vec<OracleSolver>)
        ensures
            views(top@) == top_of(self@.solvers, limit as nat),
    {
        let ghost all = self@.solvers;
        let mut ranked: Vec<OracleSolver> = Vec::new();
        let mut i: usize = 0;
        while i < self.solvers.len()
            invariant
                i <= self.solvers.len(),
                all == self@.solvers,
                views(ranked@) == ranking(all.subrange(0, i as int)),
            decreases self.solvers.len() - i,
        {
            proof {
                assert(all.subrange(0, i + 1).drop_last() =~= all.subrange(0, i as int));
            }
            if self.solvers[i].is_active && self.solvers[i].total_evaluations > 0 {
                let copy = self.solvers[i].duplicate();
                let place = place_in_ranking(&ranked, &copy);
                ranked.insert(place, copy);
            }
            i += 1;
        }
        proof {
            assert(all.subrange(0, i as int) =~= all);
        }
        ranked.truncate(limit as usize);
        ranked
    }
}

} // verus!
