//! Sharing a pool of rewards among the eligible solvers, in proportion to
//! weights. The weights come from outside; the shares are exact.
use vstd::prelude::*;
use crate::arith::{
    lemma_mul_div_le, lemma_mul_div_superadditive, lemma_mul_div_whole, mul_div, mul_div_floor,
};
use crate::contract::{
    lemma_keys_are_distinct, lemma_solvers_changed_keeps_well_formed, ContractView,
    OracleIntentContract,
};
use crate::error::OracleError;
use crate::flags::{count_true, lemma_count_true_prefix};
use crate::store::Keyed;
use crate::types::{
    total_amount, views, MetricsView, OracleSolver, SolverView, Transfer, TransferView,
};

verus! {

impl SolverView {
    /// A solver that takes part in a distribution: active, with at least one
    /// resolved outcome.
    pub open spec fn is_eligible(self) -> bool {
        self.is_active && self.total_evaluations > 0
    }

    /// The solver with `amount` added to the rewards it has earned.
    pub open spec fn credited(self, amount: u128) -> SolverView {
        SolverView {
            performance_metrics: MetricsView {
                total_rewards_earned: (self.performance_metrics.total_rewards_earned
                    + amount) as u128,
                ..self.performance_metrics
            },
            ..self
        }
    }
}

/// For each solver, whether it takes part in a distribution.
pub open spec fn eligibility(solvers: Seq<SolverView>) -> Seq<bool> {
    Seq::new(solvers.len(), |i: int| solvers[i].is_eligible())
}

/// The sum of the weights.
pub open spec fn sum_weights(weights: Seq<u64>) -> nat
    decreases weights.len(),
{
    if weights.len() == 0 {
        0
    } else {
        sum_weights(weights.drop_last()) + weights.last() as nat
    }
}

/// How many eligible solvers stand before position `i`: the position of the
/// solver's weight among the weights.
pub open spec fn rank(solvers: Seq<SolverView>, i: int) -> nat {
    count_true(eligibility(solvers).subrange(0, i))
}

/// The share of the solver at position `i`: the pool times its weight over
/// the sum of the weights, rounded down. Nothing where the weights sum to
/// zero, and nothing for a solver that is not eligible.
pub open spec fn share_of(solvers: Seq<SolverView>, pool: u128, weights: Seq<u64>, i: int) -> nat {
    if solvers[i].is_eligible() && sum_weights(weights) > 0 {
        mul_div(pool as nat, weights[rank(solvers, i) as int] as nat, sum_weights(weights))
    } else {
        0
    }
}

/// The transfers that a distribution owes to the first `upto` solvers: to
/// each its share, where that is more than nothing.
pub open spec fn payouts(solvers: Seq<SolverView>, pool: u128, weights: Seq<u64>, upto: int) -> Seq<
    TransferView,
>
    decreases upto,
{
    if upto <= 0 {
        Seq::empty()
    } else if share_of(solvers, pool, weights, upto - 1) > 0 {
        payouts(solvers, pool, weights, upto - 1).push(
            TransferView {
                recipient: solvers[upto - 1].solver_id,
                amount: share_of(solvers, pool, weights, upto - 1) as u128,
            },
        )
    } else {
        payouts(solvers, pool, weights, upto - 1)
    }
}

/// The solvers after a distribution: each has earned its share.
pub open spec fn distributed(solvers: Seq<SolverView>, pool: u128, weights: Seq<u64>) -> Seq<
    SolverView,
> {
    Seq::new(
        solvers.len(),
        |i: int| solvers[i].credited(share_of(solvers, pool, weights, i) as u128),
    )
}

impl ContractView {
    /// Why a distribution is refused, if it is. The checks are made in this
    /// order: the caller is the owner; there is one weight for each eligible
    /// solver; no solver's sum of rewards leaves its range.
    pub open spec fn distribute_error(self, caller: Seq<char>, pool: u128, weights: Seq<u64>)
        -> Option<OracleError> {
        if !self.is_owner(caller) {
            Some(OracleError::NotOwner)
        } else if weights.len() != count_true(eligibility(self.solvers)) {
            Some(OracleError::WeightCountMismatch)
        } else if exists|i: int|
            0 <= i < self.solvers.len() && (
            #[trigger] self.solvers[i]).performance_metrics.total_rewards_earned + share_of(
                self.solvers,
                pool,
                weights,
                i,
            ) > u128::MAX {
            Some(OracleError::ArithmeticOverflow)
        } else {
            None
        }
    }

    /// The engine after an admitted distribution.
    pub open spec fn distribute_effect(self, pool: u128, weights: Seq<u64>) -> ContractView {
        ContractView { solvers: distributed(self.solvers, pool, weights), ..self }
    }
}

/// Each weight is part of the sum of the weights.
pub proof fn lemma_weight_le_sum(weights: Seq<u64>, k: int)
    requires
        0 <= k < weights.len(),
    ensures
        weights[k] <= sum_weights(weights),
    decreases weights.len(),
{
    if k < weights.len() - 1 {
        lemma_weight_le_sum(weights.drop_last(), k);
    }
}

/// A share is no more than the pool.
pub proof fn lemma_share_le_pool(solvers: Seq<SolverView>, pool: u128, weights: Seq<u64>, i: int)
    requires
        0 <= i < solvers.len(),
        weights.len() == count_true(eligibility(solvers)),
    ensures
        share_of(solvers, pool, weights, i) <= pool,
        solvers[i].is_eligible() ==> rank(solvers, i) < weights.len(),
{
    lemma_count_true_prefix(eligibility(solvers), i);
    if solvers[i].is_eligible() && sum_weights(weights) > 0 {
        let k = rank(solvers, i) as int;
        lemma_weight_le_sum(weights, k);
        lemma_mul_div_le(pool as nat, weights[k] as nat, sum_weights(weights));
    }
}

/// What a distribution pays to the first `upto` solvers is no more than the
/// share of the pool that the weights of the eligible ones among them make.
pub proof fn lemma_payouts_bounded(
    solvers: Seq<SolverView>,
    pool: u128,
    weights: Seq<u64>,
    upto: int,
)
    requires
        0 <= upto <= solvers.len(),
        weights.len() == count_true(eligibility(solvers)),
        sum_weights(weights) > 0,
    ensures
        rank(solvers, upto) <= weights.len(),
        total_amount(payouts(solvers, pool, weights, upto)) <= mul_div(
            pool as nat,
            sum_weights(weights.take(rank(solvers, upto) as int)),
            sum_weights(weights),
        ),
    decreases upto,
{
    let total = sum_weights(weights);
    if upto > 0 {
        let i = upto - 1;
        lemma_payouts_bounded(solvers, pool, weights, i);
        lemma_count_true_prefix(eligibility(solvers), i);
        let k = rank(solvers, i) as int;
        let before = payouts(solvers, pool, weights, i);
        let share = share_of(solvers, pool, weights, i);
        if solvers[i].is_eligible() {
            assert(weights.take(k + 1).drop_last() =~= weights.take(k));
            lemma_mul_div_superadditive(
                pool as nat,
                sum_weights(weights.take(k)),
                weights[k] as nat,
                total,
            );
            if share > 0 {
                let transfer = TransferView {
                    recipient: solvers[i].solver_id,
                    amount: share as u128,
                };
                assert(before.push(transfer).drop_last() =~= before);
            }
        }
    }
}

/// A distribution pays out no more than the pool.
pub proof fn lemma_distribution_within_pool(
    solvers: Seq<SolverView>,
    pool: u128,
    weights: Seq<u64>,
)
    requires
        weights.len() == count_true(eligibility(solvers)),
    ensures
        total_amount(payouts(solvers, pool, weights, solvers.len() as int)) <= pool,
{
    if sum_weights(weights) > 0 {
        lemma_payouts_bounded(solvers, pool, weights, solvers.len() as int);
        assert(eligibility(solvers).subrange(0, solvers.len() as int) =~= eligibility(solvers));
        assert(weights.take(weights.len() as int) =~= weights);
        lemma_mul_div_whole(pool as nat, sum_weights(weights));
    } else {
        lemma_payouts_of_nothing(solvers, pool, weights, solvers.len() as int);
    }
}

/// Where the weights sum to zero, nothing is paid.
pub proof fn lemma_payouts_of_nothing(
    solvers: Seq<SolverView>,
    pool: u128,
    weights: Seq<u64>,
    upto: int,
)
    requires
        sum_weights(weights) == 0,
    ensures
        payouts(solvers, pool, weights, upto) == Seq::<TransferView>::empty(),
    decreases upto,
{
    if upto > 0 {
        lemma_payouts_of_nothing(solvers, pool, weights, upto - 1);
    }
}

/// The sum of a list of weights.
pub fn total_weight(weights: &Vec<u64>) -> (total: u128)
    ensures
        total == sum_weights(weights@),
{
    let mut total: u128 = 0;
    let mut i: usize = 0;
    while i < weights.len()
        invariant
            i <= weights.len(),
            total == sum_weights(weights@.subrange(0, i as int)),
            total <= i * 0xFFFF_FFFF_FFFF_FFFF,
        decreases weights.len() - i,
    {
        assert(weights@.subrange(0, i + 1).drop_last() =~= weights@.subrange(0, i as int));
        total = total + weights[i] as u128;
        i += 1;
    }
    assert(weights@.subrange(0, i as int) =~= weights@);
    total
}

impl OracleIntentContract {
    /// How many solvers take part in a distribution.
    pub fn count_eligible_solvers(&self) -> (n: usize)
        ensures
            n == count_true(eligibility(self@.solvers)),
    {
        let ghost marks = eligibility(self@.solvers);
        let mut n: usize = 0;
        let mut i: usize = 0;
        while i < self.solvers.len()
            invariant
                i <= self.solvers.len(),
                marks == eligibility(self@.solvers),
                n == count_true(marks.subrange(0, i as int)),
                n <= i,
            decreases self.solvers.len() - i,
        {
            assert(marks.subrange(0, i + 1).drop_last() =~= marks.subrange(0, i as int));
            if self.solvers[i].is_active && self.solvers[i].total_evaluations > 0 {
                n += 1;
            }
            i += 1;
        }
        assert(marks.subrange(0, i as int) =~= marks);
        n
    }

    /// The solvers that take part in a distribution, in the order of their
    /// registration: the order in which their weights are expected.
    pub fn get_reward_candidates(&self) -> (found: Vec<OracleSolver>)
        ensures
            views(found@) == self@.solvers.filter(|s: SolverView| s.is_eligible()),
    {
        let ghost all = self@.solvers;
        let ghost wanted = |s: SolverView| s.is_eligible();
        let mut found: Vec<OracleSolver> = Vec::new();
        let mut i: usize = 0;
        proof {
            reveal(Seq::filter);
        }
        while i < self.solvers.len()
            invariant
                i <= self.solvers.len(),
                all == self@.solvers,
                wanted == |s: SolverView| s.is_eligible(),
                views(found@) == all.subrange(0, i as int).filter(wanted),
            decreases self.solvers.len() - i,
        {
            proof {
                reveal(Seq::filter);
                assert(all.subrange(0, i + 1).drop_last() =~= all.subrange(0, i as int));
            }
            if self.solvers[i].is_active && self.solvers[i].total_evaluations > 0 {
                found.push(self.solvers[i].duplicate());
            }
            i += 1;
        }
        assert(all.subrange(0, i as int) =~= all);
        found
    }

    /// Shares a pool of rewards among the eligible solvers in proportion to
    /// `weights`, which holds one weight for each eligible solver in the order
    /// of their registration. Each share is rounded down, so that the shares
    /// are together no more than the pool. Only the owner may distribute.
    /// Returns the transfers that the distribution owes.
    pub fn distribute_performance_rewards(
        &mut self,
        caller: String,
        total_reward_pool: u128,
        weights: Vec<u64>,
    ) -> (result: Result<Vec<Transfer>, OracleError>)
        requires
            old(self).well_formed(),
        ensures
            final(self).well_formed(),
            match result {
                Ok(owed) => {
                    &&& old(self)@.distribute_error(caller@, total_reward_pool, weights@) is None
                    &&& final(self)@ == old(self)@.distribute_effect(total_reward_pool, weights@)
                    &&& views(owed@) == payouts(
                        old(self)@.solvers,
                        total_reward_pool,
                        weights@,
                        old(self)@.solvers.len() as int,
                    )
                    &&& total_amount(views(owed@)) <= total_reward_pool
                },
                Err(e) => {
                    &&& old(self)@.distribute_error(caller@, total_reward_pool, weights@) == Some(e)
                    &&& final(self)@ == old(self)@
                },
            },
    {
        if !self.caller_is_owner(&caller) {
            return Err(OracleError::NotOwner);
        }
        if weights.len() != self.count_eligible_solvers() {
            return Err(OracleError::WeightCountMismatch);
        }
        let ghost pre = self@;
        let ghost start = pre.solvers;
        let pool = total_reward_pool;
        let total = total_weight(&weights);
        let n = self.solvers.len();
        // First the shares, so that a refusal leaves the engine untouched.
        let mut shares: Vec<u128> = Vec::new();
        let mut k: usize = 0;
        let mut i: usize = 0;
        while i < n
            invariant
                n == self.solvers.len(),
                self@ == pre,
                pre == old(self)@,
                pool == total_reward_pool,
                pre.well_formed(),
                pre.is_owner(caller@),
                start == pre.solvers,
                total == sum_weights(weights@),
                weights.len() == count_true(eligibility(start)),
                i <= n,
                k == rank(start, i as int),
                shares.len() == i,
                forall|j: int|
                    0 <= j < i ==> shares@[j] == share_of(start, pool, weights@, j) && (
                    #[trigger] start[j]).performance_metrics.total_rewards_earned + shares@[j]
                        <= u128::MAX,
            decreases n - i,
        {
            proof {
                lemma_count_true_prefix(eligibility(start), i as int);
                lemma_share_le_pool(start, pool, weights@, i as int);
            }
            let mut share: u128 = 0;
            assert(eligibility(start)[i as int] == start[i as int].is_eligible());
            if self.solvers[i].is_active && self.solvers[i].total_evaluations > 0 {
                if total > 0 {
                    share = match mul_div_floor(pool, weights[k] as u128, total) {
                        Some(s) => s,
                        None => 0,
                    };
                }
                k += 1;
            }
            let earned = self.solvers[i].performance_metrics.total_rewards_earned;
            if earned.checked_add(share).is_none() {
                return Err(OracleError::ArithmeticOverflow);
            }
            shares.push(share);
            i += 1;
        }
        let mut owed: Vec<Transfer> = Vec::new();
        let mut i: usize = 0;
        while i < n
            invariant
                n == self.solvers.len(),
                n == start.len(),
                shares.len() == n,
                i <= n,
                forall|j: int|
                    0 <= j < n ==> shares@[j] == share_of(start, pool, weights@, j) && (
                    #[trigger] start[j]).performance_metrics.total_rewards_earned + shares@[j]
                        <= u128::MAX,
                forall|j: int|
                    0 <= j < i ==> (#[trigger] self.solvers@[j])@ == start[j].credited(shares@[j]),
                forall|j: int| i <= j < n ==> (#[trigger] self.solvers@[j])@ == start[j],
                views(owed@) == payouts(start, pool, weights@, i as int),
                self@ == (ContractView { solvers: self@.solvers, ..pre }),
            decreases n - i,
        {
            let share = shares[i];
            if share > 0 {
                let recipient = self.solvers[i].solver_id.clone();
                owed.push(Transfer { recipient, amount: share });
            }
            self.solvers[i].performance_metrics.total_rewards_earned =
                self.solvers[i].performance_metrics.total_rewards_earned + share;
            i += 1;
        }
        proof {
            let post = self@;
            assert(post.solvers =~= distributed(start, pool, weights@));
            lemma_keys_are_distinct(pre);
            reveal(ContractView::records_well_formed);
            lemma_solvers_changed_keeps_well_formed(pre, post);
            lemma_distribution_within_pool(start, pool, weights@);
        }
        Ok(owed)
    }
}

} // verus!
