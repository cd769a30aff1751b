//! What the engine records of a solver: resolved outcomes, challenges,
//! rewards and lost stakes.
use vstd::prelude::*;
use crate::types::{MetricsView, OracleSolver, SolverPerformanceMetrics, SolverView};

verus! {

impl SolverView {
    /// A solver as registered: no outcome yet, active, last seen at `now`.
    pub open spec fn fresh(account: Seq<char>, stake: u128, now: u64) -> SolverView {
        SolverView {
            solver_id: account,
            total_evaluations: 0,
            successful_evaluations: 0,
            total_stake: stake,
            is_active: true,
            performance_metrics: MetricsView {
                total_challenges_received: 0,
                challenges_successfully_defended: 0,
                total_rewards_earned: 0,
                total_stakes_lost: 0,
                last_active_timestamp: now,
                specialization_areas: Seq::empty(),
            },
        }
    }

    /// The solver after one more resolved outcome at time `now`: one more in
    /// the denominator of its reputation and, on success, one more in the
    /// numerator. `None` when a count would leave its range.
    pub open spec fn resolved(self, success: bool, now: u64) -> Option<SolverView> {
        if self.total_evaluations == u64::MAX || (success && self.successful_evaluations
            == u64::MAX) {
            None
        } else {
            Some(
                SolverView {
                    total_evaluations: (self.total_evaluations + 1) as u64,
                    successful_evaluations: if success {
                        (self.successful_evaluations + 1) as u64
                    } else {
                        self.successful_evaluations
                    },
                    performance_metrics: MetricsView {
                        last_active_timestamp: now,
                        ..self.performance_metrics
                    },
                    ..self
                },
            )
        }
    }

    /// The solver after one more challenge against it, defended or not.
    /// `None` when a count would leave its range.
    pub open spec fn challenged(self, defended: bool) -> Option<SolverView> {
        let m = self.performance_metrics;
        if m.total_challenges_received == u64::MAX || (defended
            && m.challenges_successfully_defended == u64::MAX) {
            None
        } else {
            Some(
                SolverView {
                    performance_metrics: MetricsView {
                        total_challenges_received: (m.total_challenges_received + 1) as u64,
                        challenges_successfully_defended: if defended {
                            (m.challenges_successfully_defended + 1) as u64
                        } else {
                            m.challenges_successfully_defended
                        },
                        ..m
                    },
                    ..self
                },
            )
        }
    }

    /// The solver after it earned `amount` at time `now`. `None` when the sum
    /// of its rewards would leave its range.
    pub open spec fn rewarded(self, amount: u128, now: u64) -> Option<SolverView> {
        let m = self.performance_metrics;
        if m.total_rewards_earned + amount > u128::MAX {
            None
        } else {
            Some(
                SolverView {
                    performance_metrics: MetricsView {
                        total_rewards_earned: (m.total_rewards_earned + amount) as u128,
                        last_active_timestamp: now,
                        ..m
                    },
                    ..self
                },
            )
        }
    }

    /// The solver after an evaluation of its own was finalized unopposed at
    /// time `now`: one more resolved outcome, a success, and the reward
    /// earned. `None` when a count or the sum of its rewards would leave its
    /// range.
    pub open spec fn finalized(self, reward: u128, now: u64) -> Option<SolverView> {
        match self.resolved(true, now) {
            Some(resolved) => resolved.rewarded(reward, now),
            None => None,
        }
    }

    /// The solver after it lost a stake of `amount`. `None` when the sum of
    /// its lost stakes would leave its range.
    pub open spec fn penalized(self, amount: u128) -> Option<SolverView> {
        let m = self.performance_metrics;
        if m.total_stakes_lost + amount > u128::MAX {
            None
        } else {
            Some(
                SolverView {
                    performance_metrics: MetricsView {
                        total_stakes_lost: (m.total_stakes_lost + amount) as u128,
                        ..m
                    },
                    ..self
                },
            )
        }
    }
}

impl OracleSolver {
    /// A solver as registered.
    pub fn fresh(account: String, stake: u128, now: u64) -> (solver: OracleSolver)
        ensures
            solver@ == SolverView::fresh(account@, stake, now),
    {
        let solver = OracleSolver {
            solver_id: account,
            total_evaluations: 0,
            successful_evaluations: 0,
            total_stake: stake,
            is_active: true,
            performance_metrics: SolverPerformanceMetrics {
                total_challenges_received: 0,
                challenges_successfully_defended: 0,
                total_rewards_earned: 0,
                total_stakes_lost: 0,
                last_active_timestamp: now,
                specialization_areas: Vec::new(),
            },
        };
        assert(solver@.performance_metrics.specialization_areas =~= Seq::empty());
        solver
    }

    /// Records one more resolved outcome. Returns `false`, and changes
    /// nothing, when a count would leave its range.
    pub fn record_resolution(&mut self, success: bool, now: u64) -> (done: bool)
        ensures
            match old(self)@.resolved(success, now) {
                Some(after) => done && final(self)@ == after,
                None => !done && final(self)@ == old(self)@,
            },
    {
        if self.total_evaluations == u64::MAX || (success && self.successful_evaluations
            == u64::MAX) {
            return false;
        }
        self.total_evaluations = self.total_evaluations + 1;
        if success {
            self.successful_evaluations = self.successful_evaluations + 1;
        }
        self.performance_metrics.last_active_timestamp = now;
        true
    }

    /// Records one more challenge against the solver. Returns `false`, and
    /// changes nothing, when a count would leave its range.
    pub fn record_challenge(&mut self, defended: bool) -> (done: bool)
        ensures
            match old(self)@.challenged(defended) {
                Some(after) => done && final(self)@ == after,
                None => !done && final(self)@ == old(self)@,
            },
    {
        if self.performance_metrics.total_challenges_received == u64::MAX || (defended
            && self.performance_metrics.challenges_successfully_defended == u64::MAX) {
            return false;
        }
        self.performance_metrics.total_challenges_received =
            self.performance_metrics.total_challenges_received + 1;
        if defended {
            self.performance_metrics.challenges_successfully_defended =
                self.performance_metrics.challenges_successfully_defended + 1;
        }
        true
    }

    /// Records a reward. Returns `false`, and changes nothing, when the sum of
    /// rewards would leave its range.
    pub fn record_reward(&mut self, amount: u128, now: u64) -> (done: bool)
        ensures
            match old(self)@.rewarded(amount, now) {
                Some(after) => done && final(self)@ == after,
                None => !done && final(self)@ == old(self)@,
            },
    {
        match self.performance_metrics.total_rewards_earned.checked_add(amount) {
            Some(sum) => {
                self.performance_metrics.total_rewards_earned = sum;
                self.performance_metrics.last_active_timestamp = now;
                true
            },
            None => false,
        }
    }

    /// Records the unopposed finalization of an evaluation of the solver's
    /// own: a resolved outcome that is a success, and the reward. Returns
    /// `false` when a count or the sum of rewards would leave its range; the
    /// record may then be partly changed.
    pub fn record_finalization(&mut self, reward: u128, now: u64) -> (done: bool)
        ensures
            match old(self)@.finalized(reward, now) {
                Some(after) => done && final(self)@ == after,
                None => !done,
            },
    {
        self.record_resolution(true, now) && self.record_reward(reward, now)
    }

    /// Records a lost stake. Returns `false`, and changes nothing, when the
    /// sum of lost stakes would leave its range.
    pub fn record_lost_stake(&mut self, amount: u128) -> (done: bool)
        ensures
            match old(self)@.penalized(amount) {
                Some(after) => done && final(self)@ == after,
                None => !done && final(self)@ == old(self)@,
            },
    {
        match self.performance_metrics.total_stakes_lost.checked_add(amount) {
            Some(sum) => {
                self.performance_metrics.total_stakes_lost = sum;
                true
            },
            None => false,
        }
    }
}

} // verus!
