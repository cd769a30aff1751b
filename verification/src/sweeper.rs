//! Maintenance: overdue intents expire and are refunded, and decided records
//! older than a retention period are removed.
use vstd::prelude::*;
use crate::contract::{
    lemma_pruned_keeps_well_formed, lemma_updated_in_place_keeps_well_formed, ContractView,
    OracleIntentContract,
};
use crate::error::OracleError;
use crate::flags::{
    cap_flags, capped, count_flags, count_true, lemma_count_capped, lemma_embeds_itself,
    lemma_unflagged_embeds, remove_flagged, unflagged,
};
use crate::types::{
    views, ChallengeStatus, ChallengeView, EvaluationStatus, EvaluationView, IntentStatus,
    IntentView, OracleIntent, Transfer, TransferView, NANOS_PER_DAY,
};

verus! {

/// How many days decided records are kept by the maintenance that runs by
/// itself.
pub const DEFAULT_RETENTION_DAYS: u64 = 30;

/// After how many intents the maintenance that runs by itself also removes
/// old records.
pub const CLEANUP_INTERVAL: u64 = 100;

/// The most records that one removal takes away.
pub const MAX_DELETIONS: u32 = u32::MAX;

impl IntentView {
    /// A pending intent whose deadline has passed.
    pub open spec fn is_overdue(self, now: u64) -> bool {
        self.status == IntentStatus::Pending && self.deadline < now
    }

    /// The intent after a sweep at `now`: expired if it was overdue.
    pub open spec fn swept(self, now: u64) -> IntentView {
        if self.is_overdue(now) {
            IntentView { status: IntentStatus::Expired, ..self }
        } else {
            self
        }
    }

    /// The refund of the intent's stake to its initiator.
    pub open spec fn refund(self) -> TransferView {
        TransferView { recipient: self.initiator, amount: self.stake }
    }
}

/// The intents after a sweep at `now`.
pub open spec fn swept_intents(intents: Seq<IntentView>, now: u64) -> Seq<IntentView> {
    Seq::new(intents.len(), |i: int| intents[i].swept(now))
}

/// The refunds that a sweep at `now` owes: the stake of each overdue intent,
/// to its initiator, in the order of the intents.
pub open spec fn refunds(intents: Seq<IntentView>, now: u64) -> Seq<TransferView>
    decreases intents.len(),
{
    if intents.len() == 0 {
        Seq::empty()
    } else if intents.last().is_overdue(now) {
        refunds(intents.drop_last(), now).push(intents.last().refund())
    } else {
        refunds(intents.drop_last(), now)
    }
}

/// The time before which decided records are old: `now` less the retention
/// period, and zero where that would be before the start of time.
pub open spec fn cutoff_time(now: u64, retention_days: u64) -> u64 {
    if now >= retention_days * NANOS_PER_DAY {
        (now - retention_days * NANOS_PER_DAY) as u64
    } else {
        0
    }
}

impl ContractView {
    /// The engine after a sweep at `now`.
    pub open spec fn sweep_effect(self, now: u64) -> ContractView {
        ContractView { intents: swept_intents(self.intents, now), ..self }
    }

    /// Whether an undecided evaluation answers this intent.
    pub open spec fn has_live_evaluation(self, intent_id: Seq<char>) -> bool {
        exists|i: int|
            0 <= i < self.evaluations.len() && (#[trigger] self.evaluations[i]).intent_id
                == intent_id && !self.evaluations[i].is_terminal()
    }

    /// Whether an undecided challenge disputes this evaluation.
    pub open spec fn has_live_challenge(self, evaluation_id: Seq<char>) -> bool {
        exists|i: int|
            0 <= i < self.challenges.len() && (#[trigger] self.challenges[i]).evaluation_id
                == evaluation_id && !self.challenges[i].is_terminal()
    }

    /// An intent that may be removed: in a status that it never leaves,
    /// created before the cutoff, and answered by no undecided evaluation.
    pub open spec fn intent_is_prunable(self, intent: IntentView, cutoff: u64) -> bool {
        intent.is_terminal() && intent.created_at < cutoff && !self.has_live_evaluation(
            intent.intent_id,
        )
    }

    /// An evaluation that may be removed: decided, submitted before the
    /// cutoff, and disputed by no undecided challenge.
    pub open spec fn evaluation_is_prunable(self, evaluation: EvaluationView, cutoff: u64) -> bool {
        evaluation.is_terminal() && evaluation.submitted_at < cutoff && !self.has_live_challenge(
            evaluation.evaluation_id,
        )
    }

    /// A challenge that may be removed: decided, and submitted before the
    /// cutoff.
    pub open spec fn challenge_is_prunable(self, challenge: ChallengeView, cutoff: u64) -> bool {
        challenge.is_terminal() && challenge.submitted_at < cutoff
    }

    /// For each intent, whether it may be removed.
    pub open spec fn intent_prune_flags(self, cutoff: u64) -> Seq<bool> {
        Seq::new(self.intents.len(), |i: int| self.intent_is_prunable(self.intents[i], cutoff))
    }

    /// For each evaluation, whether it may be removed.
    pub open spec fn evaluation_prune_flags(self, cutoff: u64) -> Seq<bool> {
        Seq::new(
            self.evaluations.len(),
            |i: int| self.evaluation_is_prunable(self.evaluations[i], cutoff),
        )
    }

    /// For each challenge, whether it may be removed.
    pub open spec fn challenge_prune_flags(self, cutoff: u64) -> Seq<bool> {
        Seq::new(
            self.challenges.len(),
            |i: int| self.challenge_is_prunable(self.challenges[i], cutoff),
        )
    }

    /// The intents that a removal of at most `limit` records takes away: the
    /// first `limit` that may be removed.
    pub open spec fn intents_to_prune(self, cutoff: u64, limit: nat) -> Seq<bool> {
        capped(self.intent_prune_flags(cutoff), limit)
    }

    /// The evaluations that a removal of at most `limit` records takes away,
    /// after the intents.
    pub open spec fn evaluations_to_prune(self, cutoff: u64, limit: nat) -> Seq<bool> {
        capped(
            self.evaluation_prune_flags(cutoff),
            (limit - count_true(self.intents_to_prune(cutoff, limit))) as nat,
        )
    }

    /// The challenges that a removal of at most `limit` records takes away,
    /// after the intents and the evaluations.
    pub open spec fn challenges_to_prune(self, cutoff: u64, limit: nat) -> Seq<bool> {
        capped(
            self.challenge_prune_flags(cutoff),
            (limit - count_true(self.intents_to_prune(cutoff, limit)) - count_true(
                self.evaluations_to_prune(cutoff, limit),
            )) as nat,
        )
    }

    /// How many records a removal of at most `limit` records takes away.
    pub open spec fn cleanup_count(self, cutoff: u64, limit: nat) -> nat {
        count_true(self.intents_to_prune(cutoff, limit)) + count_true(
            self.evaluations_to_prune(cutoff, limit),
        ) + count_true(self.challenges_to_prune(cutoff, limit))
    }

    /// The engine after the removal of old decided intents, evaluations and
    /// challenges, at most `limit` records in all. What may be removed is
    /// decided on the engine as it stands before the removal.
    pub open spec fn cleanup_effect(self, cutoff: u64, limit: nat) -> ContractView {
        ContractView {
            intents: unflagged(self.intents, self.intents_to_prune(cutoff, limit)),
            evaluations: unflagged(self.evaluations, self.evaluations_to_prune(cutoff, limit)),
            challenges: unflagged(self.challenges, self.challenges_to_prune(cutoff, limit)),
            ..self
        }
    }

    /// The engine after the removal of old decided intents, at most `limit`.
    pub open spec fn cleanup_intents_effect(self, cutoff: u64, limit: nat) -> ContractView {
        ContractView {
            intents: unflagged(self.intents, self.intents_to_prune(cutoff, limit)),
            ..self
        }
    }

    /// Why a removal is refused, if it is: the caller is not the owner.
    pub open spec fn cleanup_error(self, caller: Seq<char>) -> Option<OracleError> {
        if !self.is_owner(caller) {
            Some(OracleError::NotOwner)
        } else {
            None
        }
    }

    /// Whether a batch of at most `max_operations` operations at `now` has
    /// operations left for a removal after the sweep.
    pub open spec fn batch_cleans(self, max_operations: u32, now: u64) -> bool {
        refunds(self.intents, now).len() < max_operations
    }

    /// Why a batch is refused, if it is: it would remove records, and the
    /// caller is not the owner.
    pub open spec fn batch_error(self, caller: Seq<char>, max_operations: u32, now: u64) -> Option<
        OracleError,
    > {
        if self.batch_cleans(max_operations, now) && !self.is_owner(caller) {
            Some(OracleError::NotOwner)
        } else {
            None
        }
    }

    /// The engine after a batch: a sweep, and with the operations that the
    /// sweep left, a removal of intents decided over thirty days ago.
    pub open spec fn batch_effect(self, max_operations: u32, now: u64) -> ContractView {
        if self.batch_cleans(max_operations, now) {
            self.sweep_effect(now).cleanup_intents_effect(
                cutoff_time(now, DEFAULT_RETENTION_DAYS),
                (max_operations - refunds(self.intents, now).len()) as nat,
            )
        } else {
            self.sweep_effect(now)
        }
    }

    /// How many intents a batch removes.
    pub open spec fn batch_count(self, max_operations: u32, now: u64) -> nat {
        if self.batch_cleans(max_operations, now) {
            count_true(
                self.sweep_effect(now).intents_to_prune(
                    cutoff_time(now, DEFAULT_RETENTION_DAYS),
                    (max_operations - refunds(self.intents, now).len()) as nat,
                ),
            )
        } else {
            0
        }
    }

    /// Whether the maintenance that runs by itself also removes old records:
    /// it does after every hundredth intent.
    pub open spec fn auto_cleans(self) -> bool {
        self.intent_counter % CLEANUP_INTERVAL == 0
    }

    /// Why the maintenance that runs by itself is refused, if it is: it would
    /// remove records, and the caller is not the owner.
    pub open spec fn auto_cleanup_error(self, caller: Seq<char>) -> Option<OracleError> {
        if self.auto_cleans() && !self.is_owner(caller) {
            Some(OracleError::NotOwner)
        } else {
            None
        }
    }

    /// The engine after the maintenance that runs by itself: a sweep, and
    /// after every hundredth intent a removal of records decided over thirty
    /// days ago.
    pub open spec fn auto_cleanup_effect(self, now: u64) -> ContractView {
        if self.auto_cleans() {
            self.sweep_effect(now).cleanup_effect(
                cutoff_time(now, DEFAULT_RETENTION_DAYS),
                MAX_DELETIONS as nat,
            )
        } else {
            self.sweep_effect(now)
        }
    }

    /// How many records the maintenance that runs by itself removes.
    pub open spec fn auto_cleanup_count(self, now: u64) -> nat {
        if self.auto_cleans() {
            self.sweep_effect(now).cleanup_count(
                cutoff_time(now, DEFAULT_RETENTION_DAYS),
                MAX_DELETIONS as nat,
            )
        } else {
            0
        }
    }
}

/// A sweep leaves the engine well formed.
pub proof fn lemma_sweep_keeps_well_formed(pre: ContractView, now: u64)
    requires
        pre.well_formed(),
    ensures
        pre.sweep_effect(now).well_formed(),
{
    reveal(ContractView::records_well_formed);
    let post = pre.sweep_effect(now);
    lemma_updated_in_place_keeps_well_formed(pre, post);
}

/// A removal leaves the engine well formed.
pub proof fn lemma_cleanup_keeps_well_formed(pre: ContractView, cutoff: u64, limit: nat)
    requires
        pre.well_formed(),
    ensures
        pre.cleanup_effect(cutoff, limit).well_formed(),
        pre.cleanup_intents_effect(cutoff, limit).well_formed(),
        pre.cleanup_count(cutoff, limit) <= limit,
{
    lemma_unflagged_embeds(pre.intents, pre.intents_to_prune(cutoff, limit));
    lemma_unflagged_embeds(pre.evaluations, pre.evaluations_to_prune(cutoff, limit));
    lemma_unflagged_embeds(pre.challenges, pre.challenges_to_prune(cutoff, limit));
    lemma_embeds_itself(pre.evaluations);
    lemma_embeds_itself(pre.challenges);
    lemma_pruned_keeps_well_formed(pre, pre.cleanup_effect(cutoff, limit));
    lemma_pruned_keeps_well_formed(pre, pre.cleanup_intents_effect(cutoff, limit));
    let ni = count_true(pre.intents_to_prune(cutoff, limit));
    let ne = count_true(pre.evaluations_to_prune(cutoff, limit));
    lemma_count_capped(pre.intent_prune_flags(cutoff), limit);
    lemma_count_capped(pre.evaluation_prune_flags(cutoff), (limit - ni) as nat);
    lemma_count_capped(pre.challenge_prune_flags(cutoff), (limit - ni - ne) as nat);
}

/// Expires the overdue intents of a list and returns their refunds.
pub fn expire_overdue(intents: &mut Vec<OracleIntent>, now: u64) -> (owed: Vec<Transfer>)
    ensures
        views(final(intents)@) == swept_intents(views(old(intents)@), now),
        views(owed@) == refunds(views(old(intents)@), now),
{
    let ghost start = views(intents@);
    let mut owed: Vec<Transfer> = Vec::new();
    let mut i: usize = 0;
    while i < intents.len()
        invariant
            i <= intents.len(),
            intents.len() == start.len(),
            forall|j: int| 0 <= j < i ==> (#[trigger] intents@[j])@ == start[j].swept(now),
            forall|j: int| i <= j < intents.len() ==> (#[trigger] intents@[j])@ == start[j],
            views(owed@) == refunds(start.subrange(0, i as int), now),
        decreases intents.len() - i,
    {
        assert(start.subrange(0, i + 1).drop_last() =~= start.subrange(0, i as int));
        if intents[i].status == IntentStatus::Pending && intents[i].deadline < now {
            let refund = Transfer {
                recipient: intents[i].initiator.clone(),
                amount: intents[i].stake,
            };
            owed.push(refund);
            intents[i].status = IntentStatus::Expired;
        }
        i += 1;
    }
    assert(start.subrange(0, i as int) =~= start);
    owed
}

/// Counts the overdue intents of a list.
pub fn count_overdue(intents: &Vec<OracleIntent>, now: u64) -> (n: usize)
    ensures
        n == refunds(views(intents@), now).len(),
{
    let ghost all = views(intents@);
    let mut n: usize = 0;
    let mut i: usize = 0;
    while i < intents.len()
        invariant
            i <= intents.len(),
            all == views(intents@),
            n == refunds(all.subrange(0, i as int), now).len(),
            n <= i,
        decreases intents.len() - i,
    {
        assert(all.subrange(0, i + 1).drop_last() =~= all.subrange(0, i as int));
        if intents[i].status == IntentStatus::Pending && intents[i].deadline < now {
            n += 1;
        }
        i += 1;
    }
    assert(all.subrange(0, i as int) =~= all);
    n
}

/// The time before which decided records are old.
pub fn compute_cutoff(now: u64, retention_days: u64) -> (cutoff: u64)
    ensures
        cutoff == cutoff_time(now, retention_days),
{
    match retention_days.checked_mul(NANOS_PER_DAY) {
        Some(period) => if now >= period {
            now - period
        } else {
            0
        },
        None => 0,
    }
}

impl OracleIntentContract {
    /// Whether an undecided evaluation answers this intent.
    pub fn intent_has_live_evaluation(&self, intent_id: &String) -> (live: bool)
        ensures
            live == self@.has_live_evaluation(intent_id@),
    {
        let mut i: usize = 0;
        while i < self.evaluations.len()
            invariant
                i <= self.evaluations.len(),
                forall|j: int|
                    0 <= j < i ==> !((#[trigger] self@.evaluations[j]).intent_id == intent_id@
                        && !self@.evaluations[j].is_terminal()),
            decreases self.evaluations.len() - i,
        {
            let status = self.evaluations[i].status;
            let decided = status == EvaluationStatus::Confirmed || status
                == EvaluationStatus::Refuted;
            if self.evaluations[i].intent_id == *intent_id && !decided {
                assert(self@.evaluations[i as int].intent_id == intent_id@);
                return true;
            }
            i += 1;
        }
        false
    }

    /// Whether an undecided challenge disputes this evaluation.
    pub fn evaluation_has_live_challenge(&self, evaluation_id: &String) -> (live: bool)
        ensures
            live == self@.has_live_challenge(evaluation_id@),
    {
        let mut i: usize = 0;
        while i < self.challenges.len()
            invariant
                i <= self.challenges.len(),
                forall|j: int|
                    0 <= j < i ==> !((#[trigger] self@.challenges[j]).evaluation_id
                        == evaluation_id@ && !self@.challenges[j].is_terminal()),
            decreases self.challenges.len() - i,
        {
            let status = self.challenges[i].status;
            let decided = status == ChallengeStatus::Successful || status
                == ChallengeStatus::Failed;
            if self.challenges[i].evaluation_id == *evaluation_id && !decided {
                assert(self@.challenges[i as int].evaluation_id == evaluation_id@);
                return true;
            }
            i += 1;
        }
        false
    }

    /// For each intent, whether it may be removed.
    pub fn mark_prunable_intents(&self, cutoff: u64) -> (marks: Vec<bool>)
        ensures
            marks@ == self@.intent_prune_flags(cutoff),
    {
        let mut marks: Vec<bool> = Vec::new();
        let mut i: usize = 0;
        while i < self.intents.len()
            invariant
                i <= self.intents.len(),
                marks.len() == i,
                forall|j: int|
                    0 <= j < i ==> marks@[j] == self@.intent_is_prunable(self@.intents[j], cutoff),
            decreases self.intents.len() - i,
        {
            let status = self.intents[i].status;
            let terminal = status == IntentStatus::Completed || status == IntentStatus::Settled
                || status == IntentStatus::Expired;
            let mark = terminal && self.intents[i].created_at < cutoff
                && !self.intent_has_live_evaluation(&self.intents[i].intent_id);
            marks.push(mark);
            i += 1;
        }
        marks
    }

    /// For each evaluation, whether it may be removed.
    pub fn mark_prunable_evaluations(&self, cutoff: u64) -> (marks: Vec<bool>)
        ensures
            marks@ == self@.evaluation_prune_flags(cutoff),
    {
        let mut marks: Vec<bool> = Vec::new();
        let mut i: usize = 0;
        while i < self.evaluations.len()
            invariant
                i <= self.evaluations.len(),
                marks.len() == i,
                forall|j: int|
                    0 <= j < i ==> marks@[j] == self@.evaluation_is_prunable(
                        self@.evaluations[j],
                        cutoff,
                    ),
            decreases self.evaluations.len() - i,
        {
            let status = self.evaluations[i].status;
            let terminal = status == EvaluationStatus::Confirmed || status
                == EvaluationStatus::Refuted;
            let mark = terminal && self.evaluations[i].submitted_at < cutoff
                && !self.evaluation_has_live_challenge(&self.evaluations[i].evaluation_id);
            marks.push(mark);
            i += 1;
        }
        marks
    }

    /// For each challenge, whether it may be removed.
    pub fn mark_prunable_challenges(&self, cutoff: u64) -> (marks: Vec<bool>)
        ensures
            marks@ == self@.challenge_prune_flags(cutoff),
    {
        let mut marks: Vec<bool> = Vec::new();
        let mut i: usize = 0;
        while i < self.challenges.len()
            invariant
                i <= self.challenges.len(),
                marks.len() == i,
                forall|j: int|
                    0 <= j < i ==> marks@[j] == self@.challenge_is_prunable(
                        self@.challenges[j],
                        cutoff,
                    ),
            decreases self.challenges.len() - i,
        {
            let status = self.challenges[i].status;
            let terminal = status == ChallengeStatus::Successful || status
                == ChallengeStatus::Failed;
            marks.push(terminal && self.challenges[i].submitted_at < cutoff);
            i += 1;
        }
        marks
    }

    /// Expires every pending intent whose deadline has passed and returns the
    /// refunds of their stakes, in the order of the intents. Anyone may call
    /// it, as often as they like.
    pub fn process_expired_intents(&mut self, now: u64) -> (owed: Vec<Transfer>)
        requires
            old(self).well_formed(),
        ensures
            final(self).well_formed(),
            final(self)@ == old(self)@.sweep_effect(now),
            views(owed@) == refunds(old(self)@.intents, now),
    {
        proof {
            lemma_sweep_keeps_well_formed(self@, now);
        }
        expire_overdue(&mut self.intents, now)
    }

    fn prune(&mut self, cutoff: u64, limit: u32) -> (removed: u32)
        requires
            old(self).well_formed(),
        ensures
            final(self).well_formed(),
            final(self)@ == old(self)@.cleanup_effect(cutoff, limit as nat),
            removed == old(self)@.cleanup_count(cutoff, limit as nat),
    {
        let ghost pre = self@;
        let mut intent_marks = self.mark_prunable_intents(cutoff);
        let mut evaluation_marks = self.mark_prunable_evaluations(cutoff);
        let mut challenge_marks = self.mark_prunable_challenges(cutoff);
        proof {
            lemma_cleanup_keeps_well_formed(pre, cutoff, limit as nat);
        }
        cap_flags(&mut intent_marks, limit as usize);
        let intents_removed = count_flags(&intent_marks);
        let left = limit as usize - intents_removed;
        cap_flags(&mut evaluation_marks, left);
        let evaluations_removed = count_flags(&evaluation_marks);
        let left = left - evaluations_removed;
        cap_flags(&mut challenge_marks, left);
        let challenges_removed = count_flags(&challenge_marks);
        remove_flagged(&mut self.intents, &intent_marks);
        remove_flagged(&mut self.evaluations, &evaluation_marks);
        remove_flagged(&mut self.challenges, &challenge_marks);
        (intents_removed + evaluations_removed + challenges_removed) as u32
    }

    fn prune_intents(&mut self, cutoff: u64, limit: u32) -> (removed: u32)
        requires
            old(self).well_formed(),
        ensures
            final(self).well_formed(),
            final(self)@ == old(self)@.cleanup_intents_effect(cutoff, limit as nat),
            removed == count_true(old(self)@.intents_to_prune(cutoff, limit as nat)),
    {
        let ghost pre = self@;
        let mut intent_marks = self.mark_prunable_intents(cutoff);
        proof {
            lemma_cleanup_keeps_well_formed(pre, cutoff, limit as nat);
        }
        cap_flags(&mut intent_marks, limit as usize);
        let removed = count_flags(&intent_marks);
        remove_flagged(&mut self.intents, &intent_marks);
        removed as u32
    }

    /// Removes decided intents, evaluations and challenges that are older than
    /// `retention_days` days, and returns how many it removed. A record that an
    /// undecided evaluation or challenge still refers to stays. Only the owner
    /// may remove records. Nothing is paid or refunded.
    pub fn cleanup_old_data(&mut self, caller: String, retention_days: u64, now: u64) -> (result:
        Result<u32, OracleError>)
        requires
            old(self).well_formed(),
        ensures
            final(self).well_formed(),
            match result {
                Ok(removed) => {
                    &&& old(self)@.cleanup_error(caller@) is None
                    &&& final(self)@ == old(self)@.cleanup_effect(
                        cutoff_time(now, retention_days),
                        MAX_DELETIONS as nat,
                    )
                    &&& removed == old(self)@.cleanup_count(
                        cutoff_time(now, retention_days),
                        MAX_DELETIONS as nat,
                    )
                },
                Err(e) => {
                    &&& old(self)@.cleanup_error(caller@) == Some(e)
                    &&& final(self)@ == old(self)@
                },
            },
    {
        if !self.caller_is_owner(&caller) {
            return Err(OracleError::NotOwner);
        }
        let cutoff = compute_cutoff(now, retention_days);
        Ok(self.prune(cutoff, MAX_DELETIONS))
    }

    /// Removes decided intents that are older than `retention_days` days, the
    /// first `max_deletions` of them at most, and returns how many it
    /// removed. Only the owner may remove records.
    pub fn cleanup_old_data_limited(
        &mut self,
        caller: String,
        retention_days: u64,
        max_deletions: u32,
        now: u64,
    ) -> (result: Result<u32, OracleError>)
        requires
            old(self).well_formed(),
        ensures
            final(self).well_formed(),
            match result {
                Ok(removed) => {
                    &&& old(self)@.cleanup_error(caller@) is None
                    &&& final(self)@ == old(self)@.cleanup_intents_effect(
                        cutoff_time(now, retention_days),
                        max_deletions as nat,
                    )
                    &&& removed == count_true(
                        old(self)@.intents_to_prune(
                            cutoff_time(now, retention_days),
                            max_deletions as nat,
                        ),
                    )
                    &&& removed <= max_deletions
                },
                Err(e) => {
                    &&& old(self)@.cleanup_error(caller@) == Some(e)
                    &&& final(self)@ == old(self)@
                },
            },
    {
        if !self.caller_is_owner(&caller) {
            return Err(OracleError::NotOwner);
        }
        let cutoff = compute_cutoff(now, retention_days);
        proof {
            lemma_count_capped(self@.intent_prune_flags(cutoff), max_deletions as nat);
        }
        Ok(self.prune_intents(cutoff, max_deletions))
    }

    /// Sweeps the overdue intents and, with the operations that are left of
    /// `max_operations`, removes intents decided over thirty days ago.
    /// Returns the refunds of the sweep and how many intents were removed.
    /// The removal is the owner's alone: where there would be one, another
    /// caller is refused and nothing happens.
    pub fn batch_process_expired_and_cleanup(
        &mut self,
        caller: String,
        max_operations: u32,
        now: u64,
    ) -> (result: Result<(Vec<Transfer>, u32), OracleError>)
        requires
            old(self).well_formed(),
        ensures
            final(self).well_formed(),
            match result {
                Ok((owed, removed)) => {
                    &&& old(self)@.batch_error(caller@, max_operations, now) is None
                    &&& final(self)@ == old(self)@.batch_effect(max_operations, now)
                    &&& views(owed@) == refunds(old(self)@.intents, now)
                    &&& removed == old(self)@.batch_count(max_operations, now)
                },
                Err(e) => {
                    &&& old(self)@.batch_error(caller@, max_operations, now) == Some(e)
                    &&& final(self)@ == old(self)@
                },
            },
    {
        let expired = count_overdue(&self.intents, now);
        let cleans = expired < max_operations as usize;
        if cleans && !self.caller_is_owner(&caller) {
            return Err(OracleError::NotOwner);
        }
        let owed = self.process_expired_intents(now);
        if cleans {
            let cutoff = compute_cutoff(now, DEFAULT_RETENTION_DAYS);
            let removed = self.prune_intents(cutoff, max_operations - expired as u32);
            Ok((owed, removed))
        } else {
            Ok((owed, 0))
        }
    }

    /// The maintenance that runs by itself: sweeps the overdue intents and,
    /// after every hundredth intent, removes records decided over thirty days
    /// ago. Returns the refunds of the sweep and how many records were
    /// removed. The removal is the owner's alone: where there would be one,
    /// another caller is refused and nothing happens.
    pub fn auto_cleanup(&mut self, caller: String, now: u64) -> (result: Result<
        (Vec<Transfer>, u32),
        OracleError,
    >)
        requires
            old(self).well_formed(),
        ensures
            final(self).well_formed(),
            match result {
                Ok((owed, removed)) => {
                    &&& old(self)@.auto_cleanup_error(caller@) is None
                    &&& final(self)@ == old(self)@.auto_cleanup_effect(now)
                    &&& views(owed@) == refunds(old(self)@.intents, now)
                    &&& removed == old(self)@.auto_cleanup_count(now)
                },
                Err(e) => {
                    &&& old(self)@.auto_cleanup_error(caller@) == Some(e)
                    &&& final(self)@ == old(self)@
                },
            },
    {
        let cleans = self.intent_counter % CLEANUP_INTERVAL == 0;
        if cleans && !self.caller_is_owner(&caller) {
            return Err(OracleError::NotOwner);
        }
        let owed = self.process_expired_intents(now);
        if cleans {
            let cutoff = compute_cutoff(now, DEFAULT_RETENTION_DAYS);
            let removed = self.prune(cutoff, MAX_DELETIONS);
            Ok((owed, removed))
        } else {
            Ok((owed, 0))
        }
    }
}

} // verus!
