//! Deciding whether an engine is well formed, for engines that come from
//! outside: out of storage, or built by hand.
use vstd::prelude::*;
use crate::contract::{ContractView, OracleIntentContract};
use crate::evaluations::{check_sources, lemma_sources_error_none};
use crate::parse::check_issued;
use crate::scoring::confidence_is_valid;
use crate::store::{distinct_keys, Keyed};
use crate::text::{challenge_prefix, evaluation_prefix, intent_prefix, is_issued};
use crate::types::{
    views, ChallengeStatus, EvaluationStatus, IntentStatus, OracleEvaluation,
    MAX_SOURCES_PER_EVALUATION,
};

verus! {

/// No text occurs twice in the list.
pub open spec fn distinct_texts(texts: Seq<Seq<char>>) -> bool {
    forall|i: int, j: int| 0 <= i < j < texts.len() ==> texts[i] != texts[j]
}

/// Every text of the list is one of the first `issued` identifiers of the
/// family.
pub open spec fn all_issued(texts: Seq<Seq<char>>, prefix: Seq<char>, issued: nat) -> bool {
    forall|i: int| 0 <= i < texts.len() ==> is_issued(prefix, issued, #[trigger] texts[i])
}

/// Decides whether no text occurs twice in a list.
pub fn texts_are_distinct(texts: &Vec<String>) -> (yes: bool)
    ensures
        yes == distinct_texts(views(texts@)),
{
    let ghost all = views(texts@);
    let mut j: usize = 0;
    while j < texts.len()
        invariant
            j <= texts.len(),
            all == views(texts@),
            forall|a: int, b: int| 0 <= a < b < j ==> all[a] != all[b],
        decreases texts.len() - j,
    {
        let mut i: usize = 0;
        while i < j
            invariant
                i <= j < texts.len(),
                all == views(texts@),
                forall|a: int| 0 <= a < i ==> all[a] != all[j as int],
            decreases j - i,
        {
            if texts[i] == texts[j] {
                assert(all[i as int] == all[j as int]);
                return false;
            }
            i += 1;
        }
        j += 1;
    }
    true
}

/// Decides whether every text of a list is one of the first `issued`
/// identifiers of the family with the given prefix.
pub fn texts_are_issued(texts: &Vec<String>, prefix: &str, issued: u64) -> (yes: bool)
    ensures
        yes == all_issued(views(texts@), prefix@, issued as nat),
{
    let ghost all = views(texts@);
    let mut i: usize = 0;
    while i < texts.len()
        invariant
            i <= texts.len(),
            all == views(texts@),
            forall|a: int| 0 <= a < i ==> is_issued(prefix@, issued as nat, #[trigger] all[a]),
        decreases texts.len() - i,
    {
        if !check_issued(texts[i].as_str(), prefix, issued) {
            assert(!is_issued(prefix@, issued as nat, all[i as int]));
            return false;
        }
        i += 1;
    }
    true
}

impl OracleEvaluation {
    /// Decides whether the evaluation is well formed by itself.
    pub fn is_well_formed(&self) -> (yes: bool)
        ensures
            yes == self@.well_formed(),
    {
        proof {
            lemma_sources_error_none(views(self.sources@));
        }
        confidence_is_valid(self.confidence) && 1 <= self.sources.len() && self.sources.len()
            <= MAX_SOURCES_PER_EVALUATION && check_sources(&self.sources).is_none()
    }
}

impl OracleIntentContract {
    fn intent_ids(&self) -> (ids: Vec<String>)
        ensures
            views(ids@) == Seq::new(self@.intents.len(), |i: int| self@.intents[i].intent_id),
    {
        let mut ids: Vec<String> = Vec::new();
        let mut i: usize = 0;
        while i < self.intents.len()
            invariant
                i <= self.intents.len(),
                ids.len() == i,
                forall|j: int| 0 <= j < i ==> ids@[j]@ == self@.intents[j].intent_id,
            decreases self.intents.len() - i,
        {
            ids.push(self.intents[i].intent_id.clone());
            i += 1;
        }
        ids
    }

    fn evaluation_ids(&self) -> (ids: Vec<String>)
        ensures
            views(ids@) == Seq::new(
                self@.evaluations.len(),
                |i: int| self@.evaluations[i].evaluation_id,
            ),
    {
        let mut ids: Vec<String> = Vec::new();
        let mut i: usize = 0;
        while i < self.evaluations.len()
            invariant
                i <= self.evaluations.len(),
                ids.len() == i,
                forall|j: int| 0 <= j < i ==> ids@[j]@ == self@.evaluations[j].evaluation_id,
            decreases self.evaluations.len() - i,
        {
            ids.push(self.evaluations[i].evaluation_id.clone());
            i += 1;
        }
        ids
    }

    fn evaluated_intent_ids(&self) -> (ids: Vec<String>)
        ensures
            views(ids@) == Seq::new(
                self@.evaluations.len(),
                |i: int| self@.evaluations[i].intent_id,
            ),
    {
        let mut ids: Vec<String> = Vec::new();
        let mut i: usize = 0;
        while i < self.evaluations.len()
            invariant
                i <= self.evaluations.len(),
                ids.len() == i,
                forall|j: int| 0 <= j < i ==> ids@[j]@ == self@.evaluations[j].intent_id,
            decreases self.evaluations.len() - i,
        {
            ids.push(self.evaluations[i].intent_id.clone());
            i += 1;
        }
        ids
    }

    fn challenge_ids(&self) -> (ids: Vec<String>)
        ensures
            views(ids@) == Seq::new(
                self@.challenges.len(),
                |i: int| self@.challenges[i].challenge_id,
            ),
    {
        let mut ids: Vec<String> = Vec::new();
        let mut i: usize = 0;
        while i < self.challenges.len()
            invariant
                i <= self.challenges.len(),
                ids.len() == i,
                forall|j: int| 0 <= j < i ==> ids@[j]@ == self@.challenges[j].challenge_id,
            decreases self.challenges.len() - i,
        {
            ids.push(self.challenges[i].challenge_id.clone());
            i += 1;
        }
        ids
    }

    fn challenged_evaluation_ids(&self) -> (ids: Vec<String>)
        ensures
            views(ids@) == Seq::new(
                self@.challenges.len(),
                |i: int| self@.challenges[i].evaluation_id,
            ),
    {
        let mut ids: Vec<String> = Vec::new();
        let mut i: usize = 0;
        while i < self.challenges.len()
            invariant
                i <= self.challenges.len(),
                ids.len() == i,
                forall|j: int| 0 <= j < i ==> ids@[j]@ == self@.challenges[j].evaluation_id,
            decreases self.challenges.len() - i,
        {
            ids.push(self.challenges[i].evaluation_id.clone());
            i += 1;
        }
        ids
    }

    fn solver_ids(&self) -> (ids: Vec<String>)
        ensures
            views(ids@) == Seq::new(self@.solvers.len(), |i: int| self@.solvers[i].solver_id),
    {
        let mut ids: Vec<String> = Vec::new();
        let mut i: usize = 0;
        while i < self.solvers.len()
            invariant
                i <= self.solvers.len(),
                ids.len() == i,
                forall|j: int| 0 <= j < i ==> ids@[j]@ == self@.solvers[j].solver_id,
            decreases self.solvers.len() - i,
        {
            ids.push(self.solvers[i].solver_id.clone());
            i += 1;
        }
        ids
    }

    fn bonded_accounts(&self) -> (ids: Vec<String>)
        ensures
            views(ids@) == Seq::new(
                self@.solver_stakes.len(),
                |i: int| self@.solver_stakes[i].account,
            ),
    {
        let mut ids: Vec<String> = Vec::new();
        let mut i: usize = 0;
        while i < self.solver_stakes.len()
            invariant
                i <= self.solver_stakes.len(),
                ids.len() == i,
                forall|j: int| 0 <= j < i ==> ids@[j]@ == self@.solver_stakes[j].account,
            decreases self.solver_stakes.len() - i,
        {
            ids.push(self.solver_stakes[i].account.clone());
            i += 1;
        }
        assert(views(ids@) =~= Seq::new(
            self@.solver_stakes.len(),
            |i: int| self@.solver_stakes[i].account,
        ));
        ids
    }

    fn user_ids(&self) -> (ids: Vec<String>)
        ensures
            views(ids@) == Seq::new(self@.users.len(), |i: int| self@.users[i].account_id),
    {
        let mut ids: Vec<String> = Vec::new();
        let mut i: usize = 0;
        while i < self.users.len()
            invariant
                i <= self.users.len(),
                ids.len() == i,
                forall|j: int| 0 <= j < i ==> ids@[j]@ == self@.users[j].account_id,
            decreases self.users.len() - i,
        {
            ids.push(self.users[i].account_id.clone());
            i += 1;
        }
        ids
    }

    /// Decides whether every record's identifier was issued and no two
    /// records of a family share a key.
    pub fn keys_are_well_formed(&self) -> (yes: bool)
        ensures
            yes == self@.keys_well_formed(),
    {
        proof {
            reveal(ContractView::keys_well_formed);
            reveal_strlit("intent_");
            reveal_strlit("eval_");
            reveal_strlit("challenge_");
            assert("intent_"@ =~= intent_prefix());
            assert("eval_"@ =~= evaluation_prefix());
            assert("challenge_"@ =~= challenge_prefix());
        }
        let intents = self.intent_ids();
        let evaluations = self.evaluation_ids();
        let challenges = self.challenge_ids();
        let solvers = self.solver_ids();
        let bonds = self.bonded_accounts();
        let users = self.user_ids();
        let issued = texts_are_issued(&intents, "intent_", self.intent_counter)
            && texts_are_issued(&evaluations, "eval_", self.evaluation_counter)
            && texts_are_issued(&challenges, "challenge_", self.challenge_counter);
        let distinct = texts_are_distinct(&intents) && texts_are_distinct(&evaluations)
            && texts_are_distinct(&challenges) && texts_are_distinct(&solvers)
            && texts_are_distinct(&bonds) && texts_are_distinct(&users);
        proof {
            let v = self@;
            assert(all_issued(views(intents@), intent_prefix(), v.intent_counter as nat)
                <==> forall|i: int|
                0 <= i < v.intents.len() ==> is_issued(
                    intent_prefix(),
                    v.intent_counter as nat,
                    (#[trigger] v.intents[i]).intent_id,
                )) by {
                if all_issued(views(intents@), intent_prefix(), v.intent_counter as nat) {
                    assert forall|i: int| 0 <= i < v.intents.len() implies is_issued(
                        intent_prefix(),
                        v.intent_counter as nat,
                        (#[trigger] v.intents[i]).intent_id,
                    ) by {
                        assert(views(intents@)[i] == v.intents[i].intent_id);
                    }
                }
            }
            assert(all_issued(
                views(evaluations@),
                evaluation_prefix(),
                v.evaluation_counter as nat,
            ) <==> forall|i: int|
                0 <= i < v.evaluations.len() ==> is_issued(
                    evaluation_prefix(),
                    v.evaluation_counter as nat,
                    (#[trigger] v.evaluations[i]).evaluation_id,
                )) by {
                if all_issued(
                    views(evaluations@),
                    evaluation_prefix(),
                    v.evaluation_counter as nat,
                ) {
                    assert forall|i: int| 0 <= i < v.evaluations.len() implies is_issued(
                        evaluation_prefix(),
                        v.evaluation_counter as nat,
                        (#[trigger] v.evaluations[i]).evaluation_id,
                    ) by {
                        assert(views(evaluations@)[i] == v.evaluations[i].evaluation_id);
                    }
                }
            }
            assert(all_issued(views(challenges@), challenge_prefix(), v.challenge_counter as nat)
                <==> forall|i: int|
                0 <= i < v.challenges.len() ==> is_issued(
                    challenge_prefix(),
                    v.challenge_counter as nat,
                    (#[trigger] v.challenges[i]).challenge_id,
                )) by {
                if all_issued(
                    views(challenges@),
                    challenge_prefix(),
                    v.challenge_counter as nat,
                ) {
                    assert forall|i: int| 0 <= i < v.challenges.len() implies is_issued(
                        challenge_prefix(),
                        v.challenge_counter as nat,
                        (#[trigger] v.challenges[i]).challenge_id,
                    ) by {
                        assert(views(challenges@)[i] == v.challenges[i].challenge_id);
                    }
                }
            }
            assert(distinct_texts(views(intents@)) <==> distinct_keys(v.intents)) by {
                if distinct_texts(views(intents@)) {
                    assert forall|i: int, j: int| 0 <= i < j < v.intents.len() implies (
                    #[trigger] v.intents[i]).key() != (#[trigger] v.intents[j]).key() by {
                        assert(views(intents@)[i] != views(intents@)[j]);
                    }
                }
            }
            assert(distinct_texts(views(evaluations@)) <==> distinct_keys(v.evaluations)) by {
                if distinct_texts(views(evaluations@)) {
                    assert forall|i: int, j: int| 0 <= i < j < v.evaluations.len() implies (
                    #[trigger] v.evaluations[i]).key() != (#[trigger] v.evaluations[j]).key() by {
                        assert(views(evaluations@)[i] != views(evaluations@)[j]);
                    }
                }
            }
            assert(distinct_texts(views(challenges@)) <==> distinct_keys(v.challenges)) by {
                if distinct_texts(views(challenges@)) {
                    assert forall|i: int, j: int| 0 <= i < j < v.challenges.len() implies (
                    #[trigger] v.challenges[i]).key() != (#[trigger] v.challenges[j]).key() by {
                        assert(views(challenges@)[i] != views(challenges@)[j]);
                    }
                }
            }
            assert(distinct_texts(views(solvers@)) <==> distinct_keys(v.solvers)) by {
                if distinct_texts(views(solvers@)) {
                    assert forall|i: int, j: int| 0 <= i < j < v.solvers.len() implies (
                    #[trigger] v.solvers[i]).key() != (#[trigger] v.solvers[j]).key() by {
                        assert(views(solvers@)[i] != views(solvers@)[j]);
                    }
                }
            }
            assert(distinct_texts(views(bonds@)) <==> distinct_keys(v.solver_stakes)) by {
                if distinct_texts(views(bonds@)) {
                    assert forall|i: int, j: int| 0 <= i < j < v.solver_stakes.len() implies (
                    #[trigger] v.solver_stakes[i]).key() != (
                    #[trigger] v.solver_stakes[j]).key() by {
                        assert(views(bonds@)[i] != views(bonds@)[j]);
                    }
                }
            }
            assert(distinct_texts(views(users@)) <==> distinct_keys(v.users)) by {
                if distinct_texts(views(users@)) {
                    assert forall|i: int, j: int| 0 <= i < j < v.users.len() implies (
                    #[trigger] v.users[i]).key() != (#[trigger] v.users[j]).key() by {
                        assert(views(users@)[i] != views(users@)[j]);
                    }
                }
            }
        }
        issued && distinct
    }

    /// Decides whether no evaluation answers a pending intent.
    fn evaluations_answer_no_pending_intent(&self) -> (yes: bool)
        ensures
            yes == forall|i: int, j: int|
                0 <= i < self@.evaluations.len() && 0 <= j < self@.intents.len() && (
                #[trigger] self@.evaluations[i]).intent_id == (
                #[trigger] self@.intents[j]).intent_id ==> self@.intents[j].status
                    != IntentStatus::Pending,
    {
        let mut i: usize = 0;
        while i < self.evaluations.len()
            invariant
                i <= self.evaluations.len(),
                forall|a: int, b: int|
                    0 <= a < i && 0 <= b < self@.intents.len() && (
                    #[trigger] self@.evaluations[a]).intent_id == (
                    #[trigger] self@.intents[b]).intent_id ==> self@.intents[b].status
                        != IntentStatus::Pending,
            decreases self.evaluations.len() - i,
        {
            let mut j: usize = 0;
            while j < self.intents.len()
                invariant
                    i < self.evaluations.len(),
                    j <= self.intents.len(),
                    forall|b: int|
                        0 <= b < j && self@.evaluations[i as int].intent_id == (
                        #[trigger] self@.intents[b]).intent_id ==> self@.intents[b].status
                            != IntentStatus::Pending,
                decreases self.intents.len() - j,
            {
                if self.evaluations[i].intent_id == self.intents[j].intent_id
                    && self.intents[j].status == IntentStatus::Pending {
                    assert(self@.evaluations[i as int].intent_id
                        == self@.intents[j as int].intent_id);
                    return false;
                }
                j += 1;
            }
            i += 1;
        }
        true
    }

    /// Decides whether every challenge disputes, with a larger stake, an
    /// evaluation that is no longer open, and is undecided as long as the
    /// evaluation is under challenge.
    fn challenges_dispute_no_open_evaluation(&self) -> (yes: bool)
        ensures
            yes == forall|i: int, j: int|
                0 <= i < self@.challenges.len() && 0 <= j < self@.evaluations.len() && (
                #[trigger] self@.challenges[i]).evaluation_id == (
                #[trigger] self@.evaluations[j]).evaluation_id ==> {
                    &&& self@.evaluations[j].status != EvaluationStatus::Submitted
                    &&& self@.challenges[i].stake > self@.evaluations[j].stake
                    &&& self@.evaluations[j].status == EvaluationStatus::Challenged
                        ==> self@.challenges[i].status == ChallengeStatus::Submitted
                },
    {
        let mut i: usize = 0;
        while i < self.challenges.len()
            invariant
                i <= self.challenges.len(),
                forall|a: int, b: int|
                    0 <= a < i && 0 <= b < self@.evaluations.len() && (
                    #[trigger] self@.challenges[a]).evaluation_id == (
                    #[trigger] self@.evaluations[b]).evaluation_id ==> {
                        &&& self@.evaluations[b].status != EvaluationStatus::Submitted
                        &&& self@.challenges[a].stake > self@.evaluations[b].stake
                        &&& self@.evaluations[b].status == EvaluationStatus::Challenged
                            ==> self@.challenges[a].status == ChallengeStatus::Submitted
                    },
            decreases self.challenges.len() - i,
        {
            let mut j: usize = 0;
            while j < self.evaluations.len()
                invariant
                    i < self.challenges.len(),
                    j <= self.evaluations.len(),
                    forall|b: int|
                        0 <= b < j && self@.challenges[i as int].evaluation_id == (
                        #[trigger] self@.evaluations[b]).evaluation_id ==> {
                            &&& self@.evaluations[b].status != EvaluationStatus::Submitted
                            &&& self@.challenges[i as int].stake > self@.evaluations[b].stake
                            &&& self@.evaluations[b].status == EvaluationStatus::Challenged
                                ==> self@.challenges[i as int].status
                                == ChallengeStatus::Submitted
                        },
                decreases self.evaluations.len() - j,
            {
                if self.challenges[i].evaluation_id == self.evaluations[j].evaluation_id && (
                self.evaluations[j].status == EvaluationStatus::Submitted
                    || self.challenges[i].stake <= self.evaluations[j].stake || (
                self.evaluations[j].status == EvaluationStatus::Challenged
                    && self.challenges[i].status != ChallengeStatus::Submitted)) {
                    assert(self@.challenges[i as int].evaluation_id
                        == self@.evaluations[j as int].evaluation_id);
                    return false;
                }
                j += 1;
            }
            i += 1;
        }
        true
    }

    /// Decides whether the references between the records are well formed.
    pub fn references_are_well_formed(&self) -> (yes: bool)
        ensures
            yes == self@.references_well_formed(),
    {
        proof {
            reveal(ContractView::references_well_formed);
            reveal_strlit("intent_");
            reveal_strlit("eval_");
            assert("intent_"@ =~= intent_prefix());
            assert("eval_"@ =~= evaluation_prefix());
        }
        let answered = self.evaluated_intent_ids();
        let disputed = self.challenged_evaluation_ids();
        let issued = texts_are_issued(&answered, "intent_", self.intent_counter)
            && texts_are_issued(&disputed, "eval_", self.evaluation_counter);
        let distinct = texts_are_distinct(&answered) && texts_are_distinct(&disputed);
        let crossed = self.evaluations_answer_no_pending_intent()
            && self.challenges_dispute_no_open_evaluation();
        proof {
            let v = self@;
            assert(all_issued(views(answered@), intent_prefix(), v.intent_counter as nat)
                <==> forall|i: int|
                0 <= i < v.evaluations.len() ==> is_issued(
                    intent_prefix(),
                    v.intent_counter as nat,
                    (#[trigger] v.evaluations[i]).intent_id,
                )) by {
                if all_issued(views(answered@), intent_prefix(), v.intent_counter as nat) {
                    assert forall|i: int| 0 <= i < v.evaluations.len() implies is_issued(
                        intent_prefix(),
                        v.intent_counter as nat,
                        (#[trigger] v.evaluations[i]).intent_id,
                    ) by {
                        assert(views(answered@)[i] == v.evaluations[i].intent_id);
                    }
                }
            }
            assert(all_issued(views(disputed@), evaluation_prefix(), v.evaluation_counter as nat)
                <==> forall|i: int|
                0 <= i < v.challenges.len() ==> is_issued(
                    evaluation_prefix(),
                    v.evaluation_counter as nat,
                    (#[trigger] v.challenges[i]).evaluation_id,
                )) by {
                if all_issued(
                    views(disputed@),
                    evaluation_prefix(),
                    v.evaluation_counter as nat,
                ) {
                    assert forall|i: int| 0 <= i < v.challenges.len() implies is_issued(
                        evaluation_prefix(),
                        v.evaluation_counter as nat,
                        (#[trigger] v.challenges[i]).evaluation_id,
                    ) by {
                        assert(views(disputed@)[i] == v.challenges[i].evaluation_id);
                    }
                }
            }
            assert(distinct_texts(views(answered@)) <==> forall|i: int, j: int|
                0 <= i < j < v.evaluations.len() ==> (#[trigger] v.evaluations[i]).intent_id != (
                #[trigger] v.evaluations[j]).intent_id) by {
                if distinct_texts(views(answered@)) {
                    assert forall|i: int, j: int| 0 <= i < j < v.evaluations.len() implies (
                    #[trigger] v.evaluations[i]).intent_id != (
                    #[trigger] v.evaluations[j]).intent_id by {
                        assert(views(answered@)[i] != views(answered@)[j]);
                    }
                } else {
                    let (i, j) = choose|i: int, j: int|
                        0 <= i < j < views(answered@).len() && views(answered@)[i] == views(
                            answered@,
                        )[j];
                }
            }
            assert(distinct_texts(views(disputed@)) <==> forall|i: int, j: int|
                0 <= i < j < v.challenges.len() ==> (#[trigger] v.challenges[i]).evaluation_id
                    != (#[trigger] v.challenges[j]).evaluation_id) by {
                if distinct_texts(views(disputed@)) {
                    assert forall|i: int, j: int| 0 <= i < j < v.challenges.len() implies (
                    #[trigger] v.challenges[i]).evaluation_id != (
                    #[trigger] v.challenges[j]).evaluation_id by {
                        assert(views(disputed@)[i] != views(disputed@)[j]);
                    }
                } else {
                    let (i, j) = choose|i: int, j: int|
                        0 <= i < j < views(disputed@).len() && views(disputed@)[i] == views(
                            disputed@,
                        )[j];
                }
            }
        }
        issued && distinct && crossed
    }

    /// Decides whether each record is well formed by itself.
    pub fn records_are_well_formed(&self) -> (yes: bool)
        ensures
            yes == self@.records_well_formed(),
    {
        proof {
            reveal(ContractView::records_well_formed);
        }
        let mut i: usize = 0;
        while i < self.intents.len()
            invariant
                i <= self.intents.len(),
                forall|a: int|
                    0 <= a < i ==> (#[trigger] self@.intents[a]).reward == self@.intents[a].stake
                        && self@.intents[a].created_at <= self@.intents[a].deadline,
            decreases self.intents.len() - i,
        {
            if self.intents[i].reward != self.intents[i].stake || self.intents[i].created_at
                > self.intents[i].deadline {
                assert(!(self@.intents[i as int].reward == self@.intents[i as int].stake
                    && self@.intents[i as int].created_at <= self@.intents[i as int].deadline));
                proof {
                    reveal(ContractView::records_well_formed);
                }
                return false;
            }
            i += 1;
        }
        let mut i: usize = 0;
        while i < self.evaluations.len()
            invariant
                i <= self.evaluations.len(),
                forall|a: int| 0 <= a < i ==> (#[trigger] self@.evaluations[a]).well_formed(),
            decreases self.evaluations.len() - i,
        {
            if !self.evaluations[i].is_well_formed() {
                assert(!self@.evaluations[i as int].well_formed());
                proof {
                    reveal(ContractView::records_well_formed);
                }
                return false;
            }
            i += 1;
        }
        let mut i: usize = 0;
        while i < self.challenges.len()
            invariant
                i <= self.challenges.len(),
                forall|a: int|
                    0 <= a < i ==> (#[trigger] self@.challenges[a]).counter_sources.len() > 0,
            decreases self.challenges.len() - i,
        {
            if self.challenges[i].counter_sources.len() == 0 {
                assert(!(self@.challenges[i as int].counter_sources.len() > 0));
                proof {
                    reveal(ContractView::records_well_formed);
                }
                return false;
            }
            i += 1;
        }
        let mut i: usize = 0;
        while i < self.solvers.len()
            invariant
                i <= self.solvers.len(),
                forall|a: int| 0 <= a < i ==> (#[trigger] self@.solvers[a]).well_formed(),
            decreases self.solvers.len() - i,
        {
            if self.solvers[i].successful_evaluations > self.solvers[i].total_evaluations
                || self.solvers[i].performance_metrics.challenges_successfully_defended
                > self.solvers[i].performance_metrics.total_challenges_received {
                assert(!self@.solvers[i as int].well_formed());
                proof {
                    reveal(ContractView::records_well_formed);
                }
                return false;
            }
            i += 1;
        }
        true
    }

    /// Decides whether the engine is well formed. Every operation asks for a
    /// well-formed engine and leaves one; an engine that comes from outside
    /// is checked with this before it is used.
    pub fn is_well_formed(&self) -> (yes: bool)
        ensures
            yes == self.well_formed(),
    {
        self.keys_are_well_formed() && self.references_are_well_formed()
            && self.records_are_well_formed()
    }
}

} // verus!
