//! The engine's state, its view, and what holds of every state that the
//! operations can reach.
use vstd::prelude::*;
use crate::flags::embeds;
use crate::scoring::in_unit_interval;
use crate::store::{distinct_keys, has_key, lookup, Keyed};
use crate::text::{challenge_prefix, evaluation_prefix, intent_prefix, is_issued};
use crate::types::{
    views, ChallengeStatus, ChallengeView, EvaluationStatus, EvaluationView, IntentStatus,
    IntentView, OracleEvaluation, OracleIntent, OracleSolver, RefutationChallenge, SolverStake,
    SolverView, StakeView,
    UserProfile, UserView, DEFAULT_CHALLENGE_PERIOD, DEFAULT_MAX_EVALUATION_TIME,
    MAX_SOURCES_PER_EVALUATION, MIN_STAKE,
};

verus! {

/// The arbitration engine: every intent, evaluation, challenge, solver and
/// profile, the counters that name new records, and the parameters.
pub struct OracleIntentContract {
    pub owner: String,
    pub intents: Vec<OracleIntent>,
    pub evaluations: Vec<OracleEvaluation>,
    pub challenges: Vec<RefutationChallenge>,
    pub solvers: Vec<OracleSolver>,
    pub solver_stakes: Vec<SolverStake>,
    pub users: Vec<UserProfile>,
    pub admins: Vec<String>,
    pub verifiers: Vec<String>,
    pub intent_counter: u64,
    pub evaluation_counter: u64,
    pub challenge_counter: u64,
    pub min_stake: u128,
    pub max_evaluation_time: u64,
    pub challenge_period: u64,
}

/// The engine as a mathematical value.
pub struct ContractView {
    pub owner: Seq<char>,
    pub intents: Seq<IntentView>,
    pub evaluations: Seq<EvaluationView>,
    pub challenges: Seq<ChallengeView>,
    pub solvers: Seq<SolverView>,
    pub solver_stakes: Seq<StakeView>,
    pub users: Seq<UserView>,
    pub admins: Seq<Seq<char>>,
    pub verifiers: Seq<Seq<char>>,
    pub intent_counter: u64,
    pub evaluation_counter: u64,
    pub challenge_counter: u64,
    pub min_stake: u128,
    pub max_evaluation_time: u64,
    pub challenge_period: u64,
}

impl View for OracleIntentContract {
    type V = ContractView;

    open spec fn view(&self) -> ContractView {
        ContractView {
            owner: self.owner@,
            intents: views(self.intents@),
            evaluations: views(self.evaluations@),
            challenges: views(self.challenges@),
            solvers: views(self.solvers@),
            solver_stakes: views(self.solver_stakes@),
            users: views(self.users@),
            admins: views(self.admins@),
            verifiers: views(self.verifiers@),
            intent_counter: self.intent_counter,
            evaluation_counter: self.evaluation_counter,
            challenge_counter: self.challenge_counter,
            min_stake: self.min_stake,
            max_evaluation_time: self.max_evaluation_time,
            challenge_period: self.challenge_period,
        }
    }
}

impl EvaluationView {
    /// What holds of every stored evaluation: a confidence between zero and
    /// one, and between one and fifteen sources, each with a title and an
    /// address within the limit.
    pub open spec fn well_formed(self) -> bool {
        &&& in_unit_interval(self.confidence)
        &&& 1 <= self.sources.len() <= MAX_SOURCES_PER_EVALUATION
        &&& forall|k: int| 0 <= k < self.sources.len() ==> (#[trigger] self.sources[k]).admissible()
    }
}

impl SolverView {
    /// What holds of every stored solver: no more successes than outcomes, no
    /// more defences than challenges.
    pub open spec fn well_formed(self) -> bool {
        &&& self.successful_evaluations <= self.total_evaluations
        &&& self.performance_metrics.challenges_successfully_defended
            <= self.performance_metrics.total_challenges_received
    }
}

impl ContractView {
    /// The intent with this identifier.
    pub open spec fn intent(self, id: Seq<char>) -> Option<IntentView> {
        lookup(self.intents, id)
    }

    /// The evaluation with this identifier.
    pub open spec fn evaluation(self, id: Seq<char>) -> Option<EvaluationView> {
        lookup(self.evaluations, id)
    }

    /// The challenge with this identifier.
    pub open spec fn challenge(self, id: Seq<char>) -> Option<ChallengeView> {
        lookup(self.challenges, id)
    }

    /// The solver registered under this account.
    pub open spec fn solver(self, account: Seq<char>) -> Option<SolverView> {
        lookup(self.solvers, account)
    }

    /// The bond that this account staked when it registered as a solver.
    pub open spec fn solver_stake(self, account: Seq<char>) -> Option<StakeView> {
        lookup(self.solver_stakes, account)
    }

    /// The profile of this account.
    pub open spec fn user(self, account: Seq<char>) -> Option<UserView> {
        lookup(self.users, account)
    }

    /// Whether the account is the owner.
    pub open spec fn is_owner(self, account: Seq<char>) -> bool {
        account == self.owner
    }

    /// Whether the account is the owner or an administrator.
    pub open spec fn is_admin_or_owner(self, account: Seq<char>) -> bool {
        account == self.owner || self.admins.contains(account)
    }

    /// Whether the account is the owner, an administrator or a verifier.
    pub open spec fn is_verifier_or_admin(self, account: Seq<char>) -> bool {
        account == self.owner || self.admins.contains(account) || self.verifiers.contains(
            account,
        )
    }

    /// Every record's identifier was issued by its family's counter, and no
    /// two records of a family share a key.
    #[verifier::opaque]
    pub open spec fn keys_well_formed(self) -> bool {
        &&& forall|i: int|
            0 <= i < self.intents.len() ==> is_issued(
                intent_prefix(),
                self.intent_counter as nat,
                (#[trigger] self.intents[i]).intent_id,
            )
        &&& forall|i: int|
            0 <= i < self.evaluations.len() ==> is_issued(
                evaluation_prefix(),
                self.evaluation_counter as nat,
                (#[trigger] self.evaluations[i]).evaluation_id,
            )
        &&& forall|i: int|
            0 <= i < self.challenges.len() ==> is_issued(
                challenge_prefix(),
                self.challenge_counter as nat,
                (#[trigger] self.challenges[i]).challenge_id,
            )
        &&& distinct_keys(self.intents)
        &&& distinct_keys(self.evaluations)
        &&& distinct_keys(self.challenges)
        &&& distinct_keys(self.solvers)
        &&& distinct_keys(self.solver_stakes)
        &&& distinct_keys(self.users)
    }

    /// An evaluation answers an issued intent, which is no longer pending, and
    /// no two evaluations answer one intent. A challenge disputes an issued
    /// evaluation, which is no longer open, with a larger stake, and no two
    /// challenges dispute one evaluation; as long as the evaluation is under
    /// challenge, the challenge is undecided.
    #[verifier::opaque]
    pub open spec fn references_well_formed(self) -> bool {
        &&& forall|i: int|
            0 <= i < self.evaluations.len() ==> is_issued(
                intent_prefix(),
                self.intent_counter as nat,
                (#[trigger] self.evaluations[i]).intent_id,
            )
        &&& forall|i: int, j: int|
            0 <= i < self.evaluations.len() && 0 <= j < self.intents.len() && (
            #[trigger] self.evaluations[i]).intent_id == (#[trigger] self.intents[j]).intent_id
                ==> self.intents[j].status != IntentStatus::Pending
        &&& forall|i: int, j: int|
            0 <= i < j < self.evaluations.len() ==> (#[trigger] self.evaluations[i]).intent_id != (
            #[trigger] self.evaluations[j]).intent_id
        &&& forall|i: int|
            0 <= i < self.challenges.len() ==> is_issued(
                evaluation_prefix(),
                self.evaluation_counter as nat,
                (#[trigger] self.challenges[i]).evaluation_id,
            )
        &&& forall|i: int, j: int|
            0 <= i < self.challenges.len() && 0 <= j < self.evaluations.len() && (
            #[trigger] self.challenges[i]).evaluation_id == (
            #[trigger] self.evaluations[j]).evaluation_id ==> {
                &&& self.evaluations[j].status != EvaluationStatus::Submitted
                &&& self.challenges[i].stake > self.evaluations[j].stake
                &&& self.evaluations[j].status == EvaluationStatus::Challenged
                    ==> self.challenges[i].status == ChallengeStatus::Submitted
            }
        &&& forall|i: int, j: int|
            0 <= i < j < self.challenges.len() ==> (#[trigger] self.challenges[i]).evaluation_id
                != (#[trigger] self.challenges[j]).evaluation_id
    }

    /// Each record is well formed by itself. An intent's reward mirrors its
    /// stake, and its deadline is not before its creation: the two are the
    /// same time for an intent that was opened for zero minutes, and the
    /// deadline is later for every other intent.
    #[verifier::opaque]
    pub open spec fn records_well_formed(self) -> bool {
        &&& forall|i: int|
            0 <= i < self.intents.len() ==> (#[trigger] self.intents[i]).reward
                == self.intents[i].stake && self.intents[i].created_at <= self.intents[i].deadline
        &&& forall|i: int|
            0 <= i < self.evaluations.len() ==> (#[trigger] self.evaluations[i]).well_formed()
        &&& forall|i: int|
            0 <= i < self.challenges.len() ==> (#[trigger] self.challenges[i]).counter_sources.len()
                > 0
        &&& forall|i: int|
            0 <= i < self.solvers.len() ==> (#[trigger] self.solvers[i]).well_formed()
    }

    /// What holds of every state that the operations can reach.
    pub open spec fn well_formed(self) -> bool {
        &&& self.keys_well_formed()
        &&& self.references_well_formed()
        &&& self.records_well_formed()
    }

    /// The state of a new engine.
    pub open spec fn initial(owner: Seq<char>) -> ContractView {
        ContractView {
            owner,
            intents: Seq::empty(),
            evaluations: Seq::empty(),
            challenges: Seq::empty(),
            solvers: Seq::empty(),
            solver_stakes: Seq::empty(),
            users: Seq::empty(),
            admins: Seq::empty(),
            verifiers: Seq::empty(),
            intent_counter: 0,
            evaluation_counter: 0,
            challenge_counter: 0,
            min_stake: MIN_STAKE,
            max_evaluation_time: DEFAULT_MAX_EVALUATION_TIME,
            challenge_period: DEFAULT_CHALLENGE_PERIOD,
        }
    }
}

/// In a well-formed engine no two records of a family share a key.
pub proof fn lemma_keys_are_distinct(state: ContractView)
    requires
        state.well_formed(),
    ensures
        distinct_keys(state.intents),
        distinct_keys(state.evaluations),
        distinct_keys(state.challenges),
        distinct_keys(state.solvers),
        distinct_keys(state.solver_stakes),
        distinct_keys(state.users),
{
    reveal(ContractView::keys_well_formed);
}

/// The records of `post` are those of `pre`, each brought up to date in
/// place: no record came or went, no key, reference, stake or bond changed, no
/// intent became pending, no evaluation became open or came under challenge,
/// no challenge of an evaluation under challenge was decided, and no counter
/// went back.
pub open spec fn updated_in_place(pre: ContractView, post: ContractView) -> bool {
    &&& post.intent_counter >= pre.intent_counter
    &&& post.evaluation_counter >= pre.evaluation_counter
    &&& post.challenge_counter >= pre.challenge_counter
    &&& post.intents.len() == pre.intents.len()
    &&& forall|i: int|
        0 <= i < pre.intents.len() ==> {
            &&& (#[trigger] post.intents[i]).intent_id == pre.intents[i].intent_id
            &&& post.intents[i].stake == pre.intents[i].stake
            &&& post.intents[i].reward == pre.intents[i].reward
            &&& post.intents[i].created_at == pre.intents[i].created_at
            &&& post.intents[i].deadline == pre.intents[i].deadline
            &&& post.intents[i].status == IntentStatus::Pending ==> pre.intents[i].status
                == IntentStatus::Pending
        }
    &&& post.evaluations.len() == pre.evaluations.len()
    &&& forall|i: int|
        0 <= i < pre.evaluations.len() ==> {
            &&& (#[trigger] post.evaluations[i]).evaluation_id == pre.evaluations[i].evaluation_id
            &&& post.evaluations[i].intent_id == pre.evaluations[i].intent_id
            &&& post.evaluations[i].stake == pre.evaluations[i].stake
            &&& post.evaluations[i].confidence == pre.evaluations[i].confidence
            &&& post.evaluations[i].sources == pre.evaluations[i].sources
            &&& post.evaluations[i].status == EvaluationStatus::Submitted
                ==> pre.evaluations[i].status == EvaluationStatus::Submitted
        }
    &&& forall|i: int|
        0 <= i < pre.evaluations.len() ==> ((#[trigger] post.evaluations[i]).status
            == EvaluationStatus::Challenged ==> pre.evaluations[i].status
            == EvaluationStatus::Challenged)
    &&& post.challenges.len() == pre.challenges.len()
    &&& forall|i: int|
        0 <= i < pre.challenges.len() ==> {
            &&& (#[trigger] post.challenges[i]).challenge_id == pre.challenges[i].challenge_id
            &&& post.challenges[i].evaluation_id == pre.challenges[i].evaluation_id
            &&& post.challenges[i].stake == pre.challenges[i].stake
            &&& post.challenges[i].counter_sources == pre.challenges[i].counter_sources
        }
    &&& forall|i: int, j: int|
        0 <= i < pre.challenges.len() && 0 <= j < pre.evaluations.len() && (
        #[trigger] post.challenges[i]).evaluation_id == (
        #[trigger] post.evaluations[j]).evaluation_id && post.evaluations[j].status
            == EvaluationStatus::Challenged ==> post.challenges[i].status
            == pre.challenges[i].status
    &&& post.solvers.len() == pre.solvers.len()
    &&& forall|i: int|
        0 <= i < pre.solvers.len() ==> {
            &&& (#[trigger] post.solvers[i]).solver_id == pre.solvers[i].solver_id
            &&& post.solvers[i].well_formed()
        }
    &&& post.solver_stakes == pre.solver_stakes
    &&& post.users.len() == pre.users.len()
    &&& forall|i: int|
        0 <= i < pre.users.len() ==> (#[trigger] post.users[i]).account_id
            == pre.users[i].account_id
}

/// Bringing records up to date in place keeps the engine well formed.
pub proof fn lemma_updated_in_place_keeps_well_formed(pre: ContractView, post: ContractView)
    requires
        pre.well_formed(),
        updated_in_place(pre, post),
    ensures
        post.well_formed(),
{
    reveal(ContractView::keys_well_formed);
    reveal(ContractView::references_well_formed);
    reveal(ContractView::records_well_formed);
}

/// The records of `post` are records of `pre`, in the same order: some were
/// removed, and nothing else changed.
pub open spec fn pruned(pre: ContractView, post: ContractView) -> bool {
    &&& embeds(post.intents, pre.intents)
    &&& embeds(post.evaluations, pre.evaluations)
    &&& embeds(post.challenges, pre.challenges)
    &&& post == ContractView {
        intents: post.intents,
        evaluations: post.evaluations,
        challenges: post.challenges,
        ..pre
    }
}

/// Removing records keeps the engine well formed.
pub proof fn lemma_pruned_keeps_well_formed(pre: ContractView, post: ContractView)
    requires
        pre.well_formed(),
        pruned(pre, post),
    ensures
        post.well_formed(),
{
    reveal(ContractView::keys_well_formed);
    reveal(ContractView::references_well_formed);
    reveal(ContractView::records_well_formed);
}

/// A change of profiles and roles alone keeps the engine well formed, as long
/// as no two profiles share an account.
pub proof fn lemma_profiles_changed_keeps_well_formed(pre: ContractView, post: ContractView)
    requires
        pre.well_formed(),
        distinct_keys(post.users),
        post == (ContractView {
            users: post.users,
            admins: post.admins,
            verifiers: post.verifiers,
            ..pre
        }),
    ensures
        post.well_formed(),
{
    reveal(ContractView::keys_well_formed);
    reveal(ContractView::references_well_formed);
    reveal(ContractView::records_well_formed);
}

/// A change of solvers' records and bonds alone keeps the engine well formed,
/// as long as each record is well formed and no two records and no two bonds
/// share an account.
pub proof fn lemma_solvers_changed_keeps_well_formed(pre: ContractView, post: ContractView)
    requires
        pre.well_formed(),
        distinct_keys(post.solvers),
        distinct_keys(post.solver_stakes),
        forall|i: int| 0 <= i < post.solvers.len() ==> (#[trigger] post.solvers[i]).well_formed(),
        post == (ContractView {
            solvers: post.solvers,
            solver_stakes: post.solver_stakes,
            ..pre
        }),
    ensures
        post.well_formed(),
{
    reveal(ContractView::keys_well_formed);
    reveal(ContractView::references_well_formed);
    reveal(ContractView::records_well_formed);
}

/// Whether a text occurs in a list of texts.
pub fn contains_text(texts: &Vec<String>, text: &String) -> (found: bool)
    ensures
        found == views(texts@).contains(text@),
{
    let mut i: usize = 0;
    while i < texts.len()
        invariant
            i <= texts.len(),
            forall|j: int| 0 <= j < i ==> views(texts@)[j] != text@,
        decreases texts.len() - i,
    {
        if texts[i] == *text {
            assert(views(texts@)[i as int] == text@);
            return true;
        }
        i += 1;
    }
    false
}

impl OracleIntentContract {
    /// What holds of every engine that the operations can reach.
    pub open spec fn well_formed(&self) -> bool {
        self@.well_formed()
    }

    /// A new engine without records, owned by `owner`.
    pub fn new(owner: String) -> (engine: Self)
        ensures
            engine@ == ContractView::initial(owner@),
            engine.well_formed(),
    {
        let engine = OracleIntentContract {
            owner,
            intents: Vec::new(),
            evaluations: Vec::new(),
            challenges: Vec::new(),
            solvers: Vec::new(),
            solver_stakes: Vec::new(),
            users: Vec::new(),
            admins: Vec::new(),
            verifiers: Vec::new(),
            intent_counter: 0,
            evaluation_counter: 0,
            challenge_counter: 0,
            min_stake: MIN_STAKE,
            max_evaluation_time: DEFAULT_MAX_EVALUATION_TIME,
            challenge_period: DEFAULT_CHALLENGE_PERIOD,
        };
        assert(engine@.intents =~= Seq::empty());
        assert(engine@.evaluations =~= Seq::empty());
        assert(engine@.challenges =~= Seq::empty());
        assert(engine@.solvers =~= Seq::empty());
        assert(engine@.solver_stakes =~= Seq::empty());
        assert(engine@.users =~= Seq::empty());
        assert(engine@.admins =~= Seq::empty());
        proof {
            reveal(ContractView::keys_well_formed);
            reveal(ContractView::references_well_formed);
            reveal(ContractView::records_well_formed);
        }
        engine
    }

    /// The first position of an intent with this identifier.
    pub fn find_intent(&self, id: &String) -> (found: Option<usize>)
        ensures
            match found {
                Some(i) => {
                    &&& i < self.intents.len()
                    &&& self@.intents[i as int].intent_id == id@
                    &&& forall|j: int| 0 <= j < i ==> (#[trigger] self@.intents[j]).intent_id != id@
                },
                None => !has_key(self@.intents, id@),
            },
            self@.intents.len() == self.intents.len(),
    {
        let mut i: usize = 0;
        while i < self.intents.len()
            invariant
                i <= self.intents.len(),
                forall|j: int| 0 <= j < i ==> (#[trigger] self@.intents[j]).intent_id != id@,
            decreases self.intents.len() - i,
        {
            if self.intents[i].intent_id == *id {
                return Some(i);
            }
            i += 1;
        }
        None
    }

    /// The first position of an evaluation with this identifier.
    pub fn find_evaluation(&self, id: &String) -> (found: Option<usize>)
        ensures
            match found {
                Some(i) => {
                    &&& i < self.evaluations.len()
                    &&& self@.evaluations[i as int].evaluation_id == id@
                    &&& forall|j: int|
                        0 <= j < i ==> (#[trigger] self@.evaluations[j]).evaluation_id != id@
                },
                None => !has_key(self@.evaluations, id@),
            },
            self@.evaluations.len() == self.evaluations.len(),
    {
        let mut i: usize = 0;
        while i < self.evaluations.len()
            invariant
                i <= self.evaluations.len(),
                forall|j: int|
                    0 <= j < i ==> (#[trigger] self@.evaluations[j]).evaluation_id != id@,
            decreases self.evaluations.len() - i,
        {
            if self.evaluations[i].evaluation_id == *id {
                return Some(i);
            }
            i += 1;
        }
        None
    }

    /// The first position of a challenge with this identifier.
    pub fn find_challenge(&self, id: &String) -> (found: Option<usize>)
        ensures
            match found {
                Some(i) => {
                    &&& i < self.challenges.len()
                    &&& self@.challenges[i as int].challenge_id == id@
                    &&& forall|j: int|
                        0 <= j < i ==> (#[trigger] self@.challenges[j]).challenge_id != id@
                },
                None => !has_key(self@.challenges, id@),
            },
            self@.challenges.len() == self.challenges.len(),
    {
        let mut i: usize = 0;
        while i < self.challenges.len()
            invariant
                i <= self.challenges.len(),
                forall|j: int| 0 <= j < i ==> (#[trigger] self@.challenges[j]).challenge_id != id@,
            decreases self.challenges.len() - i,
        {
            if self.challenges[i].challenge_id == *id {
                return Some(i);
            }
            i += 1;
        }
        None
    }

    /// The first position of a solver registered under this account.
    pub fn find_solver(&self, account: &String) -> (found: Option<usize>)
        ensures
            match found {
                Some(i) => {
                    &&& i < self.solvers.len()
                    &&& self@.solvers[i as int].solver_id == account@
                    &&& forall|j: int|
                        0 <= j < i ==> (#[trigger] self@.solvers[j]).solver_id != account@
                },
                None => !has_key(self@.solvers, account@),
            },
            self@.solvers.len() == self.solvers.len(),
    {
        let mut i: usize = 0;
        while i < self.solvers.len()
            invariant
                i <= self.solvers.len(),
                forall|j: int| 0 <= j < i ==> (#[trigger] self@.solvers[j]).solver_id != account@,
            decreases self.solvers.len() - i,
        {
            if self.solvers[i].solver_id == *account {
                return Some(i);
            }
            i += 1;
        }
        None
    }

    /// The first position of a bond of this account.
    pub fn find_solver_stake(&self, account: &String) -> (found: Option<usize>)
        ensures
            match found {
                Some(i) => {
                    &&& i < self.solver_stakes.len()
                    &&& self@.solver_stakes[i as int].account == account@
                    &&& forall|j: int|
                        0 <= j < i ==> (#[trigger] self@.solver_stakes[j]).account != account@
                },
                None => !has_key(self@.solver_stakes, account@),
            },
            self@.solver_stakes.len() == self.solver_stakes.len(),
    {
        let mut i: usize = 0;
        while i < self.solver_stakes.len()
            invariant
                i <= self.solver_stakes.len(),
                forall|j: int|
                    0 <= j < i ==> (#[trigger] self@.solver_stakes[j]).account != account@,
            decreases self.solver_stakes.len() - i,
        {
            if self.solver_stakes[i].account == *account {
                return Some(i);
            }
            i += 1;
        }
        None
    }

    /// The first position of a profile of this account.
    pub fn find_user(&self, account: &String) -> (found: Option<usize>)
        ensures
            match found {
                Some(i) => {
                    &&& i < self.users.len()
                    &&& self@.users[i as int].account_id == account@
                    &&& forall|j: int|
                        0 <= j < i ==> (#[trigger] self@.users[j]).account_id != account@
                },
                None => !has_key(self@.users, account@),
            },
            self@.users.len() == self.users.len(),
    {
        let mut i: usize = 0;
        while i < self.users.len()
            invariant
                i <= self.users.len(),
                forall|j: int| 0 <= j < i ==> (#[trigger] self@.users[j]).account_id != account@,
            decreases self.users.len() - i,
        {
            if self.users[i].account_id == *account {
                return Some(i);
            }
            i += 1;
        }
        None
    }

    /// Whether the account is the owner.
    pub fn caller_is_owner(&self, account: &String) -> (ok: bool)
        ensures
            ok == self@.is_owner(account@),
    {
        *account == self.owner
    }

    /// Whether the account is the owner or an administrator.
    pub fn caller_is_admin_or_owner(&self, account: &String) -> (ok: bool)
        ensures
            ok == self@.is_admin_or_owner(account@),
    {
        *account == self.owner || contains_text(&self.admins, account)
    }

    /// Whether the account is the owner, an administrator or a verifier.
    pub fn caller_is_verifier_or_admin(&self, account: &String) -> (ok: bool)
        ensures
            ok == self@.is_verifier_or_admin(account@),
    {
        *account == self.owner || contains_text(&self.admins, account) || contains_text(
            &self.verifiers,
            account,
        )
    }
}

} // verus!
