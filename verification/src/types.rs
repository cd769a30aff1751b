//! The records that the engine keeps, and their mathematical views.
//!
//! Every record has a view in which text is a sequence of characters and a
//! list is a sequence of views. Contracts speak of views only.
use vstd::prelude::*;

verus! {

/// The least stake that opens an intent, an evaluation or a registration:
/// one whole token in its smallest unit.
pub const MIN_STAKE: u128 = 1_000_000_000_000_000_000_000_000;

/// How many sources one evaluation may carry.
pub const MAX_SOURCES_PER_EVALUATION: usize = 15;

/// The longest question, in bytes.
pub const MAX_QUESTION_LENGTH: usize = 500;

/// The longest source address, in bytes.
pub const MAX_URL_LENGTH: usize = 200;

/// The time an evaluation is expected to take at most, in nanoseconds.
pub const DEFAULT_MAX_EVALUATION_TIME: u64 = 300_000_000_000;

/// How long an evaluation stays open to challenge, in nanoseconds.
pub const DEFAULT_CHALLENGE_PERIOD: u64 = 86_400_000_000_000;

/// Nanoseconds in a minute.
pub const NANOS_PER_MINUTE: u64 = 60_000_000_000;

/// Nanoseconds in a day.
pub const NANOS_PER_DAY: u64 = 86_400_000_000_000;

/// The views of all items of a sequence, in order.
pub open spec fn views<T: View>(items: Seq<T>) -> Seq<T::V> {
    Seq::new(items.len(), |i: int| items[i]@)
}

/// The length in bytes of a text in UTF-8.
pub open spec fn byte_len(text: Seq<char>) -> nat {
    vstd::utf8::encode_utf8(text).len()
}

/// A piece of evidence: a title and an address.
#[derive(Debug)]
pub struct Source {
    pub title: String,
    pub url: String,
}

/// A source as a mathematical value.
pub struct SourceView {
    pub title: Seq<char>,
    pub url: Seq<char>,
}

impl View for Source {
    type V = SourceView;

    open spec fn view(&self) -> SourceView {
        SourceView { title: self.title@, url: self.url@ }
    }
}

impl SourceView {
    /// A source that an evaluation may carry: it has a title, and its address
    /// is within the limit.
    pub open spec fn admissible(self) -> bool {
        self.title.len() > 0 && byte_len(self.url) <= MAX_URL_LENGTH
    }
}

/// What an intent asks for.
#[derive(Clone, Copy, Debug, PartialEq, Eq, Structural)]
pub enum IntentType {
    CredibilityEvaluation,
    RefutationChallenge,
    OracleSettlement,
}

/// Where an intent stands.
#[derive(Clone, Copy, Debug, PartialEq, Eq, Structural)]
pub enum IntentStatus {
    Pending,
    InProgress,
    Completed,
    Disputed,
    Settled,
    Expired,
}

/// Where an evaluation stands.
#[derive(Clone, Copy, Debug, PartialEq, Eq, Structural)]
pub enum EvaluationStatus {
    Submitted,
    Verified,
    Challenged,
    Refuted,
    Confirmed,
}

/// Where a challenge stands.
#[derive(Clone, Copy, Debug, PartialEq, Eq, Structural)]
pub enum ChallengeStatus {
    Submitted,
    UnderReview,
    Successful,
    Failed,
}

/// What an account is allowed to do.
#[derive(Clone, Copy, Debug, PartialEq, Eq, Structural)]
pub enum UserRole {
    User,
    Solver,
    Verifier,
    Admin,
}

/// Who wins a dispute.
#[derive(Clone, Copy, Debug, PartialEq, Eq, Structural)]
pub enum Winner {
    Evaluator,
    Challenger,
    Tie,
}

/// A staked request for a judgment.
#[derive(Debug)]
pub struct OracleIntent {
    pub intent_id: String,
    pub intent_type: IntentType,
    pub initiator: String,
    pub question: Option<String>,
    pub evaluation_hash: Option<String>,
    pub challenge_hash: Option<String>,
    pub stake: u128,
    pub reward: u128,
    pub deadline: u64,
    pub status: IntentStatus,
    pub created_at: u64,
}

/// An intent as a mathematical value.
pub struct IntentView {
    pub intent_id: Seq<char>,
    pub intent_type: IntentType,
    pub initiator: Seq<char>,
    pub question: Option<Seq<char>>,
    pub evaluation_hash: Option<Seq<char>>,
    pub challenge_hash: Option<Seq<char>>,
    pub stake: u128,
    pub reward: u128,
    pub deadline: u64,
    pub status: IntentStatus,
    pub created_at: u64,
}

/// The view of an optional text.
pub open spec fn text_of(text: Option<String>) -> Option<Seq<char>> {
    match text {
        Some(t) => Some(t@),
        None => None,
    }
}

impl View for OracleIntent {
    type V = IntentView;

    open spec fn view(&self) -> IntentView {
        IntentView {
            intent_id: self.intent_id@,
            intent_type: self.intent_type,
            initiator: self.initiator@,
            question: text_of(self.question),
            evaluation_hash: text_of(self.evaluation_hash),
            challenge_hash: text_of(self.challenge_hash),
            stake: self.stake,
            reward: self.reward,
            deadline: self.deadline,
            status: self.status,
            created_at: self.created_at,
        }
    }
}

impl IntentView {
    /// An intent in a status that it never leaves.
    pub open spec fn is_terminal(self) -> bool {
        self.status == IntentStatus::Completed || self.status == IntentStatus::Settled
            || self.status == IntentStatus::Expired
    }
}

/// A solver's staked answer to an intent. The confidence is held as the bit
/// pattern of a 64-bit IEEE 754 number.
#[derive(Debug)]
pub struct OracleEvaluation {
    pub evaluation_id: String,
    pub intent_id: String,
    pub solver: String,
    pub question: String,
    pub answer: bool,
    pub confidence: u64,
    pub sources: Vec<Source>,
    pub execution_time: u64,
    pub stake: u128,
    pub status: EvaluationStatus,
    pub submitted_at: u64,
}

/// An evaluation as a mathematical value.
pub struct EvaluationView {
    pub evaluation_id: Seq<char>,
    pub intent_id: Seq<char>,
    pub solver: Seq<char>,
    pub question: Seq<char>,
    pub answer: bool,
    pub confidence: u64,
    pub sources: Seq<SourceView>,
    pub execution_time: u64,
    pub stake: u128,
    pub status: EvaluationStatus,
    pub submitted_at: u64,
}

impl View for OracleEvaluation {
    type V = EvaluationView;

    open spec fn view(&self) -> EvaluationView {
        EvaluationView {
            evaluation_id: self.evaluation_id@,
            intent_id: self.intent_id@,
            solver: self.solver@,
            question: self.question@,
            answer: self.answer,
            confidence: self.confidence,
            sources: views(self.sources@),
            execution_time: self.execution_time,
            stake: self.stake,
            status: self.status,
            submitted_at: self.submitted_at,
        }
    }
}

impl EvaluationView {
    /// An evaluation whose outcome is decided.
    pub open spec fn is_terminal(self) -> bool {
        self.status == EvaluationStatus::Confirmed || self.status == EvaluationStatus::Refuted
    }
}

/// A staked counter-claim against an evaluation.
#[derive(Debug)]
pub struct RefutationChallenge {
    pub challenge_id: String,
    pub evaluation_id: String,
    pub challenger: String,
    pub counter_sources: Vec<Source>,
    pub stake: u128,
    pub status: ChallengeStatus,
    pub submitted_at: u64,
}

/// A challenge as a mathematical value.
pub struct ChallengeView {
    pub challenge_id: Seq<char>,
    pub evaluation_id: Seq<char>,
    pub challenger: Seq<char>,
    pub counter_sources: Seq<SourceView>,
    pub stake: u128,
    pub status: ChallengeStatus,
    pub submitted_at: u64,
}

impl View for RefutationChallenge {
    type V = ChallengeView;

    open spec fn view(&self) -> ChallengeView {
        ChallengeView {
            challenge_id: self.challenge_id@,
            evaluation_id: self.evaluation_id@,
            challenger: self.challenger@,
            counter_sources: views(self.counter_sources@),
            stake: self.stake,
            status: self.status,
            submitted_at: self.submitted_at,
        }
    }
}

impl ChallengeView {
    /// A challenge that has been decided.
    pub open spec fn is_terminal(self) -> bool {
        self.status == ChallengeStatus::Successful || self.status == ChallengeStatus::Failed
    }
}

/// The counters that the engine keeps of a solver's work.
#[derive(Debug)]
pub struct SolverPerformanceMetrics {
    pub total_challenges_received: u64,
    pub challenges_successfully_defended: u64,
    pub total_rewards_earned: u128,
    pub total_stakes_lost: u128,
    pub last_active_timestamp: u64,
    pub specialization_areas: Vec<String>,
}

/// A solver's counters as a mathematical value.
pub struct MetricsView {
    pub total_challenges_received: u64,
    pub challenges_successfully_defended: u64,
    pub total_rewards_earned: u128,
    pub total_stakes_lost: u128,
    pub last_active_timestamp: u64,
    pub specialization_areas: Seq<Seq<char>>,
}

impl View for SolverPerformanceMetrics {
    type V = MetricsView;

    open spec fn view(&self) -> MetricsView {
        MetricsView {
            total_challenges_received: self.total_challenges_received,
            challenges_successfully_defended: self.challenges_successfully_defended,
            total_rewards_earned: self.total_rewards_earned,
            total_stakes_lost: self.total_stakes_lost,
            last_active_timestamp: self.last_active_timestamp,
            specialization_areas: views(self.specialization_areas@),
        }
    }
}

/// A registered participant who may submit evaluations. Its reputation is the
/// share of its resolved outcomes that were successes, held as the two counts.
#[derive(Debug)]
pub struct OracleSolver {
    pub solver_id: String,
    pub total_evaluations: u64,
    pub successful_evaluations: u64,
    pub total_stake: u128,
    pub is_active: bool,
    pub performance_metrics: SolverPerformanceMetrics,
}

/// A solver as a mathematical value.
pub struct SolverView {
    pub solver_id: Seq<char>,
    pub total_evaluations: u64,
    pub successful_evaluations: u64,
    pub total_stake: u128,
    pub is_active: bool,
    pub performance_metrics: MetricsView,
}

impl View for OracleSolver {
    type V = SolverView;

    open spec fn view(&self) -> SolverView {
        SolverView {
            solver_id: self.solver_id@,
            total_evaluations: self.total_evaluations,
            successful_evaluations: self.successful_evaluations,
            total_stake: self.total_stake,
            is_active: self.is_active,
            performance_metrics: self.performance_metrics@,
        }
    }
}

/// The bond that an account staked when it registered as a solver. It is
/// kept apart from the stakes of the account's evaluations.
#[derive(Debug)]
pub struct SolverStake {
    pub account: String,
    pub amount: u128,
}

/// A solver's bond as a mathematical value.
pub struct StakeView {
    pub account: Seq<char>,
    pub amount: u128,
}

impl View for SolverStake {
    type V = StakeView;

    open spec fn view(&self) -> StakeView {
        StakeView { account: self.account@, amount: self.amount }
    }
}

/// An account's profile.
#[derive(Debug)]
pub struct UserProfile {
    pub account_id: String,
    pub role: UserRole,
    pub registration_date: u64,
    pub is_verified: bool,
    pub verification_level: u8,
    pub total_intents_created: u64,
    pub total_stake_committed: u128,
}

/// A profile as a mathematical value.
pub struct UserView {
    pub account_id: Seq<char>,
    pub role: UserRole,
    pub registration_date: u64,
    pub is_verified: bool,
    pub verification_level: u8,
    pub total_intents_created: u64,
    pub total_stake_committed: u128,
}

impl View for UserProfile {
    type V = UserView;

    open spec fn view(&self) -> UserView {
        UserView {
            account_id: self.account_id@,
            role: self.role,
            registration_date: self.registration_date,
            is_verified: self.is_verified,
            verification_level: self.verification_level,
            total_intents_created: self.total_intents_created,
            total_stake_committed: self.total_stake_committed,
        }
    }
}

/// An amount that the engine owes to an account.
#[derive(Debug)]
pub struct Transfer {
    pub recipient: String,
    pub amount: u128,
}

/// A transfer as a mathematical value.
pub struct TransferView {
    pub recipient: Seq<char>,
    pub amount: u128,
}

impl View for Transfer {
    type V = TransferView;

    open spec fn view(&self) -> TransferView {
        TransferView { recipient: self.recipient@, amount: self.amount }
    }
}

/// What a resolved evaluation adds to the running means of its solver's
/// work: how long the work took, how confident the solver was, how many
/// sources it named, and how many resolved outcomes the solver then had. The
/// engine says when a sample is due; the means themselves are not exact
/// numbers and are kept outside the engine.
#[derive(Debug)]
pub struct PerformanceSample {
    pub solver: String,
    pub execution_time: u64,
    pub confidence: u64,
    pub source_count: u64,
    pub evaluations: u64,
}

/// A sample as a mathematical value.
pub struct SampleView {
    pub solver: Seq<char>,
    pub execution_time: u64,
    pub confidence: u64,
    pub source_count: u64,
    pub evaluations: u64,
}

impl View for PerformanceSample {
    type V = SampleView;

    open spec fn view(&self) -> SampleView {
        SampleView {
            solver: self.solver@,
            execution_time: self.execution_time,
            confidence: self.confidence,
            source_count: self.source_count,
            evaluations: self.evaluations,
        }
    }
}

/// The sample that an evaluation adds to the means of its solver, if the
/// solver is registered.
pub open spec fn sample_of(evaluation: EvaluationView, solver: Option<SolverView>) -> Option<
    SampleView,
> {
    match solver {
        Some(s) => Some(
            SampleView {
                solver: evaluation.solver,
                execution_time: evaluation.execution_time,
                confidence: evaluation.confidence,
                source_count: evaluation.sources.len() as u64,
                evaluations: s.total_evaluations,
            },
        ),
        None => None,
    }
}

/// The view of an optional sample.
pub open spec fn sample_view(sample: Option<PerformanceSample>) -> Option<SampleView> {
    match sample {
        Some(s) => Some(s@),
        None => None,
    }
}

impl OracleEvaluation {
    /// The sample that the evaluation adds to the means of its solver, who
    /// has `evaluations` resolved outcomes.
    pub fn sample(&self, evaluations: u64) -> (sample: PerformanceSample)
        ensures
            sample@ == (SampleView {
                solver: self@.solver,
                execution_time: self@.execution_time,
                confidence: self@.confidence,
                source_count: self@.sources.len() as u64,
                evaluations,
            }),
    {
        PerformanceSample {
            solver: self.solver.clone(),
            execution_time: self.execution_time,
            confidence: self.confidence,
            source_count: self.sources.len() as u64,
            evaluations,
        }
    }
}

/// The sum of the amounts of a list of transfers.
pub open spec fn total_amount(transfers: Seq<TransferView>) -> nat
    decreases transfers.len(),
{
    if transfers.len() == 0 {
        0
    } else {
        total_amount(transfers.drop_last()) + transfers.last().amount as nat
    }
}

/// The views of a list with one more item are the views of the list with
/// one more view.
pub proof fn lemma_views_push<T: View>(items: Seq<T>, item: T)
    ensures
        views(items.push(item)) == views(items).push(item@),
{
}

/// The views of a list with one item replaced are the views of the list
/// with one view replaced.
pub proof fn lemma_views_update<T: View>(items: Seq<T>, i: int, item: T)
    requires
        0 <= i < items.len(),
    ensures
        views(items.update(i, item)) == views(items).update(i, item@),
{
}

/// A copy of an optional text.
pub fn clone_text(text: &Option<String>) -> (copy: Option<String>)
    ensures
        text_of(copy) == text_of(*text),
{
    match text {
        Some(t) => Some(t.clone()),
        None => None,
    }
}

/// A copy of a list of texts.
pub fn clone_texts(texts: &Vec<String>) -> (copy: Vec<String>)
    ensures
        views(copy@) == views(texts@),
{
    let mut copy: Vec<String> = Vec::new();
    let mut i: usize = 0;
    while i < texts.len()
        invariant
            i <= texts.len(),
            copy.len() == i,
            forall|j: int| 0 <= j < i ==> copy@[j]@ == texts@[j]@,
        decreases texts.len() - i,
    {
        copy.push(texts[i].clone());
        i += 1;
    }
    copy
}

impl Source {
    /// A copy of the source.
    pub fn duplicate(&self) -> (copy: Source)
        ensures
            copy@ == self@,
    {
        Source { title: self.title.clone(), url: self.url.clone() }
    }
}

/// A copy of a list of sources.
pub fn clone_sources(sources: &Vec<Source>) -> (copy: Vec<Source>)
    ensures
        views(copy@) == views(sources@),
{
    let mut copy: Vec<Source> = Vec::new();
    let mut i: usize = 0;
    while i < sources.len()
        invariant
            i <= sources.len(),
            copy.len() == i,
            forall|j: int| 0 <= j < i ==> copy@[j]@ == sources@[j]@,
        decreases sources.len() - i,
    {
        copy.push(sources[i].duplicate());
        i += 1;
    }
    copy
}

impl OracleIntent {
    /// A copy of the intent.
    pub fn duplicate(&self) -> (copy: OracleIntent)
        ensures
            copy@ == self@,
    {
        OracleIntent {
            intent_id: self.intent_id.clone(),
            intent_type: self.intent_type,
            initiator: self.initiator.clone(),
            question: clone_text(&self.question),
            evaluation_hash: clone_text(&self.evaluation_hash),
            challenge_hash: clone_text(&self.challenge_hash),
            stake: self.stake,
            reward: self.reward,
            deadline: self.deadline,
            status: self.status,
            created_at: self.created_at,
        }
    }
}

impl OracleEvaluation {
    /// A copy of the evaluation.
    pub fn duplicate(&self) -> (copy: OracleEvaluation)
        ensures
            copy@ == self@,
    {
        OracleEvaluation {
            evaluation_id: self.evaluation_id.clone(),
            intent_id: self.intent_id.clone(),
            solver: self.solver.clone(),
            question: self.question.clone(),
            answer: self.answer,
            confidence: self.confidence,
            sources: clone_sources(&self.sources),
            execution_time: self.execution_time,
            stake: self.stake,
            status: self.status,
            submitted_at: self.submitted_at,
        }
    }
}

impl RefutationChallenge {
    /// A copy of the challenge.
    pub fn duplicate(&self) -> (copy: RefutationChallenge)
        ensures
            copy@ == self@,
    {
        RefutationChallenge {
            challenge_id: self.challenge_id.clone(),
            evaluation_id: self.evaluation_id.clone(),
            challenger: self.challenger.clone(),
            counter_sources: clone_sources(&self.counter_sources),
            stake: self.stake,
            status: self.status,
            submitted_at: self.submitted_at,
        }
    }
}

impl SolverPerformanceMetrics {
    /// A copy of the counters.
    pub fn duplicate(&self) -> (copy: SolverPerformanceMetrics)
        ensures
            copy@ == self@,
    {
        SolverPerformanceMetrics {
            total_challenges_received: self.total_challenges_received,
            challenges_successfully_defended: self.challenges_successfully_defended,
            total_rewards_earned: self.total_rewards_earned,
            total_stakes_lost: self.total_stakes_lost,
            last_active_timestamp: self.last_active_timestamp,
            specialization_areas: clone_texts(&self.specialization_areas),
        }
    }
}

impl OracleSolver {
    /// A copy of the solver's record.
    pub fn duplicate(&self) -> (copy: OracleSolver)
        ensures
            copy@ == self@,
    {
        OracleSolver {
            solver_id: self.solver_id.clone(),
            total_evaluations: self.total_evaluations,
            successful_evaluations: self.successful_evaluations,
            total_stake: self.total_stake,
            is_active: self.is_active,
            performance_metrics: self.performance_metrics.duplicate(),
        }
    }
}

impl UserProfile {
    /// A copy of the profile.
    pub fn duplicate(&self) -> (copy: UserProfile)
        ensures
            copy@ == self@,
    {
        UserProfile {
            account_id: self.account_id.clone(),
            role: self.role,
            registration_date: self.registration_date,
            is_verified: self.is_verified,
            verification_level: self.verification_level,
            total_intents_created: self.total_intents_created,
            total_stake_committed: self.total_stake_committed,
        }
    }
}

} // verus!
