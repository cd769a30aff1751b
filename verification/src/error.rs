//! Why an operation was refused.
use vstd::prelude::*;

verus! {

/// Every way in which an operation can be refused. A refused operation leaves
/// the engine exactly as it was.
#[derive(Clone, Copy, Debug, PartialEq, Eq, Structural)]
pub enum OracleError {
    /// The attached stake is below the minimum stake.
    InsufficientStake,
    /// The question text is empty.
    EmptyQuestion,
    /// The question text is longer than the limit.
    QuestionTooLong,
    /// More sources were asked for than an evaluation may carry.
    TooManySourcesRequired,
    /// The confidence is not a number between zero and one.
    ConfidenceOutOfRange,
    /// An evaluation came without sources.
    NoSources,
    /// An evaluation came with more sources than allowed.
    TooManySources,
    /// A source's address is longer than the limit.
    SourceUrlTooLong,
    /// A source has an empty title.
    SourceTitleEmpty,
    /// A challenge came without counter sources.
    NoCounterSources,
    /// A challenge's stake does not exceed the stake of the evaluation.
    ChallengeStakeTooLow,
    /// A verification level above the highest level.
    InvalidVerificationLevel,
    /// The intent is not pending.
    IntentNotPending,
    /// The intent's deadline has passed.
    IntentExpired,
    /// The intent is not in progress.
    IntentNotInProgress,
    /// The evaluation is no longer open: it was challenged or finalized.
    EvaluationNotOpen,
    /// The evaluation has already been finalized or challenged.
    EvaluationAlreadyFinalized,
    /// The evaluation is not under challenge.
    EvaluationNotChallenged,
    /// The window for challenges has closed.
    ChallengePeriodExpired,
    /// The window for challenges is still open.
    ChallengePeriodActive,
    /// The solver's reputation is too low for an intent of this value.
    InsufficientReputation,
    /// The solver has been deactivated.
    SolverNotActive,
    /// The account already has a profile.
    UserAlreadyRegistered,
    /// Only the owner may do this.
    NotOwner,
    /// Only the owner or an administrator may do this.
    NotAdminOrOwner,
    /// Only the owner, an administrator or a verifier may do this.
    NotVerifierOrAdmin,
    /// The evaluation was submitted by another solver.
    WrongSolver,
    /// The evaluation answers another intent.
    EvaluationIntentMismatch,
    /// The challenge disputes another evaluation.
    ChallengeEvaluationMismatch,
    /// No intent has this identifier.
    IntentNotFound,
    /// No evaluation has this identifier.
    EvaluationNotFound,
    /// No challenge has this identifier.
    ChallengeNotFound,
    /// The account is not a registered solver.
    SolverNotRegistered,
    /// The account has no profile.
    UserNotFound,
    /// The winner is none of `evaluator`, `challenger`, `tie`.
    InvalidWinner,
    /// The number of weights differs from the number of eligible solvers.
    WeightCountMismatch,
    /// A counter, a timestamp or an amount would leave its integer range.
    ArithmeticOverflow,
}

impl OracleError {
    /// The text that describes the refusal.
    pub open spec fn message_text(self) -> Seq<char> {
        match self {
            OracleError::InsufficientStake => "Insufficient stake"@,
            OracleError::EmptyQuestion => "Question cannot be empty"@,
            OracleError::QuestionTooLong => "Question too long"@,
            OracleError::TooManySourcesRequired => "Too many sources required"@,
            OracleError::ConfidenceOutOfRange => "Confidence must be between 0 and 1"@,
            OracleError::NoSources => "At least one source is required"@,
            OracleError::TooManySources => "Too many sources"@,
            OracleError::SourceUrlTooLong => "Source URL too long"@,
            OracleError::SourceTitleEmpty => "Source title cannot be empty"@,
            OracleError::NoCounterSources => "Counter sources required"@,
            OracleError::ChallengeStakeTooLow =>
                "Challenge stake must be higher than evaluation stake"@,
            OracleError::InvalidVerificationLevel => "Verification level must be 0-5"@,
            OracleError::IntentNotPending => "Intent is not pending"@,
            OracleError::IntentExpired => "Intent has expired"@,
            OracleError::IntentNotInProgress => "Intent is not in progress"@,
            OracleError::EvaluationNotOpen => "Evaluation cannot be challenged"@,
            OracleError::EvaluationAlreadyFinalized => "Evaluation already finalized"@,
            OracleError::EvaluationNotChallenged => "Evaluation is not in challenged state"@,
            OracleError::ChallengePeriodExpired => "Challenge period has expired"@,
            OracleError::ChallengePeriodActive => "Challenge period still active"@,
            OracleError::InsufficientReputation =>
                "Insufficient reputation for high-value intent"@,
            OracleError::SolverNotActive => "Solver is not active"@,
            OracleError::UserAlreadyRegistered => "User already registered"@,
            OracleError::NotOwner => "Only owner can call this method"@,
            OracleError::NotAdminOrOwner => "Only owner or admin can call this method"@,
            OracleError::NotVerifierOrAdmin =>
                "Only owner, admin, or verifier can call this method"@,
            OracleError::WrongSolver => "Only the assigned solver can complete this intent"@,
            OracleError::EvaluationIntentMismatch => "Evaluation does not match intent"@,
            OracleError::ChallengeEvaluationMismatch => "Challenge does not match evaluation"@,
            OracleError::IntentNotFound => "Intent not found"@,
            OracleError::EvaluationNotFound => "Evaluation not found"@,
            OracleError::ChallengeNotFound => "Challenge not found"@,
            OracleError::SolverNotRegistered => "Solver not registered"@,
            OracleError::UserNotFound => "User not found"@,
            OracleError::InvalidWinner => "Invalid winner specification"@,
            OracleError::WeightCountMismatch => "One weight per eligible solver is required"@,
            OracleError::ArithmeticOverflow => "Arithmetic overflow"@,
        }
    }

    /// Renders the refusal as text.
    pub fn message(&self) -> (text: String)
        ensures
            text@ == self.message_text(),
    {
        let literal: &str = match self {
            OracleError::InsufficientStake => "Insufficient stake",
            OracleError::EmptyQuestion => "Question cannot be empty",
            OracleError::QuestionTooLong => "Question too long",
            OracleError::TooManySourcesRequired => "Too many sources required",
            OracleError::ConfidenceOutOfRange => "Confidence must be between 0 and 1",
            OracleError::NoSources => "At least one source is required",
            OracleError::TooManySources => "Too many sources",
            OracleError::SourceUrlTooLong => "Source URL too long",
            OracleError::SourceTitleEmpty => "Source title cannot be empty",
            OracleError::NoCounterSources => "Counter sources required",
            OracleError::ChallengeStakeTooLow =>
                "Challenge stake must be higher than evaluation stake",
            OracleError::InvalidVerificationLevel => "Verification level must be 0-5",
            OracleError::IntentNotPending => "Intent is not pending",
            OracleError::IntentExpired => "Intent has expired",
            OracleError::IntentNotInProgress => "Intent is not in progress",
            OracleError::EvaluationNotOpen => "Evaluation cannot be challenged",
            OracleError::EvaluationAlreadyFinalized => "Evaluation already finalized",
            OracleError::EvaluationNotChallenged => "Evaluation is not in challenged state",
            OracleError::ChallengePeriodExpired => "Challenge period has expired",
            OracleError::ChallengePeriodActive => "Challenge period still active",
            OracleError::InsufficientReputation =>
                "Insufficient reputation for high-value intent",
            OracleError::SolverNotActive => "Solver is not active",
            OracleError::UserAlreadyRegistered => "User already registered",
            OracleError::NotOwner => "Only owner can call this method",
            OracleError::NotAdminOrOwner => "Only owner or admin can call this method",
            OracleError::NotVerifierOrAdmin =>
                "Only owner, admin, or verifier can call this method",
            OracleError::WrongSolver => "Only the assigned solver can complete this intent",
            OracleError::EvaluationIntentMismatch => "Evaluation does not match intent",
            OracleError::ChallengeEvaluationMismatch => "Challenge does not match evaluation",
            OracleError::IntentNotFound => "Intent not found",
            OracleError::EvaluationNotFound => "Evaluation not found",
            OracleError::ChallengeNotFound => "Challenge not found",
            OracleError::SolverNotRegistered => "Solver not registered",
            OracleError::UserNotFound => "User not found",
            OracleError::InvalidWinner => "Invalid winner specification",
            OracleError::WeightCountMismatch => "One weight per eligible solver is required",
            OracleError::ArithmeticOverflow => "Arithmetic overflow",
        };
        literal.to_owned()
    }
}

} // verus!
