//! The records of quizzes, questions, games, answers and rewards, and their keys.
use vstd::prelude::*;
use crate::table::TableKey;

verus! {

pub type QuizId = u64;
pub type QuestionId = u16;
pub type QuestionOptionId = u16;
pub type AnswerId = u16;
pub type RewardId = u16;
pub type Balance = u128;
pub type Timestamp = u64;
pub type AccountId = String;
pub type TokenAccountId = String;

#[derive(Clone, Copy, Debug, PartialEq, Eq, Structural)]
pub enum QuizFinalityType {
    Direct,
    DelayedReveal,
}

#[derive(Clone, Copy, Debug, PartialEq, Eq, Structural)]
pub enum QuizStatus {
    Funded,
    Locked,
    InProgress,
    Finished,
}

#[derive(Clone, Copy, Debug, PartialEq, Eq, Structural)]
pub enum QuestionKind {
    OneChoice,
    MultipleChoice,
    Text,
}

#[derive(Clone, Copy, Debug, PartialEq, Eq, Structural)]
pub enum QuestionOptionKind {
    Text,
    Image,
    Html,
}

/// Why an operation was rejected; a rejected operation changes nothing.
#[derive(Clone, Copy, Debug, PartialEq, Eq, Structural)]
pub enum QuizError {
    QuestionsAndOptionsNotMatched,
    NoQuestions,
    TooManyItems,
    IllegalDeposit,
    IllegalRewards,
    AmountOverflow,
    QuizNotFound,
    QuizNotFunded,
    QuizNotActive,
    QuizNotInProgress,
    QuizNotFinished,
    QuizAlreadyUnlocked,
    NotCancellable,
    TooEarlyToCancel,
    NoAccess,
    TokenNotWhitelisted,
    UnknownOperation,
    MissingField,
    GameNotStarted,
    GameAlreadyInProgress,
    GameNotFinished,
    RestartNotAllowed,
    OnlyWinnerMayRestart,
    WrongAnswerIndex,
    QuestionNotFound,
    QuestionOptionNotFound,
    AnswerTextMissing,
    AnswerOptionsMissing,
    SecretMissing,
    SuccessHashMissing,
    AnswersAlreadyRevealed,
    IllegalAnswersQuantity,
    InvalidAnswers,
    IllegalHashLength,
    HashRevealNotSupported,
    RevealedAnswersPresent,
    RewardAlreadyDistributed,
    AlreadyClaimed,
    IllegalFromIndex,
}

#[derive(Clone, Debug)]
pub struct Question {
    pub kind: QuestionKind,
    pub content: String,
    pub hint: Option<String>,
    pub options_quantity: u16,
}

#[derive(Clone, Debug)]
pub struct QuestionOption {
    pub content: String,
    pub kind: QuestionOptionKind,
}

#[derive(Clone, Debug)]
pub struct QuestionInput {
    pub kind: QuestionKind,
    pub content: String,
    pub hint: Option<String>,
}

#[derive(Clone, Copy, Debug)]
pub struct RewardInput {
    pub amount: Balance,
}

#[derive(Clone, Debug)]
pub struct RewardOutput {
    pub id: RewardId,
    pub amount: Balance,
    pub winner_account_id: Option<AccountId>,
    pub claimed: bool,
}

#[derive(Clone, Debug)]
pub struct QuestionOutput {
    pub id: QuestionId,
    pub question: Question,
    pub question_options: Vec<QuestionOptionOutput>,
}

#[derive(Clone, Debug)]
pub struct QuestionOptionOutput {
    pub id: QuestionId,
    pub content: String,
    pub kind: QuestionOptionKind,
}

#[derive(Clone, Debug)]
pub struct AffiliatesOutput {
    pub account_id: AccountId,
    pub affiliates: u64,
}

#[derive(Clone, Debug)]
pub struct Game {
    pub answers_quantity: u16,
    pub current_hash: String,
}

#[derive(Clone, Debug)]
pub struct Answer {
    pub selected_option_ids: Option<Vec<QuestionOptionId>>,
    pub selected_text: Option<String>,
    pub timestamp: Timestamp,
}

#[derive(Clone, Debug)]
pub struct RevealedAnswer {
    pub selected_option_ids: Option<Vec<QuestionOptionId>>,
    pub selected_text: Option<String>,
}

#[derive(Clone, Debug)]
pub struct Reward {
    pub amount: Balance,
    pub winner_account_id: Option<AccountId>,
    pub claimed: bool,
}

#[derive(Clone, Debug)]
pub struct AnswerOutput {
    pub id: AnswerId,
    pub selected_option_ids: Option<Vec<QuestionOptionId>>,
    pub selected_text: Option<String>,
    pub timestamp: Timestamp,
    pub is_correct: Option<bool>,
}

#[derive(Clone, Debug)]
pub struct StatsOutput {
    pub player_id: AccountId,
    pub answers_quantity: u16,
    pub last_answer_timestamp: Option<Timestamp>,
}

#[derive(Debug)]
pub struct Quiz {
    pub title: Option<String>,
    pub description: Option<String>,
    pub language: Option<String>,
    pub finality_type: QuizFinalityType,
    pub owner_id: AccountId,
    pub status: QuizStatus,
    pub total_questions: u16,
    pub available_rewards_ids: Vec<RewardId>,
    pub distributed_rewards_ids: Vec<RewardId>,
    pub secret: Option<String>,
    pub success_hash: Option<String>,
    pub revealed_answers: Option<Vec<RevealedAnswer>>,
    pub sponsor_account_id: Option<AccountId>,
    pub funded_amount: Option<Balance>,
    pub restart_allowed: bool,
    pub timestamp: Option<Timestamp>,
    pub token_account_id: Option<TokenAccountId>,
}

#[derive(Debug)]
pub struct QuizOutput {
    pub id: QuizId,
    pub title: Option<String>,
    pub description: Option<String>,
    pub language: Option<String>,
    pub finality_type: QuizFinalityType,
    pub owner_id: AccountId,
    pub status: QuizStatus,
    pub total_questions: u16,
    pub unclaimed_rewards_ids: Vec<RewardId>,
    pub secret: Option<String>,
    pub success_hash: Option<String>,
    pub questions: Vec<QuestionOutput>,
    pub available_rewards: Vec<RewardOutput>,
    pub distributed_rewards: Vec<RewardOutput>,
    pub revealed_answers: Option<Vec<RevealedAnswer>>,
    pub timestamp: Option<Timestamp>,
    pub restart_allowed: bool,
    pub token_account_id: Option<TokenAccountId>,
    pub funded_amount: Option<Balance>,
}

/// An outgoing value transfer that the host is to perform.
#[derive(Clone, Debug)]
pub struct Payout {
    pub recipient: AccountId,
    pub amount: Balance,
    /// The token contract; `None` is the native currency.
    pub token_account_id: Option<TokenAccountId>,
    /// The reward slot that the transfer pays out, if any.
    pub quiz_id: Option<QuizId>,
    pub reward_id: Option<RewardId>,
}

#[derive(Clone, Debug)]
pub struct QuizByUser {
    pub quiz_id: QuizId,
    pub account_id: AccountId,
}

#[derive(Clone, Debug)]
pub struct AnswerByQuizByQuestionByUser {
    pub quiz_id: QuizId,
    pub question_id: QuestionId,
    pub account_id: AccountId,
}

#[derive(Clone, Copy, Debug)]
pub struct QuestionByQuiz {
    pub quiz_id: QuizId,
    pub question_id: QuestionId,
}

#[derive(Clone, Debug)]
pub struct QuizResultByQuiz {
    pub quiz_id: QuizId,
    pub hash: String,
}

#[derive(Clone, Copy, Debug)]
pub struct QuestionOptionByQuiz {
    pub quiz_id: QuizId,
    pub question_id: QuestionId,
    pub question_option_id: QuestionOptionId,
}

#[derive(Clone, Copy, Debug)]
pub struct RewardByQuiz {
    pub quiz_id: QuizId,
    pub reward_id: RewardId,
}

impl View for QuizByUser {
    type V = (QuizId, Seq<char>);

    open spec fn view(&self) -> (QuizId, Seq<char>) {
        (self.quiz_id, self.account_id@)
    }
}

impl TableKey for QuizByUser {
    fn same_key(&self, other: &Self) -> (r: bool) {
        self.quiz_id == other.quiz_id && self.account_id == other.account_id
    }
}

impl View for AnswerByQuizByQuestionByUser {
    type V = (QuizId, QuestionId, Seq<char>);

    open spec fn view(&self) -> (QuizId, QuestionId, Seq<char>) {
        (self.quiz_id, self.question_id, self.account_id@)
    }
}

impl TableKey for AnswerByQuizByQuestionByUser {
    fn same_key(&self, other: &Self) -> (r: bool) {
        self.quiz_id == other.quiz_id && self.question_id == other.question_id
            && self.account_id == other.account_id
    }
}

impl View for QuestionByQuiz {
    type V = (QuizId, QuestionId);

    open spec fn view(&self) -> (QuizId, QuestionId) {
        (self.quiz_id, self.question_id)
    }
}

impl TableKey for QuestionByQuiz {
    fn same_key(&self, other: &Self) -> (r: bool) {
        self.quiz_id == other.quiz_id && self.question_id == other.question_id
    }
}

impl View for QuizResultByQuiz {
    type V = (QuizId, Seq<char>);

    open spec fn view(&self) -> (QuizId, Seq<char>) {
        (self.quiz_id, self.hash@)
    }
}

impl TableKey for QuizResultByQuiz {
    fn same_key(&self, other: &Self) -> (r: bool) {
        self.quiz_id == other.quiz_id && self.hash == other.hash
    }
}

impl View for QuestionOptionByQuiz {
    type V = (QuizId, QuestionId, QuestionOptionId);

    open spec fn view(&self) -> (QuizId, QuestionId, QuestionOptionId) {
        (self.quiz_id, self.question_id, self.question_option_id)
    }
}

impl TableKey for QuestionOptionByQuiz {
    fn same_key(&self, other: &Self) -> (r: bool) {
        self.quiz_id == other.quiz_id && self.question_id == other.question_id
            && self.question_option_id == other.question_option_id
    }
}

impl View for RewardByQuiz {
    type V = (QuizId, RewardId);

    open spec fn view(&self) -> (QuizId, RewardId) {
        (self.quiz_id, self.reward_id)
    }
}

impl TableKey for RewardByQuiz {
    fn same_key(&self, other: &Self) -> (r: bool) {
        self.quiz_id == other.quiz_id && self.reward_id == other.reward_id
    }
}

} // verus!
