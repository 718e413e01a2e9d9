//! Operations, messages, parameters and view types of the quiz application.

use vstd::prelude::*;

use crate::ChainId;

verus! {

/// The error taxonomy of the quiz application's write surface.
#[derive(Clone, Copy, Debug, PartialEq, Eq, Structural)]
pub enum QuizError {
    /// The display name already maps to a different identity.
    NicknameAlreadyTaken,
    /// The quiz mode string names no mode.
    InvalidQuizMode,
    /// The start mode string names no start mode.
    InvalidStartMode,
    /// The quiz has not started yet.
    QuizNotStarted,
    /// The identity already has an attempt for this quiz.
    UserAlreadyAttempted,
    /// The identity is not registered for this quiz.
    UserNotRegistered,
    /// The identity is already registered for this quiz.
    UserAlreadyRegistered,
    /// No quiz has this id.
    QuizNotFound,
    /// No profile exists for this identity.
    UserNotFound,
    /// The caller may not perform this operation.
    InsufficientPermissions,
    /// A parameter fails validation.
    InvalidParameters,
    /// An internal limit was hit.
    InternalError,
}

/// The direction of a sorted query.
#[derive(Clone, Copy, Debug, PartialEq, Eq, Structural)]
pub enum SortDirection {
    Asc,
    Desc,
}

/// Pagination of a query result.
#[derive(Clone, Copy, Debug, PartialEq, Eq, Structural)]
pub struct PaginationParams {
    pub limit: Option<u32>,
    pub offset: Option<u32>,
}

/// Sorting of a query result.
#[derive(Clone, Debug, PartialEq)]
pub struct SortParams {
    pub sort_by: Option<String>,
    pub sort_direction: Option<SortDirection>,
}

/// Marker for the application's operation and response surface.
pub struct QuizAbi;

/// Parameters for setting an identity's display name.
#[derive(Clone, Debug, PartialEq)]
pub struct SetNicknameParams {
    pub nickname: String,
}

/// Parameters for creating a quiz. The time window is given as millisecond
/// timestamps written in decimal.
#[derive(Clone, Debug, PartialEq)]
pub struct CreateQuizParams {
    pub title: String,
    pub description: String,
    pub questions: Vec<QuestionParams>,
    /// Seconds.
    pub time_limit: u64,
    /// Millisecond timestamp in decimal.
    pub start_time: String,
    /// Millisecond timestamp in decimal.
    pub end_time: String,
    pub nickname: String,
    /// `public` or `registration`.
    pub mode: String,
    /// `auto` or `manual`.
    pub start_mode: String,
}

/// One question of a quiz being created.
#[derive(Clone, Debug, PartialEq)]
pub struct QuestionParams {
    pub text: String,
    pub options: Vec<String>,
    pub correct_options: Vec<u32>,
    pub points: u32,
    pub question_type: String,
    pub id: String,
}

/// One question's answer: the chosen option indices, any order.
#[derive(Clone, Debug, PartialEq)]
pub struct AnswerOption {
    pub question_id: String,
    pub selected_answers: Vec<u32>,
}

/// Parameters for submitting a quiz attempt.
#[derive(Clone, Debug, PartialEq)]
pub struct SubmitAnswersParams {
    pub quiz_id: u64,
    pub answers: Vec<AnswerOption>,
    /// Milliseconds.
    pub time_taken: u64,
    pub nickname: String,
}

/// Who may participate in a quiz.
#[derive(Clone, Copy, Debug, PartialEq, Eq, Structural)]
pub enum QuizMode {
    Public,
    Registration,
}

/// How a quiz starts.
#[derive(Clone, Copy, Debug, PartialEq, Eq, Structural)]
pub enum QuizStartMode {
    Auto,
    Manual,
}

/// One row of a quiz's leaderboard.
#[derive(Debug, PartialEq)]
pub struct LeaderboardEntry {
    pub user: String,
    pub score: u32,
    pub time_taken: u64,
}

impl Clone for LeaderboardEntry {
    fn clone(&self) -> (r: Self)
        ensures
            r == *self,
    {
        LeaderboardEntry {
            user: self.user.clone(),
            score: self.score,
            time_taken: self.time_taken,
        }
    }
}

/// An operation the application executes.
#[derive(Clone, Debug, PartialEq)]
pub enum Operation {
    /// Set the caller's display name.
    SetNickname(SetNicknameParams),
    /// Create a new quiz.
    CreateQuiz(CreateQuizParams),
    /// Submit answers for a quiz.
    SubmitAnswers(SubmitAnswersParams),
    /// Start a quiz (only its creator may).
    StartQuiz(u64),
    /// Register for a quiz.
    RegisterForQuiz(u64),
}

/// A write forwarded from a peer context to the authority.
#[derive(Clone, Debug, PartialEq)]
pub enum Message {
    SetNickname { from_chain_id: ChainId, params: SetNicknameParams },
    CreateQuiz { from_chain_id: ChainId, params: CreateQuizParams },
    SubmitAnswers { from_chain_id: ChainId, params: SubmitAnswersParams },
    StartQuiz { from_chain_id: ChainId, quiz_id: u64 },
    RegisterForQuiz { from_chain_id: ChainId, quiz_id: u64 },
}

/// A read-only query of the projection layer.
#[derive(Clone, Debug, PartialEq)]
pub enum Query {
    GetQuizSets,
    GetQuizSet(u64),
    GetUserAttempts(String),
    GetLeaderboard,
    GetQuizLeaderboard(u64),
    GetUserParticipations(String),
    GetUserCreatedQuizzes(String),
    GetUserParticipatedQuizzes(String),
}

/// An identity profile, as queries render it.
#[derive(Clone, Debug, PartialEq)]
pub struct UserView {
    pub wallet_address: String,
    pub nickname: String,
    /// Microsecond timestamp in decimal.
    pub created_at: String,
}

/// An attempt, as queries render it.
#[derive(Clone, Debug, PartialEq, Eq)]
pub struct UserAttemptView {
    pub quiz_id: u64,
    pub user: String,
    pub nickname: String,
    pub answers: Vec<Vec<u32>>,
    pub score: u32,
    pub time_taken: u64,
    /// Microsecond timestamp in decimal.
    pub completed_at: String,
}

/// An attempt together with the quiz it belongs to.
#[derive(Clone, Debug, PartialEq)]
pub struct QuizAttempt {
    pub quiz_id: u64,
    pub attempt: UserAttemptView,
}

/// A quiz, as queries render it.
#[derive(Clone, Debug, PartialEq, Eq)]
pub struct QuizSetView {
    pub id: u64,
    pub title: String,
    pub description: String,
    pub creator: String,
    pub creator_nickname: String,
    pub questions: Vec<QuestionView>,
    /// Microsecond timestamp in decimal.
    pub start_time: String,
    /// Microsecond timestamp in decimal.
    pub end_time: String,
    /// Microsecond timestamp in decimal.
    pub created_at: String,
    /// `public` or `registration`.
    pub mode: String,
    /// `auto` or `manual`.
    pub start_mode: String,
    pub is_started: bool,
    pub registered_users: Vec<String>,
    pub participant_count: u32,
}

/// A question, as queries render it: the correct options stay hidden.
#[derive(Clone, Debug, PartialEq, Eq)]
pub struct QuestionView {
    pub id: String,
    pub text: String,
    pub options: Vec<String>,
    pub points: u32,
    pub question_type: String,
}

/// An application event, as queries render it.
#[derive(Clone, Debug, PartialEq)]
pub enum QuizEvent {
    /// A quiz was created.
    QuizCreated(QuizSetView),
    /// An attempt was submitted.
    AnswerSubmitted(UserAttemptView),
}

/// The response to a read-only query.
#[derive(Clone, Debug, PartialEq)]
pub enum QueryResponse {
    QuizSets(Vec<QuizSetView>),
    QuizSet(Option<QuizSetView>),
    UserAttempts(Vec<QuizAttempt>),
    Leaderboard(Vec<UserAttemptView>),
    QuizLeaderboard(Vec<UserAttemptView>),
    UserParticipations(Vec<u64>),
    UserCreatedQuizzes(Vec<QuizSetView>),
    UserParticipatedQuizzes(Vec<QuizSetView>),
}

} // verus!
