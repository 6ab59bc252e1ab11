use crate::protocol::text_eq;
use vstd::prelude::*;

verus! {

/// The roles a user account may have.
#[derive(Clone, Copy, Debug, PartialEq, Eq, Structural)]
pub enum UserRole {
    Admin,
    Teacher,
    Student,
}

impl UserRole {
    /// The lower-case name under which the role is stored.
    pub fn label(&self) -> (r: String)
        ensures
            *self == UserRole::Admin ==> r@ == "admin"@,
            *self == UserRole::Teacher ==> r@ == "teacher"@,
            *self == UserRole::Student ==> r@ == "student"@,
    {
        match self {
            UserRole::Admin => String::from_str("admin"),
            UserRole::Teacher => String::from_str("teacher"),
            UserRole::Student => String::from_str("student"),
        }
    }
}

/// The durable status of a game.
#[derive(Clone, Copy, Debug, PartialEq, Eq, Structural)]
pub enum GameStatus {
    Lobby,
    Active,
    Completed,
}

impl GameStatus {
    /// The lower-case name under which the status is stored.
    pub fn label(&self) -> (r: String)
        ensures
            *self == GameStatus::Lobby ==> r@ == "lobby"@,
            *self == GameStatus::Active ==> r@ == "active"@,
            *self == GameStatus::Completed ==> r@ == "completed"@,
    {
        match self {
            GameStatus::Lobby => String::from_str("lobby"),
            GameStatus::Active => String::from_str("active"),
            GameStatus::Completed => String::from_str("completed"),
        }
    }

    /// The status stored under `label`, if it is one.
    pub fn from_label(label: &str) -> (r: Option<GameStatus>)
        ensures
            label@ == "lobby"@ <==> r == Some(GameStatus::Lobby),
            label@ == "active"@ <==> r == Some(GameStatus::Active),
            label@ == "completed"@ <==> r == Some(GameStatus::Completed),
    {
        proof {
            reveal_strlit("lobby");
            reveal_strlit("active");
            reveal_strlit("completed");
            assert("lobby"@.len() == 5 && "active"@.len() == 6 && "completed"@.len() == 9);
        }
        if text_eq(label, "lobby") {
            Some(GameStatus::Lobby)
        } else if text_eq(label, "active") {
            Some(GameStatus::Active)
        } else if text_eq(label, "completed") {
            Some(GameStatus::Completed)
        } else {
            None
        }
    }
}

/// The role of one live connection.
#[derive(Clone, Copy, Debug, PartialEq, Eq, Structural)]
pub enum ConnectionType {
    Host,
    Player,
    Viewer,
}

impl ConnectionType {
    /// The lower-case name under which the role is stored.
    pub fn label(&self) -> (r: String)
        ensures
            *self == ConnectionType::Host ==> r@ == "host"@,
            *self == ConnectionType::Player ==> r@ == "player"@,
            *self == ConnectionType::Viewer ==> r@ == "viewer"@,
    {
        match self {
            ConnectionType::Host => String::from_str("host"),
            ConnectionType::Player => String::from_str("player"),
            ConnectionType::Viewer => String::from_str("viewer"),
        }
    }
}

/// The phase of a live game session.
#[derive(Clone, Copy, Debug, PartialEq, Eq, Structural)]
pub enum Phase {
    Lobby,
    Question,
    Review,
    Ended,
}

/// One authored question, as the question store hands it over.
pub struct Question {
    pub id: i32,
    pub question_set_id: i32,
    pub question_text: String,
    pub option_a: String,
    pub option_b: String,
    pub option_c: String,
    pub option_d: String,
    pub correct_option: String,
    pub points: i32,
    pub time_limit: i32,
    pub position: i32,
}

/// What a lobby shows of a player.
pub struct PlayerInfo {
    pub player_id: i32,
    pub nickname: String,
    pub is_guest: bool,
}

/// One line of a leaderboard.
pub struct LeaderboardEntry {
    pub player_id: i32,
    pub nickname: String,
    pub score: i64,
    pub is_guest: bool,
}

/// A request to join a lobby.
pub struct JoinGameDto {
    pub game_code: String,
    pub nickname: Option<String>,
}

/// An answer as a player submits it.
pub struct SubmitAnswerDto {
    pub question_id: i32,
    pub answer: String,
    pub response_time_ms: i32,
}

/// The errors the engine reports, each with a message for the user.
#[derive(Debug)]
pub enum AppError {
    AuthError(String),
    ForbiddenError(String),
    NotFoundError(String),
    BadRequestError(String),
    InternalError(String),
    DatabaseError(String),
}

impl AppError {
    /// The message carried by the error.
    pub fn message(&self) -> (r: &String)
        ensures
            self matches AppError::AuthError(m) ==> r == m,
            self matches AppError::ForbiddenError(m) ==> r == m,
            self matches AppError::NotFoundError(m) ==> r == m,
            self matches AppError::BadRequestError(m) ==> r == m,
            self matches AppError::InternalError(m) ==> r == m,
            self matches AppError::DatabaseError(m) ==> r == m,
    {
        match self {
            AppError::AuthError(m) => m,
            AppError::ForbiddenError(m) => m,
            AppError::NotFoundError(m) => m,
            AppError::BadRequestError(m) => m,
            AppError::InternalError(m) => m,
            AppError::DatabaseError(m) => m,
        }
    }

    /// The HTTP status that the error stands for.
    pub fn status_code(&self) -> (r: u16)
        ensures
            self is AuthError ==> r == 401,
            self is ForbiddenError ==> r == 403,
            self is NotFoundError ==> r == 404,
            self is BadRequestError ==> r == 400,
            self is InternalError || self is DatabaseError ==> r == 500,
    {
        match self {
            AppError::AuthError(_) => 401,
            AppError::ForbiddenError(_) => 403,
            AppError::NotFoundError(_) => 404,
            AppError::BadRequestError(_) => 400,
            AppError::InternalError(_) => 500,
            AppError::DatabaseError(_) => 500,
        }
    }
}

} // verus!
