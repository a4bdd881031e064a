use vstd::prelude::*;

verus! {

/// Where a login or registration attempt stands, without its payload.
#[derive(Clone, Copy, Debug, PartialEq, Eq, Structural)]
pub enum LoginStateStatus {
    Idle,
    Loading,
    Success,
    Error,
}

impl Default for LoginStateStatus {
    /// A fresh attempt starts idle.
    fn default() -> (r: LoginStateStatus)
        ensures
            r == LoginStateStatus::Idle,
    {
        LoginStateStatus::Idle
    }
}

impl LoginStateStatus {
    /// Whether a new attempt may be started: neither already logged
    /// in nor waiting for an answer.
    pub fn is_not_successful_nor_loading(&self) -> (r: bool)
        ensures
            r == (*self != LoginStateStatus::Loading && *self != LoginStateStatus::Success),
    {
        *self != LoginStateStatus::Loading && *self != LoginStateStatus::Success
    }
}

/// Where a login or registration attempt stands: idle, waiting,
/// succeeded with a session token, or failed with a message.
#[derive(Debug)]
pub enum LoginState {
    Idle,
    Loading,
    Success(String),
    Error(String),
}

impl Default for LoginState {
    /// A fresh attempt starts idle.
    fn default() -> (r: LoginState)
        ensures
            r matches LoginState::Idle,
    {
        LoginState::Idle
    }
}

impl LoginState {
    /// The bare status, without the token or message.
    pub fn get_status(&self) -> (r: LoginStateStatus)
        ensures
            r == (match self {
                LoginState::Idle => LoginStateStatus::Idle,
                LoginState::Loading => LoginStateStatus::Loading,
                LoginState::Success(_) => LoginStateStatus::Success,
                LoginState::Error(_) => LoginStateStatus::Error,
            }),
    {
        match self {
            LoginState::Idle => LoginStateStatus::Idle,
            LoginState::Loading => LoginStateStatus::Loading,
            LoginState::Success(_) => LoginStateStatus::Success,
            LoginState::Error(_) => LoginStateStatus::Error,
        }
    }

    /// The session token, if the attempt succeeded.
    pub fn get_token(&self) -> (r: Option<&str>)
        ensures
            match self {
                LoginState::Success(token) => r matches Some(t) && t@ == token@,
                _ => r is None,
            },
    {
        match self {
            LoginState::Success(token) => Some(token.as_str()),
            _ => None,
        }
    }

    /// The failure message, if the attempt failed.
    pub fn get_error(&self) -> (r: Option<&str>)
        ensures
            match self {
                LoginState::Error(error) => r matches Some(e) && e@ == error@,
                _ => r is None,
            },
    {
        match self {
            LoginState::Error(error) => Some(error.as_str()),
            _ => None,
        }
    }

    /// A failed attempt with the given message.
    pub fn error(error: String) -> (r: LoginState)
        ensures
            r matches LoginState::Error(e) && e@ == error@,
    {
        LoginState::Error(error)
    }
}

} // verus!
