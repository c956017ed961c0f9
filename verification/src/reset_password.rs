//! Setting a new password from a reset link, as a state machine: the link's
//! token is validated first, then the new password is validated and sent.
//! `ResetPassword` takes the page's state and what happened and gives the
//! next state and what the caller is to do.

use vstd::prelude::*;
use crate::text::{owned, concat};
use crate::answers::{Outcome, failure_text, failure_message, message_or, message_or_default,
    too_short, is_too_short};

verus! {

/// The page: the link's token, the two password fields, the error shown
/// (empty for none), whether the password was set, whether it is being sent,
/// whether the token is being validated and was found valid, and the account's
/// email as the token's validation gave it.
#[derive(Debug, Clone, Default)]
pub struct ResetState {
    pub token: String,
    pub password: String,
    pub confirm_password: String,
    pub error: String,
    pub success: bool,
    pub loading: bool,
    pub validating: bool,
    pub token_valid: bool,
    pub user_email: String,
}

#[derive(Debug, Clone, Copy, PartialEq, Eq, Structural)]
pub enum ResetField {
    Password,
    ConfirmPassword,
}

/// What the server answered to the token's validation.
#[derive(Debug, Clone)]
pub enum TokenCheck {
    /// An answer: its `valid` flag (false where absent or not a boolean), and
    /// its `email` and `message` where they are text.
    Answered { valid: bool, email: Option<String>, message: Option<String> },
    Failed,
}

#[derive(Debug, Clone)]
pub enum ResetEvent {
    Checked(TokenCheck),
    Edit(ResetField, String),
    Submit,
    Reset(Outcome),
}

#[derive(Debug, Clone)]
pub enum ResetAction {
    Nothing,
    /// Check the token with GET at this URL.
    CheckToken(String),
    /// Send `{"token", "password", "password_confirmation"}` (the password
    /// twice) with POST to `reset_path()`.
    SendReset { token: String, password: String },
}

pub fn reset_path() -> (r: &'static str)
    ensures
        r@ == "/api/auth/reset_password"@,
{
    "/api/auth/reset_password"
}

/// Where the token is checked: `/api/auth/reset_password/validate?token=`
/// followed by the token as it is.
pub fn token_check_url(token: &str) -> (r: String)
    ensures
        r@ == "/api/auth/reset_password/validate?token="@ + token@,
{
    concat("/api/auth/reset_password/validate?token=", token)
}

/// The page as it opens with the link's token (empty where the link has
/// none): without a token there is nothing to check and the page says so;
/// with one, its validation is asked for.
pub fn start_reset(token: String) -> (r: (ResetState, ResetAction))
    ensures
        r.0.token == token,
        r.0.password@.len() == 0 && r.0.confirm_password@.len() == 0 && r.0.user_email@.len() == 0,
        !r.0.success && !r.0.loading && !r.0.token_valid,
        if token@.len() == 0 {
            &&& !r.0.validating
            &&& r.0.error@ == "Липсващ токен за възстановяване"@
            &&& r.1 is Nothing
        } else {
            &&& r.0.validating
            &&& r.0.error@.len() == 0
            &&& r.1 matches ResetAction::CheckToken(url) && url@ == "/api/auth/reset_password/validate?token="@ + token@
        },
{
    let empty = token.as_str().is_empty();
    let url = token_check_url(token.as_str());
    let mut s = ResetState {
        token,
        password: String::new(),
        confirm_password: String::new(),
        error: String::new(),
        success: false,
        loading: false,
        validating: true,
        token_valid: false,
        user_email: String::new(),
    };
    if empty {
        s.validating = false;
        s.error = owned("Липсващ токен за възстановяване");
        (s, ResetAction::Nothing)
    } else {
        (s, ResetAction::CheckToken(url))
    }
}

/// Why the new password cannot be sent, if it cannot.
pub open spec fn new_password_error(s: ResetState) -> Option<Seq<char>> {
    if too_short(s.password@) {
        Some("Паролата трябва да е поне 8 символа"@)
    } else if s.password@ != s.confirm_password@ {
        Some("Паролите не съвпадат"@)
    } else {
        None
    }
}

/// Law: a new password is sent only when it has at least 8 characters and
/// the confirmation equals it; a short one is always refused as short, even
/// when the confirmation matches.
pub proof fn lemma_new_password(s: ResetState)
    ensures
        s.password@.len() < 8 ==> new_password_error(s) == Some("Паролата трябва да е поне 8 символа"@),
        new_password_error(s) is None <==> (s.password@.len() >= 8 && s.password@ == s.confirm_password@),
{
}

/// What the page does with an event.
pub fn ResetPassword(s: ResetState, event: ResetEvent) -> (r: (ResetState, ResetAction))
    ensures
        match event {
            ResetEvent::Checked(check) => {
                &&& !r.0.validating
                &&& r.1 is Nothing
                &&& match check {
                    TokenCheck::Answered { valid, email, message } => if valid {
                        &&& r.0 == ResetState { validating: false, token_valid: true, user_email: r.0.user_email, ..s }
                        &&& r.0.user_email == (match email { Some(e) => e, None => s.user_email })
                    } else {
                        &&& r.0 == ResetState { validating: false, error: r.0.error, ..s }
                        &&& r.0.error@ == message_or(message, "Невалиден или изтекъл токен"@)
                    },
                    TokenCheck::Failed => {
                        &&& r.0 == ResetState { validating: false, error: r.0.error, ..s }
                        &&& r.0.error@ == "Грешка при проверка на токена"@
                    },
                }
            },
            ResetEvent::Edit(field, v) => {
                &&& r.0 == (match field {
                    ResetField::Password => ResetState { password: v, ..s },
                    ResetField::ConfirmPassword => ResetState { confirm_password: v, ..s },
                })
                &&& r.1 is Nothing
            },
            ResetEvent::Submit => match new_password_error(s) {
                Some(m) => r.0 == ResetState { error: r.0.error, ..s } && r.0.error@ == m && r.1 is Nothing,
                None => {
                    &&& r.0 == ResetState { loading: true, error: r.0.error, ..s }
                    &&& r.0.error@.len() == 0
                    &&& r.1 == ResetAction::SendReset { token: s.token, password: s.password }
                },
            },
            ResetEvent::Reset(outcome) => {
                &&& r.1 is Nothing
                &&& match outcome {
                    Outcome::Answered { success, message } => if success {
                        r.0 == ResetState { loading: false, success: true, ..s }
                    } else {
                        r.0 == ResetState { loading: false, error: r.0.error, ..s }
                            && r.0.error@ == message_or(message, "Грешка при смяна на парола"@)
                    },
                    Outcome::Failed(e) => r.0 == ResetState { loading: false, error: r.0.error, ..s }
                        && r.0.error@ == failure_text(e@),
                }
            },
        },
{
    let mut s = s;
    match event {
        ResetEvent::Checked(check) => {
            match check {
                TokenCheck::Answered { valid, email, message } => {
                    if valid {
                        s.token_valid = true;
                        match email {
                            Some(e) => { s.user_email = e; },
                            None => {},
                        }
                    } else {
                        s.error = message_or_default(message, "Невалиден или изтекъл токен");
                    }
                },
                TokenCheck::Failed => {
                    s.error = owned("Грешка при проверка на токена");
                },
            }
            s.validating = false;
            (s, ResetAction::Nothing)
        },
        ResetEvent::Edit(field, v) => {
            match field {
                ResetField::Password => { s.password = v; },
                ResetField::ConfirmPassword => { s.confirm_password = v; },
            }
            (s, ResetAction::Nothing)
        },
        ResetEvent::Submit => {
            if is_too_short(s.password.as_str()) {
                s.error = owned("Паролата трябва да е поне 8 символа");
                return (s, ResetAction::Nothing);
            }
            if s.password != s.confirm_password {
                s.error = owned("Паролите не съвпадат");
                return (s, ResetAction::Nothing);
            }
            s.loading = true;
            s.error = String::new();
            let token = s.token.clone();
            let password = s.password.clone();
            (s, ResetAction::SendReset { token, password })
        },
        ResetEvent::Reset(outcome) => {
            match outcome {
                Outcome::Answered { success, message } => {
                    if success {
                        s.success = true;
                    } else {
                        s.error = message_or_default(message, "Грешка при смяна на парола");
                    }
                },
                Outcome::Failed(e) => {
                    s.error = failure_message(e.as_str());
                },
            }
            s.loading = false;
            (s, ResetAction::Nothing)
        },
    }
}

/// The panel of a bad link shows once validation is over, when the token was
/// not found valid, there is an error and no password was set.
pub fn shows_invalid_link(s: &ResetState) -> (r: bool)
    ensures
        r == (!s.validating && !s.token_valid && s.error@.len() > 0 && !s.success),
{
    !s.validating && !s.token_valid && !s.error.as_str().is_empty() && !s.success
}

/// The form shows once the token was found valid, until the password is set.
pub fn shows_reset_form(s: &ResetState) -> (r: bool)
    ensures
        r == (!s.validating && s.token_valid && !s.success),
{
    !(s.validating || !s.token_valid || s.success)
}

} // verus!
