//! Signing in, as a state machine: `Login` takes the page's state and what
//! happened and gives the next state and what the caller is to do (send the
//! sign-in, keep the token and open the dashboard, ask for a new
//! verification email).

use vstd::prelude::*;
use crate::text::owned;
use crate::answers::{failure_text, failure_message, message_or, message_or_default};

verus! {

/// The page: the two fields, the error shown (empty for none), whether a
/// sign-in is under way, whether the account still needs its email
/// confirmed, and the state of a request for a new confirmation email.
#[derive(Debug, Clone, Default)]
pub struct LoginState {
    pub email: String,
    pub password: String,
    pub error: String,
    pub loading: bool,
    pub needs_verification: bool,
    pub resend_loading: bool,
    pub resend_message: String,
}

#[derive(Debug, Clone, Copy, PartialEq, Eq, Structural)]
pub enum LoginField {
    Email,
    Password,
}

/// What the server answered to a sign-in.
#[derive(Debug, Clone)]
pub enum SigninReply {
    /// An answer: its `requires_verification` flag (false where absent or not
    /// a boolean), its `message` and its `token` where they are text.
    Answered { requires_verification: bool, message: Option<String>, token: Option<String> },
    Failed(String),
}

/// What the server answered to a request for a new confirmation email.
#[derive(Debug, Clone)]
pub enum ResendReply {
    Answered { message: Option<String> },
    Failed(String),
}

#[derive(Debug, Clone)]
pub enum LoginEvent {
    Edit(LoginField, String),
    Submit,
    Signin(SigninReply),
    /// Ask for a new confirmation email.
    Resend,
    Resent(ResendReply),
}

#[derive(Debug, Clone)]
pub enum LoginAction {
    Nothing,
    /// Send `{"user": {"email", "password"}}` with POST to `signin_path()`.
    SendSignin { email: String, password: String },
    /// Keep the token as the session's and open `dashboard_path()`.
    Enter { token: String },
    /// Send `{"email"}` with POST to `resend_path()`.
    SendResend { email: String },
}

pub fn signin_path() -> (r: &'static str)
    ensures
        r@ == "/api/auth/signin"@,
{
    "/api/auth/signin"
}

pub fn resend_path() -> (r: &'static str)
    ensures
        r@ == "/api/auth/resend_verification"@,
{
    "/api/auth/resend_verification"
}

pub fn dashboard_path() -> (r: &'static str)
    ensures
        r@ == "/dashboard"@,
{
    "/dashboard"
}

/// The page as it opens.
pub fn new_login_state() -> (s: LoginState)
    ensures
        s.email@.len() == 0 && s.password@.len() == 0 && s.error@.len() == 0 && s.resend_message@.len() == 0,
        !s.loading && !s.needs_verification && !s.resend_loading,
{
    LoginState {
        email: String::new(),
        password: String::new(),
        error: String::new(),
        loading: false,
        needs_verification: false,
        resend_loading: false,
        resend_message: String::new(),
    }
}

/// What the page does with an event.
pub fn Login(s: LoginState, event: LoginEvent) -> (r: (LoginState, LoginAction))
    ensures
        match event {
            LoginEvent::Edit(field, v) => {
                &&& r.0 == (match field {
                    LoginField::Email => LoginState { email: v, ..s },
                    LoginField::Password => LoginState { password: v, ..s },
                })
                &&& r.1 is Nothing
            },
            LoginEvent::Submit => if s.email@.len() == 0 || s.password@.len() == 0 {
                &&& r.0.error@ == "Моля въведете email и парола"@
                &&& r.0.email == s.email && r.0.password == s.password && r.0.loading == s.loading
                &&& r.0.needs_verification == s.needs_verification
                &&& r.0.resend_loading == s.resend_loading && r.0.resend_message == s.resend_message
                &&& r.1 is Nothing
            } else {
                &&& r.0.loading && !r.0.needs_verification
                &&& r.0.error@.len() == 0 && r.0.resend_message@.len() == 0
                &&& r.0.email == s.email && r.0.password == s.password && r.0.resend_loading == s.resend_loading
                &&& r.1 == LoginAction::SendSignin { email: s.email, password: s.password }
            },
            LoginEvent::Signin(reply) => {
                &&& !r.0.loading
                &&& r.0.email == s.email && r.0.password == s.password
                &&& r.0.resend_loading == s.resend_loading && r.0.resend_message == s.resend_message
                &&& match reply {
                    SigninReply::Answered { requires_verification, message, token } => if requires_verification {
                        &&& r.0.needs_verification
                        &&& r.0.error@ == message_or(message, "Моля, потвърдете вашия email."@)
                        &&& r.1 is Nothing
                    } else {
                        &&& r.0.needs_verification == s.needs_verification
                        &&& match token {
                            Some(t) => r.0.error == s.error && r.1 == LoginAction::Enter { token: t },
                            None => r.0.error@ == "Невалиден email или парола"@ && r.1 is Nothing,
                        }
                    },
                    SigninReply::Failed(e) => {
                        &&& r.0.needs_verification == s.needs_verification
                        &&& r.0.error@ == failure_text(e@)
                        &&& r.1 is Nothing
                    },
                }
            },
            LoginEvent::Resend => if s.email@.len() == 0 {
                &&& r.0 == s
                &&& r.1 is Nothing
            } else {
                &&& r.0.resend_loading && r.0.resend_message@.len() == 0
                &&& r.0.email == s.email && r.0.password == s.password && r.0.error == s.error
                &&& r.0.loading == s.loading && r.0.needs_verification == s.needs_verification
                &&& r.1 == LoginAction::SendResend { email: s.email }
            },
            LoginEvent::Resent(reply) => {
                &&& !r.0.resend_loading
                &&& r.0.email == s.email && r.0.password == s.password && r.0.error == s.error
                &&& r.0.loading == s.loading && r.0.needs_verification == s.needs_verification
                &&& r.0.resend_message@ == (match reply {
                    ResendReply::Answered { message } => message_or(message, "Email изпратен."@),
                    ResendReply::Failed(e) => failure_text(e@),
                })
                &&& r.1 is Nothing
            },
        },
{
    let mut s = s;
    match event {
        LoginEvent::Edit(field, v) => {
            match field {
                LoginField::Email => { s.email = v; },
                LoginField::Password => { s.password = v; },
            }
            (s, LoginAction::Nothing)
        },
        LoginEvent::Submit => {
            if s.email.as_str().is_empty() || s.password.as_str().is_empty() {
                s.error = owned("Моля въведете email и парола");
                return (s, LoginAction::Nothing);
            }
            s.loading = true;
            s.error = String::new();
            s.needs_verification = false;
            s.resend_message = String::new();
            let email = s.email.clone();
            let password = s.password.clone();
            (s, LoginAction::SendSignin { email, password })
        },
        LoginEvent::Signin(reply) => {
            s.loading = false;
            match reply {
                SigninReply::Answered { requires_verification, message, token } => {
                    if requires_verification {
                        s.needs_verification = true;
                        s.error = message_or_default(message, "Моля, потвърдете вашия email.");
                        (s, LoginAction::Nothing)
                    } else {
                        match token {
                            Some(t) => (s, LoginAction::Enter { token: t }),
                            None => {
                                s.error = owned("Невалиден email или парола");
                                (s, LoginAction::Nothing)
                            },
                        }
                    }
                },
                SigninReply::Failed(e) => {
                    s.error = failure_message(e.as_str());
                    (s, LoginAction::Nothing)
                },
            }
        },
        LoginEvent::Resend => {
            if s.email.as_str().is_empty() {
                return (s, LoginAction::Nothing);
            }
            s.resend_loading = true;
            s.resend_message = String::new();
            let email = s.email.clone();
            (s, LoginAction::SendResend { email })
        },
        LoginEvent::Resent(reply) => {
            s.resend_loading = false;
            s.resend_message = match reply {
                ResendReply::Answered { message } => message_or_default(message, "Email изпратен."),
                ResendReply::Failed(e) => failure_message(e.as_str()),
            };
            (s, LoginAction::Nothing)
        },
    }
}

/// The error box shows the error, except while the page asks for the email
/// to be confirmed (that panel shows it instead).
pub fn shows_error_box(s: &LoginState) -> (r: bool)
    ensures
        r == (s.error@.len() > 0 && !s.needs_verification),
{
    !s.error.as_str().is_empty() && !s.needs_verification
}

} // verus!
