//! The profile page, as a state machine: the user's details (loaded, edited,
//! saved) and the change of password with its checks. `Profile` takes the
//! page's state and what happened and gives the next state and what the
//! caller is to do.

use vstd::prelude::*;
use crate::text::{owned, text_or};
use crate::answers::{Outcome, failure_text, failure_message, message_or, message_or_default,
    too_short, is_too_short};

verus! {

/// The page: the details and their messages, the password fields and their
/// messages, and the tab shown (0 for the details, 1 for the password).
#[derive(Debug, Clone, Default)]
pub struct ProfileState {
    pub loading: bool,
    pub saving: bool,
    pub error_msg: String,
    pub success_msg: String,
    pub first_name: String,
    pub last_name: String,
    pub email: String,
    pub created_at: String,
    pub current_password: String,
    pub new_password: String,
    pub confirm_password: String,
    pub password_saving: bool,
    pub password_error: String,
    pub password_success: String,
    pub active_tab: u8,
}

#[derive(Debug, Clone, Copy, PartialEq, Eq, Structural)]
pub enum ProfileField {
    FirstName,
    LastName,
    Email,
    CurrentPassword,
    NewPassword,
    ConfirmPassword,
}

/// The user's details as loaded, each where it is text.
#[derive(Debug, Clone, Default)]
pub struct ProfileData {
    pub first_name: Option<String>,
    pub last_name: Option<String>,
    pub email: Option<String>,
    pub created_at: Option<String>,
}

#[derive(Debug, Clone)]
pub enum ProfileEvent {
    /// The load finished: the user's details, or nothing where it failed or
    /// the answer held none.
    Loaded(Option<ProfileData>),
    Edit(ProfileField, String),
    SelectTab(u8),
    SaveProfile,
    ProfileSaved(Outcome),
    ChangePassword,
    PasswordChanged(Outcome),
    /// The details' success message has been shown long enough.
    SuccessShown,
    /// The password's success message has been shown long enough.
    PasswordSuccessShown,
    DismissError,
}

#[derive(Debug, Clone)]
pub enum ProfileAction {
    Nothing,
    /// Send `{"first_name", "last_name", "email"}` with PUT to `profile_path()`.
    SendProfile { first_name: String, last_name: String, email: String },
    /// Send `{"current_password", "new_password", "confirm_password"}` with
    /// PUT to `password_path()`.
    SendPassword { current_password: String, new_password: String, confirm_password: String },
    /// Raise `SuccessShown` in 3 seconds.
    HideSuccessLater,
    /// Raise `PasswordSuccessShown` in 3 seconds.
    HidePasswordSuccessLater,
}

pub fn me_path() -> (r: &'static str)
    ensures
        r@ == "/api/auth/me"@,
{
    "/api/auth/me"
}

pub fn profile_path() -> (r: &'static str)
    ensures
        r@ == "/api/auth/profile"@,
{
    "/api/auth/profile"
}

pub fn password_path() -> (r: &'static str)
    ensures
        r@ == "/api/auth/password"@,
{
    "/api/auth/password"
}

/// The page as it opens: loading, on the details' tab, every field empty.
pub fn new_profile_state() -> (s: ProfileState)
    ensures
        s.loading && !s.saving && !s.password_saving && s.active_tab == 0,
        s.error_msg@.len() == 0 && s.success_msg@.len() == 0,
        s.password_error@.len() == 0 && s.password_success@.len() == 0,
        s.first_name@.len() == 0 && s.last_name@.len() == 0 && s.email@.len() == 0 && s.created_at@.len() == 0,
        s.current_password@.len() == 0 && s.new_password@.len() == 0 && s.confirm_password@.len() == 0,
{
    ProfileState {
        loading: true,
        saving: false,
        error_msg: String::new(),
        success_msg: String::new(),
        first_name: String::new(),
        last_name: String::new(),
        email: String::new(),
        created_at: String::new(),
        current_password: String::new(),
        new_password: String::new(),
        confirm_password: String::new(),
        password_saving: false,
        password_error: String::new(),
        password_success: String::new(),
        active_tab: 0,
    }
}

pub open spec fn opt_text(o: Option<String>) -> Seq<char> {
    match o {
        Some(t) => t@,
        None => Seq::empty(),
    }
}

/// Why a password cannot be changed, if it cannot: the current password is
/// missing, the new one is too short, or the two new ones differ.
pub open spec fn password_change_error(s: ProfileState) -> Option<Seq<char>> {
    if s.current_password@.len() == 0 {
        Some("Въведете текущата парола"@)
    } else if too_short(s.new_password@) {
        Some("Новата парола трябва да е поне 8 символа"@)
    } else if s.new_password@ != s.confirm_password@ {
        Some("Паролите не съвпадат"@)
    } else {
        None
    }
}

/// Law: a password change is sent only with the current password, a new
/// password of at least 8 characters and a confirmation equal to it; a
/// missing current password is always its own error, whatever the new ones
/// are.
pub proof fn lemma_password_change(s: ProfileState)
    ensures
        s.current_password@.len() == 0 ==> password_change_error(s) == Some("Въведете текущата парола"@),
        password_change_error(s) is None <==> (s.current_password@.len() > 0
            && s.new_password@.len() >= 8 && s.new_password@ == s.confirm_password@),
{
}

/// What the page does with an event.
pub fn Profile(s: ProfileState, event: ProfileEvent) -> (r: (ProfileState, ProfileAction))
    ensures
        match event {
            ProfileEvent::Loaded(data) => {
                &&& !r.0.loading
                &&& r.1 is Nothing
                &&& match data {
                    Some(d) => r.0 == ProfileState {
                        loading: false,
                        first_name: r.0.first_name,
                        last_name: r.0.last_name,
                        email: r.0.email,
                        created_at: r.0.created_at,
                        ..s
                    } && r.0.first_name@ == opt_text(d.first_name) && r.0.last_name@ == opt_text(d.last_name)
                        && r.0.email@ == opt_text(d.email) && r.0.created_at@ == opt_text(d.created_at),
                    None => r.0 == ProfileState { loading: false, ..s },
                }
            },
            ProfileEvent::Edit(field, v) => {
                &&& r.0 == (match field {
                    ProfileField::FirstName => ProfileState { first_name: v, ..s },
                    ProfileField::LastName => ProfileState { last_name: v, ..s },
                    ProfileField::Email => ProfileState { email: v, ..s },
                    ProfileField::CurrentPassword => ProfileState { current_password: v, ..s },
                    ProfileField::NewPassword => ProfileState { new_password: v, ..s },
                    ProfileField::ConfirmPassword => ProfileState { confirm_password: v, ..s },
                })
                &&& r.1 is Nothing
            },
            ProfileEvent::SelectTab(t) => r.0 == ProfileState { active_tab: t, ..s } && r.1 is Nothing,
            ProfileEvent::SaveProfile => {
                &&& r.0 == ProfileState { saving: true, error_msg: r.0.error_msg, success_msg: r.0.success_msg, ..s }
                &&& r.0.error_msg@.len() == 0 && r.0.success_msg@.len() == 0
                &&& r.1 == ProfileAction::SendProfile { first_name: s.first_name, last_name: s.last_name, email: s.email }
            },
            ProfileEvent::ProfileSaved(outcome) => {
                &&& r.0 == ProfileState { saving: false, error_msg: r.0.error_msg, success_msg: r.0.success_msg, ..s }
                &&& match outcome {
                    Outcome::Answered { success, message } => if success {
                        r.0.success_msg@ == "Профилът е обновен успешно"@ && r.0.error_msg == s.error_msg
                            && r.1 is HideSuccessLater
                    } else {
                        r.0.error_msg@ == message_or(message, "Грешка при запис"@) && r.0.success_msg == s.success_msg
                            && r.1 is Nothing
                    },
                    Outcome::Failed(e) => r.0.error_msg@ == failure_text(e@) && r.0.success_msg == s.success_msg
                        && r.1 is Nothing,
                }
            },
            ProfileEvent::ChangePassword => match password_change_error(s) {
                Some(m) => {
                    &&& r.0 == ProfileState { password_saving: false, password_error: r.0.password_error, password_success: r.0.password_success, ..s }
                    &&& r.0.password_error@ == m && r.0.password_success@.len() == 0
                    &&& r.1 is Nothing
                },
                None => {
                    &&& r.0 == ProfileState { password_saving: true, password_error: r.0.password_error, password_success: r.0.password_success, ..s }
                    &&& r.0.password_error@.len() == 0 && r.0.password_success@.len() == 0
                    &&& r.1 == ProfileAction::SendPassword {
                        current_password: s.current_password,
                        new_password: s.new_password,
                        confirm_password: s.confirm_password,
                    }
                },
            },
            ProfileEvent::PasswordChanged(outcome) => {
                &&& !r.0.password_saving
                &&& r.0.loading == s.loading && r.0.saving == s.saving
                &&& r.0.error_msg == s.error_msg && r.0.success_msg == s.success_msg
                &&& r.0.first_name == s.first_name && r.0.last_name == s.last_name && r.0.email == s.email
                &&& r.0.created_at == s.created_at && r.0.active_tab == s.active_tab
                &&& match outcome {
                    Outcome::Answered { success, message } => if success {
                        &&& r.0.password_success@ == "Паролата е променена успешно"@
                        &&& r.0.password_error == s.password_error
                        &&& r.0.current_password@.len() == 0 && r.0.new_password@.len() == 0
                        &&& r.0.confirm_password@.len() == 0
                        &&& r.1 is HidePasswordSuccessLater
                    } else {
                        &&& r.0.password_error@ == message_or(message, "Грешка при смяна на парола"@)
                        &&& r.0.password_success == s.password_success
                        &&& r.0.current_password == s.current_password && r.0.new_password == s.new_password
                        &&& r.0.confirm_password == s.confirm_password
                        &&& r.1 is Nothing
                    },
                    Outcome::Failed(e) => {
                        &&& r.0.password_error@ == failure_text(e@)
                        &&& r.0.password_success == s.password_success
                        &&& r.0.current_password == s.current_password && r.0.new_password == s.new_password
                        &&& r.0.confirm_password == s.confirm_password
                        &&& r.1 is Nothing
                    },
                }
            },
            ProfileEvent::SuccessShown => {
                &&& r.0 == ProfileState { success_msg: r.0.success_msg, ..s }
                &&& r.0.success_msg@.len() == 0
                &&& r.1 is Nothing
            },
            ProfileEvent::PasswordSuccessShown => {
                &&& r.0 == ProfileState { password_success: r.0.password_success, ..s }
                &&& r.0.password_success@.len() == 0
                &&& r.1 is Nothing
            },
            ProfileEvent::DismissError => {
                &&& r.0 == ProfileState { error_msg: r.0.error_msg, ..s }
                &&& r.0.error_msg@.len() == 0
                &&& r.1 is Nothing
            },
        },
{
    proof {
        reveal_strlit("");
    }
    let mut s = s;
    match event {
        ProfileEvent::Loaded(data) => {
            match data {
                Some(d) => {
                    s.first_name = text_or(&d.first_name, "");
                    s.last_name = text_or(&d.last_name, "");
                    s.email = text_or(&d.email, "");
                    s.created_at = text_or(&d.created_at, "");
                },
                None => {},
            }
            s.loading = false;
            (s, ProfileAction::Nothing)
        },
        ProfileEvent::Edit(field, v) => {
            match field {
                ProfileField::FirstName => { s.first_name = v; },
                ProfileField::LastName => { s.last_name = v; },
                ProfileField::Email => { s.email = v; },
                ProfileField::CurrentPassword => { s.current_password = v; },
                ProfileField::NewPassword => { s.new_password = v; },
                ProfileField::ConfirmPassword => { s.confirm_password = v; },
            }
            (s, ProfileAction::Nothing)
        },
        ProfileEvent::SelectTab(t) => {
            s.active_tab = t;
            (s, ProfileAction::Nothing)
        },
        ProfileEvent::SaveProfile => {
            s.saving = true;
            s.error_msg = String::new();
            s.success_msg = String::new();
            let first_name = s.first_name.clone();
            let last_name = s.last_name.clone();
            let email = s.email.clone();
            (s, ProfileAction::SendProfile { first_name, last_name, email })
        },
        ProfileEvent::ProfileSaved(outcome) => {
            s.saving = false;
            match outcome {
                Outcome::Answered { success, message } => {
                    if success {
                        s.success_msg = owned("Профилът е обновен успешно");
                        (s, ProfileAction::HideSuccessLater)
                    } else {
                        s.error_msg = message_or_default(message, "Грешка при запис");
                        (s, ProfileAction::Nothing)
                    }
                },
                Outcome::Failed(e) => {
                    s.error_msg = failure_message(e.as_str());
                    (s, ProfileAction::Nothing)
                },
            }
        },
        ProfileEvent::ChangePassword => {
            s.password_saving = true;
            s.password_error = String::new();
            s.password_success = String::new();
            if s.current_password.as_str().is_empty() {
                s.password_error = owned("Въведете текущата парола");
                s.password_saving = false;
                return (s, ProfileAction::Nothing);
            }
            if is_too_short(s.new_password.as_str()) {
                s.password_error = owned("Новата парола трябва да е поне 8 символа");
                s.password_saving = false;
                return (s, ProfileAction::Nothing);
            }
            if s.new_password != s.confirm_password {
                s.password_error = owned("Паролите не съвпадат");
                s.password_saving = false;
                return (s, ProfileAction::Nothing);
            }
            let current_password = s.current_password.clone();
            let new_password = s.new_password.clone();
            let confirm_password = s.confirm_password.clone();
            (s, ProfileAction::SendPassword { current_password, new_password, confirm_password })
        },
        ProfileEvent::PasswordChanged(outcome) => {
            s.password_saving = false;
            match outcome {
                Outcome::Answered { success, message } => {
                    if success {
                        s.password_success = owned("Паролата е променена успешно");
                        s.current_password = String::new();
                        s.new_password = String::new();
                        s.confirm_password = String::new();
                        (s, ProfileAction::HidePasswordSuccessLater)
                    } else {
                        s.password_error = message_or_default(message, "Грешка при смяна на парола");
                        (s, ProfileAction::Nothing)
                    }
                },
                Outcome::Failed(e) => {
                    s.password_error = failure_message(e.as_str());
                    (s, ProfileAction::Nothing)
                },
            }
        },
        ProfileEvent::SuccessShown => {
            s.success_msg = String::new();
            (s, ProfileAction::Nothing)
        },
        ProfileEvent::PasswordSuccessShown => {
            s.password_success = String::new();
            (s, ProfileAction::Nothing)
        },
        ProfileEvent::DismissError => {
            s.error_msg = String::new();
            (s, ProfileAction::Nothing)
        },
    }
}

/// The details' tab shows once the details are loaded, while it is chosen.
pub fn shows_details(s: &ProfileState) -> (r: bool)
    ensures
        r == (!s.loading && s.active_tab == 0),
{
    !s.loading && s.active_tab == 0
}

/// The password's tab shows once the details are loaded, while it is chosen.
pub fn shows_password(s: &ProfileState) -> (r: bool)
    ensures
        r == (!s.loading && s.active_tab == 1),
{
    !s.loading && s.active_tab == 1
}

} // verus!
