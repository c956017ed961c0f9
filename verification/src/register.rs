//! Registration in two steps, the user and then the company, as a state
//! machine: `Register` takes the page's state and what happened and gives the
//! next state and what the caller is to do (send the request, keep the
//! session). The caller owns the inputs, the request and the storage.

use vstd::prelude::*;
use crate::text::{owned, contains_char};
use crate::answers::{too_short, is_too_short, failure_text, failure_message};

verus! {

/// The fields of both steps.
#[derive(Debug, Clone, Default)]
pub struct RegisterForm {
    pub email: String,
    pub password: String,
    pub confirm_password: String,
    pub first_name: String,
    pub last_name: String,
    pub company_name: String,
    pub company_eik: String,
    pub company_vat: String,
    pub company_address: String,
    pub company_city: String,
}

#[derive(Debug, Clone, Copy, PartialEq, Eq, Structural)]
pub enum RegisterField {
    Email,
    Password,
    ConfirmPassword,
    FirstName,
    LastName,
    CompanyName,
    CompanyEik,
    CompanyVat,
    CompanyAddress,
    CompanyCity,
}

/// The page: the step shown (1 for the user, 2 for the company), the fields,
/// the error shown (empty for none), whether the registration went through
/// and whether a request is under way.
#[derive(Debug, Clone)]
pub struct RegisterState {
    pub step: u8,
    pub form: RegisterForm,
    pub error: String,
    pub success: bool,
    pub loading: bool,
}

/// What the server answered to a registration.
#[derive(Debug, Clone)]
pub enum RegisterReply {
    /// An answer: its `success` flag (false where absent or not a boolean),
    /// its `token` and `company.id` where present, and its `message` where it
    /// is text.
    Answered { success: bool, token: Option<String>, company_id: Option<i64>, message: Option<String> },
    /// The request failed, with the error's text.
    Failed(String),
}

#[derive(Debug, Clone)]
pub enum RegisterEvent {
    Edit(RegisterField, String),
    GoBack,
    /// "Напред": check the user's fields and go on to the company.
    ContinueToCompany,
    /// Register the user with the company.
    SubmitCompany,
    Reply(RegisterReply),
}

/// A field of the registration request.
#[derive(Debug, Clone)]
pub struct RequestField {
    pub key: &'static str,
    pub value: String,
}

#[derive(Debug, Clone)]
pub enum RegisterAction {
    Nothing,
    /// Send the request, these fields as one JSON object, with POST to
    /// `registration_path()`.
    Send(Vec<RequestField>),
    /// Keep the session's token and select the new company, each where given.
    StoreSession { token: Option<String>, company_id: Option<i64> },
}

/// Where a registration is sent.
pub fn registration_path() -> (r: &'static str)
    ensures
        r@ == "/api/auth/register_with_company"@,
{
    "/api/auth/register_with_company"
}

/// The page as it opens: the first step, every field empty.
pub fn new_register_state() -> (s: RegisterState)
    ensures
        s.step == 1,
        s.error@.len() == 0,
        !s.success,
        !s.loading,
        s.form.email@.len() == 0 && s.form.password@.len() == 0 && s.form.confirm_password@.len() == 0,
        s.form.first_name@.len() == 0 && s.form.last_name@.len() == 0,
        s.form.company_name@.len() == 0 && s.form.company_eik@.len() == 0 && s.form.company_vat@.len() == 0,
        s.form.company_address@.len() == 0 && s.form.company_city@.len() == 0,
{
    RegisterState {
        step: 1,
        form: RegisterForm {
            email: String::new(),
            password: String::new(),
            confirm_password: String::new(),
            first_name: String::new(),
            last_name: String::new(),
            company_name: String::new(),
            company_eik: String::new(),
            company_vat: String::new(),
            company_address: String::new(),
            company_city: String::new(),
        },
        error: String::new(),
        success: false,
        loading: false,
    }
}

/// Why the user's step cannot be left, if it cannot: the names first, then
/// the email (it must hold an `@`), then the password (at least 8
/// characters), then its confirmation.
pub open spec fn user_error(f: RegisterForm) -> Option<Seq<char>> {
    if f.first_name@.len() == 0 || f.last_name@.len() == 0 {
        Some("Моля въведете име и фамилия"@)
    } else if f.email@.len() == 0 || !f.email@.contains('@') {
        Some("Моля въведете валиден email"@)
    } else if too_short(f.password@) {
        Some("Паролата трябва да е поне 8 символа"@)
    } else if f.password@ != f.confirm_password@ {
        Some("Паролите не съвпадат"@)
    } else {
        None
    }
}

/// Law: the user's step can be left only with both names, an email holding
/// '@', a password of at least 8 characters and a confirmation equal to it.
/// An empty first or last name always gives the names error, whatever else
/// the form holds; with both names, an email without '@' always gives the
/// email error.
pub proof fn lemma_user_step(f: RegisterForm)
    ensures
        f.first_name@.len() == 0 || f.last_name@.len() == 0
            ==> user_error(f) == Some("Моля въведете име и фамилия"@),
        f.first_name@.len() > 0 && f.last_name@.len() > 0 && !f.email@.contains('@')
            ==> user_error(f) == Some("Моля въведете валиден email"@),
        user_error(f) is None <==> (f.first_name@.len() > 0 && f.last_name@.len() > 0
            && f.email@.contains('@') && f.password@.len() >= 8 && f.password@ == f.confirm_password@),
{
    if f.email@.contains('@') {
        assert(f.email@.len() > 0);
    }
}

pub open spec fn static_view(o: Option<&'static str>) -> Option<Seq<char>> {
    match o {
        Some(s) => Some(s@),
        None => None,
    }
}

/// Validation of the user's step.
pub fn validate_user(f: &RegisterForm) -> (r: Option<&'static str>)
    ensures
        static_view(r) == user_error(*f),
{
    if f.first_name.as_str().is_empty() || f.last_name.as_str().is_empty() {
        return Some("Моля въведете име и фамилия");
    }
    if f.email.as_str().is_empty() || !contains_char(f.email.as_str(), '@') {
        return Some("Моля въведете валиден email");
    }
    if is_too_short(f.password.as_str()) {
        return Some("Паролата трябва да е поне 8 символа");
    }
    if f.password != f.confirm_password {
        return Some("Паролите не съвпадат");
    }
    None
}

/// The request's fields: the user's (the password also as its
/// confirmation) and the company's, under their keys.
pub open spec fn registration_body(f: RegisterForm) -> Seq<(Seq<char>, Seq<char>)> {
    seq![
        ("user:email"@, f.email@),
        ("user:password"@, f.password@),
        ("user:password_confirmation"@, f.password@),
        ("user:first_name"@, f.first_name@),
        ("user:last_name"@, f.last_name@),
        ("company:name"@, f.company_name@),
        ("company:eik"@, f.company_eik@),
        ("company:vat_number"@, f.company_vat@),
        ("company:address"@, f.company_address@),
        ("company:city"@, f.company_city@),
    ]
}

pub open spec fn fields_view(v: Seq<RequestField>) -> Seq<(Seq<char>, Seq<char>)> {
    v.map_values(|rf: RequestField| (rf.key@, rf.value@))
}

pub fn registration_fields(f: &RegisterForm) -> (r: Vec<RequestField>)
    ensures
        fields_view(r@) == registration_body(*f),
{
    let mut r: Vec<RequestField> = Vec::new();
    r.push(RequestField { key: "user:email", value: owned(f.email.as_str()) });
    r.push(RequestField { key: "user:password", value: owned(f.password.as_str()) });
    r.push(RequestField { key: "user:password_confirmation", value: owned(f.password.as_str()) });
    r.push(RequestField { key: "user:first_name", value: owned(f.first_name.as_str()) });
    r.push(RequestField { key: "user:last_name", value: owned(f.last_name.as_str()) });
    r.push(RequestField { key: "company:name", value: owned(f.company_name.as_str()) });
    r.push(RequestField { key: "company:eik", value: owned(f.company_eik.as_str()) });
    r.push(RequestField { key: "company:vat_number", value: owned(f.company_vat.as_str()) });
    r.push(RequestField { key: "company:address", value: owned(f.company_address.as_str()) });
    r.push(RequestField { key: "company:city", value: owned(f.company_city.as_str()) });
    assert(fields_view(r@) =~= registration_body(*f));
    r
}

/// The form with one field set.
pub open spec fn with_field(f: RegisterForm, field: RegisterField, v: String) -> RegisterForm {
    match field {
        RegisterField::Email => RegisterForm { email: v, ..f },
        RegisterField::Password => RegisterForm { password: v, ..f },
        RegisterField::ConfirmPassword => RegisterForm { confirm_password: v, ..f },
        RegisterField::FirstName => RegisterForm { first_name: v, ..f },
        RegisterField::LastName => RegisterForm { last_name: v, ..f },
        RegisterField::CompanyName => RegisterForm { company_name: v, ..f },
        RegisterField::CompanyEik => RegisterForm { company_eik: v, ..f },
        RegisterField::CompanyVat => RegisterForm { company_vat: v, ..f },
        RegisterField::CompanyAddress => RegisterForm { company_address: v, ..f },
        RegisterField::CompanyCity => RegisterForm { company_city: v, ..f },
    }
}

/// The error shown for an answer that did not register: its message, or a
/// general one where it has none.
pub open spec fn refusal_text(message: Option<String>) -> Seq<char> {
    match message {
        Some(m) => m@,
        None => "Грешка при регистрация"@,
    }
}

/// What the page does with an event (see the cases of `RegisterEvent`).
pub fn Register(s: RegisterState, event: RegisterEvent) -> (r: (RegisterState, RegisterAction))
    ensures
        1 <= s.step <= 2 ==> 1 <= r.0.step <= 2,
        match event {
            RegisterEvent::Edit(field, v) => {
                &&& r.0.form == with_field(s.form, field, v)
                &&& r.0.step == s.step && r.0.error == s.error
                &&& r.0.success == s.success && r.0.loading == s.loading
                &&& r.1 is Nothing
            },
            RegisterEvent::GoBack => {
                &&& r.0.step == (if s.step > 1 { (s.step - 1) as u8 } else { s.step })
                &&& r.0.form == s.form && r.0.error == s.error
                &&& r.0.success == s.success && r.0.loading == s.loading
                &&& r.1 is Nothing
            },
            RegisterEvent::ContinueToCompany => {
                &&& r.0.form == s.form
                &&& r.0.success == s.success && r.0.loading == s.loading
                &&& match user_error(s.form) {
                    Some(m) => r.0.error@ == m && r.0.step == s.step,
                    None => r.0.error@.len() == 0 && r.0.step == 2,
                }
                &&& r.1 is Nothing
            },
            RegisterEvent::SubmitCompany => {
                &&& r.0.form == s.form && r.0.step == s.step && r.0.success == s.success
                &&& if s.form.company_name@.len() == 0 {
                    &&& r.0.error@ == "Моля въведете име на фирмата"@
                    &&& r.0.loading == s.loading
                    &&& r.1 is Nothing
                } else {
                    &&& r.0.error@.len() == 0
                    &&& r.0.loading
                    &&& r.1 matches RegisterAction::Send(fields) && fields_view(fields@) == registration_body(s.form)
                }
            },
            RegisterEvent::Reply(reply) => {
                &&& r.0.form == s.form && r.0.step == s.step
                &&& !r.0.loading
                &&& match reply {
                    RegisterReply::Answered { success, token, company_id, message } => if success {
                        &&& r.0.success && r.0.error == s.error
                        &&& r.1 == RegisterAction::StoreSession { token, company_id }
                    } else {
                        &&& r.0.success == s.success
                        &&& r.0.error@ == refusal_text(message)
                        &&& r.1 is Nothing
                    },
                    RegisterReply::Failed(e) => {
                        &&& r.0.success == s.success
                        &&& r.0.error@ == failure_text(e@)
                        &&& r.1 is Nothing
                    },
                }
            },
        },
{
    let mut s = s;
    match event {
        RegisterEvent::Edit(field, v) => {
            match field {
                RegisterField::Email => { s.form.email = v; },
                RegisterField::Password => { s.form.password = v; },
                RegisterField::ConfirmPassword => { s.form.confirm_password = v; },
                RegisterField::FirstName => { s.form.first_name = v; },
                RegisterField::LastName => { s.form.last_name = v; },
                RegisterField::CompanyName => { s.form.company_name = v; },
                RegisterField::CompanyEik => { s.form.company_eik = v; },
                RegisterField::CompanyVat => { s.form.company_vat = v; },
                RegisterField::CompanyAddress => { s.form.company_address = v; },
                RegisterField::CompanyCity => { s.form.company_city = v; },
            }
            (s, RegisterAction::Nothing)
        },
        RegisterEvent::GoBack => {
            if s.step > 1 {
                s.step = s.step - 1;
            }
            (s, RegisterAction::Nothing)
        },
        RegisterEvent::ContinueToCompany => {
            match validate_user(&s.form) {
                Some(m) => {
                    s.error = owned(m);
                },
                None => {
                    s.error = String::new();
                    s.step = 2;
                },
            }
            (s, RegisterAction::Nothing)
        },
        RegisterEvent::SubmitCompany => {
            if s.form.company_name.as_str().is_empty() {
                s.error = owned("Моля въведете име на фирмата");
                (s, RegisterAction::Nothing)
            } else {
                s.error = String::new();
                s.loading = true;
                let fields = registration_fields(&s.form);
                (s, RegisterAction::Send(fields))
            }
        },
        RegisterEvent::Reply(reply) => {
            s.loading = false;
            match reply {
                RegisterReply::Answered { success, token, company_id, message } => {
                    if success {
                        s.success = true;
                        (s, RegisterAction::StoreSession { token, company_id })
                    } else {
                        s.error = match message {
                            Some(m) => m,
                            None => owned("Грешка при регистрация"),
                        };
                        (s, RegisterAction::Nothing)
                    }
                },
                RegisterReply::Failed(e) => {
                    s.error = failure_message(e.as_str());
                    (s, RegisterAction::Nothing)
                },
            }
        },
    }
}

/// The user's form shows on the first step, until the registration went
/// through.
pub fn shows_user_form(s: &RegisterState) -> (r: bool)
    ensures
        r == (s.step == 1 && !s.success),
{
    s.step == 1 && !s.success
}

/// The company's form shows on the second step, until the registration went
/// through.
pub fn shows_company_form(s: &RegisterState) -> (r: bool)
    ensures
        r == (s.step == 2 && !s.success),
{
    s.step == 2 && !s.success
}

/// The error box shows an error until the registration went through.
pub fn shows_register_error(s: &RegisterState) -> (r: bool)
    ensures
        r == (s.error@.len() > 0 && !s.success),
{
    !s.error.as_str().is_empty() && !s.success
}

/// The subtitle of a step.
pub fn step_subtitle(step: u8) -> (r: &'static str)
    ensures
        r@ == (if step == 1 { "Стъпка 1: Лични данни"@ } else if step == 2 { "Стъпка 2: Данни на фирмата"@ } else { ""@ }),
{
    if step == 1 {
        "Стъпка 1: Лични данни"
    } else if step == 2 {
        "Стъпка 2: Данни на фирмата"
    } else {
        ""
    }
}

} // verus!
