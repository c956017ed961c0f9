use ledger_ui::answers::{failure_message, is_too_short, message_or_default, star, Outcome};
use ledger_ui::login::{dashboard_path, new_login_state, resend_path, shows_error_box, signin_path, Login, LoginAction,
    LoginEvent, LoginField, ResendReply, SigninReply};
use ledger_ui::profile::{new_profile_state, password_path, profile_path, shows_details, shows_password, Profile,
    ProfileAction, ProfileData, ProfileEvent, ProfileField};
use ledger_ui::register::{shows_company_form, shows_register_error, shows_user_form};
use ledger_ui::register::{new_register_state, registration_fields, registration_path, step_subtitle, validate_user,
    Register, RegisterAction, RegisterEvent, RegisterField, RegisterReply, RegisterState};
use ledger_ui::reset_password::{reset_path, shows_invalid_link, shows_reset_form, start_reset, token_check_url,
    ResetAction, ResetEvent, ResetField, ResetPassword, TokenCheck};

fn edit(s: RegisterState, field: RegisterField, v: &str) -> RegisterState {
    Register(s, RegisterEvent::Edit(field, v.to_string())).0
}

fn filled_user() -> RegisterState {
    let s = new_register_state();
    let s = edit(s, RegisterField::FirstName, "Иван");
    let s = edit(s, RegisterField::LastName, "Петров");
    let s = edit(s, RegisterField::Email, "ivan@example.com");
    let s = edit(s, RegisterField::Password, "secret123");
    edit(s, RegisterField::ConfirmPassword, "secret123")
}

#[test]
fn password_length_counts_characters() {
    assert!(is_too_short("1234567"));
    assert!(!is_too_short("12345678"));
    assert!(is_too_short("пароли"));
    assert!(is_too_short("абвг"));
    assert!(!is_too_short("паролата"));
}

#[test]
fn a_short_cyrillic_password_is_refused_everywhere() {
    let mut f = filled_user().form;
    f.password = "тайн".to_string();
    f.confirm_password = "тайн".to_string();
    assert_eq!(validate_user(&f), Some("Паролата трябва да е поне 8 символа"));
    f.password = "тайнапар".to_string();
    f.confirm_password = "тайнапар".to_string();
    assert_eq!(validate_user(&f), None);
    let (s, _) = Profile(new_profile_state(), ProfileEvent::Edit(ProfileField::CurrentPassword, "old".to_string()));
    let (s, _) = Profile(s, ProfileEvent::Edit(ProfileField::NewPassword, "тайн".to_string()));
    let (s, _) = Profile(s, ProfileEvent::Edit(ProfileField::ConfirmPassword, "тайн".to_string()));
    let (s, a) = Profile(s, ProfileEvent::ChangePassword);
    assert_eq!(s.password_error, "Новата парола трябва да е поне 8 символа");
    assert!(matches!(a, ProfileAction::Nothing));
    let (r, _) = start_reset("t".to_string());
    let (r, _) = ResetPassword(r, ResetEvent::Edit(ResetField::Password, "тайн".to_string()));
    let (r, _) = ResetPassword(r, ResetEvent::Edit(ResetField::ConfirmPassword, "тайн".to_string()));
    let (r, a) = ResetPassword(r, ResetEvent::Submit);
    assert_eq!(r.error, "Паролата трябва да е поне 8 символа");
    assert!(matches!(a, ResetAction::Nothing));
}

#[test]
fn answer_helpers() {
    assert_eq!(message_or_default(None, "x"), "x");
    assert_eq!(message_or_default(Some("m".to_string()), "x"), "m");
    assert_eq!(failure_message("boom"), "Грешка: boom");
}

#[test]
fn starfield_stars() {
    let s0 = star(0);
    assert_eq!((s0.size, s0.color, s0.left_permille, s0.top_permille), (3, "#aaccff", 0, 0));
    let s7 = star(7);
    assert_eq!(s7.size, 1);
    assert_eq!(s7.color, "#ffeedd");
    assert_eq!(s7.left_permille, (7u32 * 7919) % 1000);
    assert_eq!(s7.top_permille, (7u32 * 6271) % 1000);
    assert_eq!((s7.delay_step, s7.duration_step), (7, 2));
    assert_eq!(star(1).size, 2);
    let big = star(u32::MAX);
    assert_eq!(big.left_permille, u32::MAX.wrapping_mul(7919) % 1000);
}

#[test]
fn register_user_step_checks_in_order() {
    let s = new_register_state();
    assert_eq!(validate_user(&s.form), Some("Моля въведете име и фамилия"));
    let mut f = filled_user().form;
    assert_eq!(validate_user(&f), None);
    f.email = "ivan.example.com".to_string();
    assert_eq!(validate_user(&f), Some("Моля въведете валиден email"));
    f.email = "ivan@example.com".to_string();
    f.password = "short".to_string();
    assert_eq!(validate_user(&f), Some("Паролата трябва да е поне 8 символа"));
    f.password = "secret124".to_string();
    assert_eq!(validate_user(&f), Some("Паролите не съвпадат"));
}

#[test]
fn register_moves_between_steps() {
    let (s, a) = Register(filled_user(), RegisterEvent::ContinueToCompany);
    assert!(matches!(a, RegisterAction::Nothing));
    assert_eq!(s.step, 2);
    assert_eq!(s.error, "");
    let (back, _) = Register(s, RegisterEvent::GoBack);
    assert_eq!(back.step, 1);
    assert_eq!(back.form.email, "ivan@example.com");
    let (still, _) = Register(back, RegisterEvent::GoBack);
    assert_eq!(still.step, 1);
    let (stay, _) = Register(new_register_state(), RegisterEvent::ContinueToCompany);
    assert_eq!(stay.step, 1);
    assert_eq!(stay.error, "Моля въведете име и фамилия");
}

#[test]
fn register_sends_the_company_only_with_a_name() {
    let (s, _) = Register(filled_user(), RegisterEvent::ContinueToCompany);
    let (s, a) = Register(s, RegisterEvent::SubmitCompany);
    assert!(matches!(a, RegisterAction::Nothing));
    assert_eq!(s.error, "Моля въведете име на фирмата");
    assert!(!s.loading);
    let s = edit(s, RegisterField::CompanyName, "Пример ООД");
    let s = edit(s, RegisterField::CompanyCity, "София");
    let (s, a) = Register(s, RegisterEvent::SubmitCompany);
    assert!(s.loading);
    assert_eq!(s.error, "");
    match a {
        RegisterAction::Send(fields) => {
            let pairs: Vec<(&str, String)> = fields.into_iter().map(|f| (f.key, f.value)).collect();
            assert_eq!(pairs.len(), 10);
            assert_eq!(pairs[0], ("user:email", "ivan@example.com".to_string()));
            assert_eq!(pairs[2], ("user:password_confirmation", "secret123".to_string()));
            assert_eq!(pairs[5], ("company:name", "Пример ООД".to_string()));
            assert_eq!(pairs[9], ("company:city", "София".to_string()));
        }
        _ => panic!("expected a request"),
    }
    assert_eq!(registration_path(), "/api/auth/register_with_company");
    assert_eq!(registration_fields(&s.form)[7].key, "company:vat_number");
}

#[test]
fn register_replies() {
    let s = new_register_state();
    let (ok, a) = Register(s.clone(), RegisterEvent::Reply(RegisterReply::Answered {
        success: true, token: Some("t".to_string()), company_id: Some(5), message: None,
    }));
    assert!(ok.success && !ok.loading);
    match a {
        RegisterAction::StoreSession { token, company_id } => {
            assert_eq!(token, Some("t".to_string()));
            assert_eq!(company_id, Some(5));
        }
        _ => panic!("expected the session"),
    }
    let (no, _) = Register(s.clone(), RegisterEvent::Reply(RegisterReply::Answered {
        success: false, token: None, company_id: None, message: None,
    }));
    assert_eq!(no.error, "Грешка при регистрация");
    assert!(!no.success);
    let (said, _) = Register(s.clone(), RegisterEvent::Reply(RegisterReply::Answered {
        success: false, token: None, company_id: None, message: Some("Имейлът е зает".to_string()),
    }));
    assert_eq!(said.error, "Имейлът е зает");
    let (failed, _) = Register(s, RegisterEvent::Reply(RegisterReply::Failed("network".to_string())));
    assert_eq!(failed.error, "Грешка: network");
    assert_eq!(step_subtitle(1), "Стъпка 1: Лични данни");
    assert_eq!(step_subtitle(2), "Стъпка 2: Данни на фирмата");
    assert_eq!(step_subtitle(3), "");
}

#[test]
fn login_flow() {
    let s = new_login_state();
    let (s, a) = Login(s, LoginEvent::Submit);
    assert!(matches!(a, LoginAction::Nothing));
    assert_eq!(s.error, "Моля въведете email и парола");
    let (s, _) = Login(s, LoginEvent::Edit(LoginField::Email, "a@b.bg".to_string()));
    let (s, _) = Login(s, LoginEvent::Edit(LoginField::Password, "pw".to_string()));
    let (s, a) = Login(s, LoginEvent::Submit);
    assert!(s.loading);
    assert_eq!(s.error, "");
    match a {
        LoginAction::SendSignin { email, password } => assert_eq!((email.as_str(), password.as_str()), ("a@b.bg", "pw")),
        _ => panic!("expected a sign-in"),
    }
    let (entered, a) = Login(s.clone(), LoginEvent::Signin(SigninReply::Answered {
        requires_verification: false, message: None, token: Some("tok".to_string()),
    }));
    assert!(!entered.loading);
    assert!(matches!(a, LoginAction::Enter { ref token } if token == "tok"));
    let (wrong, _) = Login(s.clone(), LoginEvent::Signin(SigninReply::Answered {
        requires_verification: false, message: None, token: None,
    }));
    assert_eq!(wrong.error, "Невалиден email или парола");
    assert!(shows_error_box(&wrong));
    let (verify, _) = Login(s.clone(), LoginEvent::Signin(SigninReply::Answered {
        requires_verification: true, message: None, token: Some("ignored".to_string()),
    }));
    assert!(verify.needs_verification);
    assert_eq!(verify.error, "Моля, потвърдете вашия email.");
    assert!(!shows_error_box(&verify));
    let (failed, _) = Login(s, LoginEvent::Signin(SigninReply::Failed("down".to_string())));
    assert_eq!(failed.error, "Грешка: down");
    assert_eq!((signin_path(), resend_path(), dashboard_path()), ("/api/auth/signin", "/api/auth/resend_verification", "/dashboard"));
}

#[test]
fn login_resend_of_the_confirmation() {
    let (s, a) = Login(new_login_state(), LoginEvent::Resend);
    assert!(matches!(a, LoginAction::Nothing));
    assert!(!s.resend_loading);
    let (s, _) = Login(s, LoginEvent::Edit(LoginField::Email, "a@b.bg".to_string()));
    let (s, a) = Login(s, LoginEvent::Resend);
    assert!(s.resend_loading);
    assert!(matches!(a, LoginAction::SendResend { ref email } if email == "a@b.bg"));
    let (sent, _) = Login(s.clone(), LoginEvent::Resent(ResendReply::Answered { message: None }));
    assert_eq!(sent.resend_message, "Email изпратен.");
    assert!(!sent.resend_loading);
    let (failed, _) = Login(s, LoginEvent::Resent(ResendReply::Failed("x".to_string())));
    assert_eq!(failed.resend_message, "Грешка: x");
}

#[test]
fn profile_load_and_save() {
    let s = new_profile_state();
    assert!(s.loading && !shows_details(&s));
    let (s, _) = Profile(s, ProfileEvent::Loaded(Some(ProfileData {
        first_name: Some("Иван".to_string()), last_name: None, email: Some("i@x.bg".to_string()), created_at: None,
    })));
    assert!(!s.loading && shows_details(&s) && !shows_password(&s));
    assert_eq!((s.first_name.as_str(), s.last_name.as_str(), s.email.as_str()), ("Иван", "", "i@x.bg"));
    let (s, a) = Profile(s, ProfileEvent::SaveProfile);
    assert!(s.saving);
    assert!(matches!(a, ProfileAction::SendProfile { ref first_name, .. } if first_name == "Иван"));
    let (ok, a) = Profile(s.clone(), ProfileEvent::ProfileSaved(Outcome::Answered { success: true, message: None }));
    assert_eq!(ok.success_msg, "Профилът е обновен успешно");
    assert!(!ok.saving);
    assert!(matches!(a, ProfileAction::HideSuccessLater));
    let (hidden, _) = Profile(ok, ProfileEvent::SuccessShown);
    assert_eq!(hidden.success_msg, "");
    let (no, _) = Profile(s.clone(), ProfileEvent::ProfileSaved(Outcome::Answered { success: false, message: None }));
    assert_eq!(no.error_msg, "Грешка при запис");
    let (failed, _) = Profile(s, ProfileEvent::ProfileSaved(Outcome::Failed("x".to_string())));
    assert_eq!(failed.error_msg, "Грешка: x");
    let (dismissed, _) = Profile(failed, ProfileEvent::DismissError);
    assert_eq!(dismissed.error_msg, "");
}

#[test]
fn profile_password_change() {
    let (s, _) = Profile(new_profile_state(), ProfileEvent::Loaded(None));
    let (s, _) = Profile(s, ProfileEvent::SelectTab(1));
    assert!(shows_password(&s));
    let (s, a) = Profile(s, ProfileEvent::ChangePassword);
    assert_eq!(s.password_error, "Въведете текущата парола");
    assert!(!s.password_saving);
    assert!(matches!(a, ProfileAction::Nothing));
    let (s, _) = Profile(s, ProfileEvent::Edit(ProfileField::CurrentPassword, "old".to_string()));
    let (s, _) = Profile(s, ProfileEvent::Edit(ProfileField::NewPassword, "short".to_string()));
    let (s, _) = Profile(s, ProfileEvent::ChangePassword);
    assert_eq!(s.password_error, "Новата парола трябва да е поне 8 символа");
    let (s, _) = Profile(s, ProfileEvent::Edit(ProfileField::NewPassword, "long enough".to_string()));
    let (s, _) = Profile(s, ProfileEvent::ChangePassword);
    assert_eq!(s.password_error, "Паролите не съвпадат");
    let (s, _) = Profile(s, ProfileEvent::Edit(ProfileField::ConfirmPassword, "long enough".to_string()));
    let (s, a) = Profile(s, ProfileEvent::ChangePassword);
    assert!(s.password_saving);
    assert_eq!(s.password_error, "");
    assert!(matches!(a, ProfileAction::SendPassword { ref new_password, .. } if new_password == "long enough"));
    let (done, a) = Profile(s.clone(), ProfileEvent::PasswordChanged(Outcome::Answered { success: true, message: None }));
    assert_eq!(done.password_success, "Паролата е променена успешно");
    assert!(done.current_password.is_empty() && done.new_password.is_empty() && done.confirm_password.is_empty());
    assert!(matches!(a, ProfileAction::HidePasswordSuccessLater));
    let (refused, _) = Profile(s, ProfileEvent::PasswordChanged(Outcome::Answered { success: false, message: Some("Грешна парола".to_string()) }));
    assert_eq!(refused.password_error, "Грешна парола");
    assert_eq!(refused.current_password, "old");
    assert_eq!((profile_path(), password_path()), ("/api/auth/profile", "/api/auth/password"));
}

#[test]
fn reset_without_a_token() {
    let (s, a) = start_reset(String::new());
    assert!(matches!(a, ResetAction::Nothing));
    assert!(!s.validating);
    assert_eq!(s.error, "Липсващ токен за възстановяване");
    assert!(shows_invalid_link(&s));
    assert!(!shows_reset_form(&s));
}

#[test]
fn reset_with_a_token() {
    let (s, a) = start_reset("abc".to_string());
    assert!(s.validating);
    assert!(matches!(a, ResetAction::CheckToken(ref url) if url == "/api/auth/reset_password/validate?token=abc"));
    assert_eq!(token_check_url("x y"), "/api/auth/reset_password/validate?token=x y");
    let (bad, _) = ResetPassword(s.clone(), ResetEvent::Checked(TokenCheck::Answered { valid: false, email: None, message: None }));
    assert_eq!(bad.error, "Невалиден или изтекъл токен");
    assert!(shows_invalid_link(&bad));
    let (err, _) = ResetPassword(s.clone(), ResetEvent::Checked(TokenCheck::Failed));
    assert_eq!(err.error, "Грешка при проверка на токена");
    let (good, _) = ResetPassword(s, ResetEvent::Checked(TokenCheck::Answered { valid: true, email: Some("a@b.bg".to_string()), message: None }));
    assert!(good.token_valid && !good.validating);
    assert_eq!(good.user_email, "a@b.bg");
    assert!(shows_reset_form(&good));
    let (short, a) = ResetPassword(good.clone(), ResetEvent::Submit);
    assert_eq!(short.error, "Паролата трябва да е поне 8 символа");
    assert!(matches!(a, ResetAction::Nothing));
    let (s, _) = ResetPassword(good, ResetEvent::Edit(ResetField::Password, "newpassword".to_string()));
    let (mismatch, _) = ResetPassword(s.clone(), ResetEvent::Submit);
    assert_eq!(mismatch.error, "Паролите не съвпадат");
    let (s, _) = ResetPassword(s, ResetEvent::Edit(ResetField::ConfirmPassword, "newpassword".to_string()));
    let (s, a) = ResetPassword(s, ResetEvent::Submit);
    assert!(s.loading);
    assert!(matches!(a, ResetAction::SendReset { ref token, ref password } if token == "abc" && password == "newpassword"));
    let (done, _) = ResetPassword(s.clone(), ResetEvent::Reset(Outcome::Answered { success: true, message: None }));
    assert!(done.success && !done.loading && !shows_reset_form(&done));
    let (no, _) = ResetPassword(s.clone(), ResetEvent::Reset(Outcome::Answered { success: false, message: None }));
    assert_eq!(no.error, "Грешка при смяна на парола");
    let (failed, _) = ResetPassword(s, ResetEvent::Reset(Outcome::Failed("x".to_string())));
    assert_eq!(failed.error, "Грешка: x");
    assert_eq!(reset_path(), "/api/auth/reset_password");
}

#[test]
fn register_shows_one_form_per_step() {
    let s = filled_user();
    assert!(shows_user_form(&s));
    assert!(!shows_company_form(&s));
    assert!(!shows_register_error(&s));
    let (s, _) = Register(s, RegisterEvent::ContinueToCompany);
    assert!(!shows_user_form(&s));
    assert!(shows_company_form(&s));
    let (s, _) = Register(s, RegisterEvent::SubmitCompany);
    assert!(shows_register_error(&s));
    let (back, _) = Register(s.clone(), RegisterEvent::GoBack);
    assert!(shows_user_form(&back));
    let mut done = s;
    done.success = true;
    assert!(!shows_user_form(&done));
    assert!(!shows_company_form(&done));
    assert!(!shows_register_error(&done));
}
