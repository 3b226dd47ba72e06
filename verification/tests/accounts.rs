use revolt_core::accounts::{
    email_token, password_check_outcome, recovery_alphabet, totp_check_outcome, Account, AccountFollowUp,
    DeletionInfo, EmailVerification, MFAMethod, MFAResponse, MFATicket, MultiFactorAuthentication, Totp,
};
use revolt_core::errors::Error;
use revolt_core::reference_db::ReferenceDb;
use revolt_core::timestamp::{Timestamp, MILLIS_PER_WEEK};

/// RFC 6238's SHA-1 test secret ("12345678901234567890") in base32.
const RFC_SECRET: &str = "GEZDGNBVGY3TQOJQGEZDGNBVGY3TQOJQ";

fn account_with_password(plain: &str) -> Account {
    let hash = argon2::hash_encoded(plain.as_bytes(), b"somesaltsomesalt", &argon2::Config::default()).unwrap();
    Account::new_verified("u1".to_string(), "a@x.com".to_string(), "a@x.com".to_string(), hash)
}

fn mfa(totp: Totp, codes: &[&str]) -> MultiFactorAuthentication {
    MultiFactorAuthentication { totp_token: totp, recovery_codes: codes.iter().map(|c| c.to_string()).collect() }
}

#[test]
fn totp_code_matches_rfc_vector() {
    let totp = Totp::Enabled { secret: RFC_SECRET.to_string() };
    // RFC 6238 gives 94287082 at T = 59 s; six digits keep the last six.
    assert_eq!(totp.generate_code_at(59).ok(), Some("287082".to_string()));
    assert_eq!(totp.generate_code_at(1111111109).ok(), Some("081804".to_string()));
}

#[test]
fn totp_code_of_disabled_fails() {
    assert!(matches!(Totp::Disabled.generate_code_at(59), Err(Error::OperationFailed)));
    assert!(matches!(Totp::Pending { secret: "not base32 !".to_string() }.checked_generate_code_at(59), None));
    assert!(Totp::Disabled.is_disabled());
    assert!(Totp::Disabled.is_empty());
    // Only an enabled configuration counts as not disabled.
    assert!(Totp::Pending { secret: RFC_SECRET.to_string() }.is_disabled());
    assert!(!Totp::Pending { secret: RFC_SECRET.to_string() }.is_empty());
    assert!(!Totp::Enabled { secret: RFC_SECRET.to_string() }.is_disabled());
}

#[test]
fn methods_follow_configuration() {
    assert!(mfa(Totp::Disabled, &[]).get_methods() == vec![MFAMethod::Password]);
    assert!(!mfa(Totp::Disabled, &[]).is_active());
    let enabled = mfa(Totp::Enabled { secret: RFC_SECRET.to_string() }, &["aaaaa-bbbbb"]);
    assert!(enabled.is_active());
    assert!(enabled.has_recovery());
    assert!(enabled.get_methods() == vec![MFAMethod::Totp, MFAMethod::Recovery]);
    let no_codes = mfa(Totp::Enabled { secret: RFC_SECRET.to_string() }, &[]);
    assert!(no_codes.get_methods() == vec![MFAMethod::Totp]);
}

#[test]
fn recovery_codes_have_the_recovery_shape() {
    let mut m = mfa(Totp::Disabled, &[]);
    m.generate_recovery_codes();
    assert_eq!(m.recovery_codes.len(), 10);
    let alphabet = recovery_alphabet();
    for code in &m.recovery_codes {
        let cs: Vec<char> = code.chars().collect();
        assert_eq!(cs.len(), 11);
        assert_eq!(cs[5], '-');
        assert!(cs.iter().enumerate().all(|(i, c)| i == 5 || alphabet.contains(c)));
    }
}

#[test]
fn new_totp_secret_then_enable() {
    let mut m = mfa(Totp::Disabled, &[]);
    let secret = m.generate_new_totp_secret().ok().unwrap();
    assert_eq!(secret.len(), 16);
    assert_eq!(base32::decode(base32::Alphabet::RFC4648 { padding: false }, &secret).unwrap().len(), 10);
    let code = m.totp_token.generate_code_at(1000).ok().unwrap();
    assert!(matches!(m.enable_totp_at(MFAResponse::Totp { totp_code: "000000x".to_string() }, 1000), Err(Error::InvalidToken)));
    assert!(m.enable_totp_at(MFAResponse::Totp { totp_code: code }, 1000).is_ok());
    assert!(matches!(m.totp_token, Totp::Enabled { .. }));
    assert!(matches!(m.generate_new_totp_secret(), Err(Error::OperationFailed)));
}

#[test]
fn enable_totp_needs_a_totp_response() {
    let mut m = mfa(Totp::Pending { secret: RFC_SECRET.to_string() }, &[]);
    assert!(matches!(m.enable_totp_at(MFAResponse::Password { password: "x".to_string() }, 59), Err(Error::InvalidToken)));
    let mut off = mfa(Totp::Disabled, &[]);
    assert!(matches!(off.enable_totp_at(MFAResponse::Totp { totp_code: "287082".to_string() }, 59), Err(Error::OperationFailed)));
}

#[test]
fn enabling_with_enabled_code_disables() {
    let mut m = mfa(Totp::Enabled { secret: RFC_SECRET.to_string() }, &[]);
    assert!(matches!(m.enable_totp_at(MFAResponse::Totp { totp_code: "287082".to_string() }, 59), Err(Error::OperationFailed)));
    assert!(matches!(m.totp_token, Totp::Disabled));
}

#[test]
fn password_checks() {
    let acc = account_with_password("hunter2");
    assert!(acc.verify_password("hunter2").is_ok());
    assert!(matches!(acc.verify_password("wrong"), Err(Error::InvalidCredentials)));
    let mut broken = account_with_password("x");
    broken.password = "not a hash".to_string();
    assert!(matches!(broken.verify_password("x"), Err(Error::InvalidCredentials)));
    assert!(password_check_outcome(Some(true)).is_ok());
    assert!(matches!(password_check_outcome(Some(false)), Err(Error::InvalidCredentials)));
    assert!(matches!(password_check_outcome(None), Err(Error::InvalidCredentials)));
}

#[test]
fn mfa_response_password_and_disallowed() {
    let mut db = ReferenceDb::new();
    let mut acc = account_with_password("pw");
    assert!(acc.consume_mfa_response_at(&mut db, MFAResponse::Password { password: "pw".to_string() }, None, 0).is_ok());
    assert!(matches!(
        acc.consume_mfa_response_at(&mut db, MFAResponse::Totp { totp_code: "287082".to_string() }, None, 59),
        Err(Error::DisallowedMFAMethod)
    ));
    assert!(matches!(
        acc.consume_mfa_response_at(&mut db, MFAResponse::Recovery { recovery_code: "x".to_string() }, None, 0),
        Err(Error::DisallowedMFAMethod)
    ));
}

#[test]
fn mfa_response_totp_and_ticket() {
    let mut db = ReferenceDb::new();
    let mut acc = account_with_password("pw");
    acc.mfa = mfa(Totp::Enabled { secret: RFC_SECRET.to_string() }, &[]);
    assert!(acc.consume_mfa_response_at(&mut db, MFAResponse::Totp { totp_code: "287082".to_string() }, None, 59).is_ok());
    assert!(matches!(
        acc.consume_mfa_response_at(&mut db, MFAResponse::Totp { totp_code: "111111".to_string() }, None, 59),
        Err(Error::InvalidToken)
    ));
    let ticket = MFATicket { last_totp_code: Some("111111".to_string()) };
    assert!(acc.consume_mfa_response_at(&mut db, MFAResponse::Totp { totp_code: "111111".to_string() }, Some(ticket), 59).is_ok());
    assert!(matches!(
        acc.consume_mfa_response_at(&mut db, MFAResponse::Password { password: "pw".to_string() }, None, 59),
        Err(Error::DisallowedMFAMethod)
    ));
}

#[test]
fn recovery_code_is_spent() {
    let mut db = ReferenceDb::new();
    let mut acc = account_with_password("pw");
    acc.mfa = mfa(Totp::Enabled { secret: RFC_SECRET.to_string() }, &["aaaaa-bbbbb", "ccccc-ddddd"]);
    assert!(acc.consume_mfa_response_at(&mut db, MFAResponse::Recovery { recovery_code: "ccccc-ddddd".to_string() }, None, 0).is_ok());
    assert_eq!(acc.mfa.recovery_codes, vec!["aaaaa-bbbbb".to_string()]);
    // The account with the spent code is saved.
    let saved = db.fetch_account("u1").ok().unwrap();
    assert_eq!(saved.mfa.recovery_codes, vec!["aaaaa-bbbbb".to_string()]);
    assert!(matches!(
        acc.consume_mfa_response_at(&mut db, MFAResponse::Recovery { recovery_code: "ccccc-ddddd".to_string() }, None, 0),
        Err(Error::InvalidToken)
    ));
}

#[test]
fn totp_check_outcomes() {
    let given = "123456".to_string();
    assert!(totp_check_outcome(&given, &Some("123456".to_string()), &"000000".to_string()).is_ok());
    assert!(totp_check_outcome(&given, &None, &"123456".to_string()).is_ok());
    assert!(matches!(totp_check_outcome(&given, &Some("1".to_string()), &"2".to_string()), Err(Error::InvalidToken)));
}

#[test]
fn email_tokens_are_url_safe() {
    let t = email_token();
    assert_eq!(t.len(), 32);
    assert!(t.chars().all(|c| c.is_ascii_alphanumeric() || c == '_' || c == '-'));
}

#[test]
fn account_lifecycle() {
    let mut db = ReferenceDb::new();
    let mut acc = account_with_password("pw");
    assert!(matches!(acc.existing_account_follow_up(), AccountFollowUp::SendPasswordReset));
    acc.set_email_verification(&mut db, Some(("tok".to_string(), Timestamp { millis: 5 }))).ok();
    assert!(matches!(acc.existing_account_follow_up(), AccountFollowUp::ResendVerification));
    assert!(matches!(
        acc.move_email(&mut db, "b@x.com".to_string(), "b@x.com".to_string(), None),
        Err(Error::UnverifiedAccount)
    ));
    assert!(acc.set_email_verification(&mut db, None).is_ok());
    assert!(matches!(acc.verification, EmailVerification::Verified));
    assert!(acc.move_email(&mut db, "b@x.com".to_string(), "b@x.com".to_string(), None).is_ok());
    assert_eq!(acc.email, "b@x.com");
    assert!(matches!(acc.set_password_reset(&mut db, None), Err(Error::OperationFailed)));
    assert!(acc.set_password_reset(&mut db, Some(("r".to_string(), Timestamp { millis: 1 }))).is_ok());

    assert!(acc.schedule_deletion(&mut db, Timestamp { millis: 1000 }).is_ok());
    assert!(acc.disabled);
    match acc.deletion {
        Some(DeletionInfo::Scheduled { after }) => assert_eq!(after.millis, 1000 + MILLIS_PER_WEEK),
        _ => panic!("expected scheduled deletion"),
    }
    assert!(acc.mark_deleted(&mut db).is_ok());
    assert_eq!(acc.email, "Deleted User u1");
    assert_eq!(acc.email_normalised, "Deleted User u1");
    assert!(matches!(acc.deletion, Some(DeletionInfo::Deleted)));
    // Each step saved the account.
    let saved = db.fetch_account("u1").ok().unwrap();
    assert_eq!(saved.email, "Deleted User u1");
    assert!(saved.disabled);
    assert_eq!(db.accounts.len(), 1);
}

#[test]
fn account_deletion_waits_for_confirmation_with_mail() {
    let mut db = ReferenceDb::new();
    let mut acc = account_with_password("pw");
    acc.begin_account_deletion(&mut db, Some(("d".to_string(), Timestamp { millis: 9 })), Timestamp { millis: 0 }).ok();
    assert!(matches!(acc.deletion, Some(DeletionInfo::WaitingForVerification { .. })));
    assert!(!acc.disabled);
    let mut other = account_with_password("pw");
    other.begin_account_deletion(&mut db, None, Timestamp { millis: 0 }).ok();
    assert!(matches!(other.deletion, Some(DeletionInfo::Scheduled { .. })));
    assert!(other.disabled);
    assert!(db.fetch_account("u1").ok().unwrap().disabled);
}

#[test]
fn password_and_recovery_need_no_valid_secret() {
    let mut db = ReferenceDb::new();
    // A pending secret that is not base32 does not matter to a password response.
    let mut acc = account_with_password("pw");
    acc.mfa = mfa(Totp::Pending { secret: "not base32!".to_string() }, &[]);
    assert!(acc.consume_mfa_response_at(&mut db, MFAResponse::Password { password: "pw".to_string() }, None, 0).is_ok());
    assert_eq!(db.accounts.len(), 0);
    // Nor to a recovery code while TOTP is enabled.
    acc.mfa = mfa(Totp::Enabled { secret: "not base32!".to_string() }, &["aaaaa-bbbbb"]);
    assert!(acc.consume_mfa_response_at(&mut db, MFAResponse::Recovery { recovery_code: "aaaaa-bbbbb".to_string() }, None, 0).is_ok());
    assert!(acc.mfa.recovery_codes.is_empty());
    assert_eq!(db.accounts.len(), 1);
    // Enabling answers a non-TOTP response whatever the secret.
    let mut m = mfa(Totp::Pending { secret: "not base32!".to_string() }, &[]);
    assert!(matches!(m.enable_totp_at(MFAResponse::Password { password: "x".to_string() }, 0), Err(Error::InvalidToken)));
}
