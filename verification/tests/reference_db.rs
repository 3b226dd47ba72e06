use revolt_core::accounts::{Account, DeletionInfo};
use revolt_core::admin::{AdminAuditItem, AdminCase, AdminCaseComment, AdminComment, PartialAdminCase, PartialAdminCaseComment, PartialAdminComment};
use revolt_core::errors::Error;
use revolt_core::reference_db::{AccountInvite, ReferenceDb, SafetyReport};
use revolt_core::timestamp::Timestamp;

fn account(id: &str, email: &str) -> Account {
    Account::new_verified(id.to_string(), email.to_string(), email.to_lowercase(), "hash".to_string())
}

fn audit(id: &str) -> AdminAuditItem {
    AdminAuditItem::with_id(id.to_string(), "mod", "act", None, None, None)
}

fn case(id: &str, title: &str, status: &str, owner: &str, tags: &[&str]) -> AdminCase {
    let mut c = AdminCase::with_id(id.to_string(), owner, title);
    c.status = status.to_string();
    c.tags = tags.iter().map(|t| t.to_string()).collect();
    c
}

fn ids_of_cases(v: &[AdminCase]) -> Vec<String> {
    v.iter().map(|c| c.id.clone()).collect()
}

fn ids_of_audits(v: &[AdminAuditItem]) -> Vec<String> {
    v.iter().map(|c| c.id.clone()).collect()
}

#[test]
fn saved_account_is_fetched_back() {
    let mut db = ReferenceDb::new();
    let a = account("u1", "A@x.com");
    assert!(db.save_account(&a).is_ok());
    let got = db.fetch_account("u1").ok().unwrap();
    assert_eq!(got.id, "u1");
    assert_eq!(got.email, "A@x.com");
}

#[test]
fn fetch_unknown_account_fails() {
    let db = ReferenceDb::new();
    assert!(matches!(db.fetch_account("nope"), Err(Error::UnknownUser)));
}

#[test]
fn saving_again_replaces_the_account() {
    let mut db = ReferenceDb::new();
    db.save_account(&account("u1", "a@x.com")).ok();
    let mut b = account("u1", "b@x.com");
    b.disabled = true;
    db.save_account(&b).ok();
    let got = db.fetch_account("u1").ok().unwrap();
    assert_eq!(got.email, "b@x.com");
    assert!(got.disabled);
    assert_eq!(db.accounts.len(), 1);
}

#[test]
fn fetch_by_normalised_email() {
    let mut db = ReferenceDb::new();
    db.save_account(&account("u1", "A@x.com")).ok();
    db.save_account(&account("u2", "b@x.com")).ok();
    let got = db.fetch_account_by_normalised_email("b@x.com").ok().unwrap();
    assert_eq!(got.map(|a| a.id), Some("u2".to_string()));
    assert!(db.fetch_account_by_normalised_email("c@x.com").ok().unwrap().is_none());
}

#[test]
fn fetch_by_tokens() {
    let mut db = ReferenceDb::new();
    let mut a = account("u1", "a@x.com");
    a.set_email_verification(&mut db, Some(("vtok".to_string(), Timestamp { millis: 10 }))).ok();
    let mut b = account("u2", "b@x.com");
    b.set_password_reset(&mut db, Some(("rtok".to_string(), Timestamp { millis: 10 }))).ok();
    let mut c = account("u3", "c@x.com");
    c.begin_account_deletion(&mut db, Some(("dtok".to_string(), Timestamp { millis: 10 })), Timestamp { millis: 0 }).ok();

    let now = Timestamp { millis: 5 };
    assert_eq!(db.fetch_account_with_email_verification_at("vtok", now).ok().unwrap().id, "u1");
    assert!(matches!(db.fetch_account_with_email_verification_at("rtok", now), Err(Error::InvalidToken)));
    assert_eq!(db.fetch_account_with_password_reset_at("rtok", now).ok().unwrap().id, "u2");
    assert!(matches!(db.fetch_account_with_password_reset_at("vtok", now), Err(Error::InvalidToken)));
    assert_eq!(db.fetch_account_with_deletion_token_at("dtok", now).ok().unwrap().id, "u3");
    assert!(matches!(db.fetch_account_with_deletion_token_at("x", now), Err(Error::InvalidToken)));

    // A token is still active at its expiry, and no longer after it.
    let at = Timestamp { millis: 10 };
    let late = Timestamp { millis: 11 };
    assert_eq!(db.fetch_account_with_password_reset_at("rtok", at).ok().unwrap().id, "u2");
    assert!(matches!(db.fetch_account_with_password_reset_at("rtok", late), Err(Error::InvalidToken)));
    assert!(matches!(db.fetch_account_with_email_verification_at("vtok", late), Err(Error::InvalidToken)));
    assert!(matches!(db.fetch_account_with_deletion_token_at("dtok", late), Err(Error::InvalidToken)));
    // By the system clock these tokens expired long ago.
    assert!(matches!(db.fetch_account_with_password_reset("rtok"), Err(Error::InvalidToken)));
    assert!(matches!(db.fetch_account_with_email_verification("vtok"), Err(Error::InvalidToken)));
    assert!(matches!(db.fetch_account_with_deletion_token("dtok"), Err(Error::InvalidToken)));
}

#[test]
fn accounts_due_for_deletion() {
    let mut db = ReferenceDb::new();
    let mut a = account("u1", "a@x.com");
    a.deletion = Some(DeletionInfo::Scheduled { after: Timestamp { millis: 100 } });
    let mut b = account("u2", "b@x.com");
    b.deletion = Some(DeletionInfo::Scheduled { after: Timestamp { millis: 300 } });
    let c = account("u3", "c@x.com");
    db.save_account(&a).ok();
    db.save_account(&b).ok();
    db.save_account(&c).ok();
    let due: Vec<String> = db.fetch_accounts_due_for_deletion_at(Timestamp { millis: 200 }).iter().map(|a| a.id.clone()).collect();
    assert_eq!(due, vec!["u1".to_string()]);
    let due_all = db.fetch_accounts_due_for_deletion_at(Timestamp { millis: 300 });
    assert_eq!(due_all.len(), 2);
    let now = db.fetch_accounts_due_for_deletion().ok().unwrap();
    assert_eq!(now.len(), 2);
}

#[test]
fn invites_round_trip() {
    let mut db = ReferenceDb::new();
    assert!(matches!(db.fetch_account_invite("code"), Err(Error::InvalidInvite)));
    let inv = AccountInvite { id: "code".to_string(), used: true, claimed_by: Some("u1".to_string()) };
    db.save_account_invite(&inv).ok();
    let got = db.fetch_account_invite("code").ok().unwrap();
    assert!(got.used);
    assert_eq!(got.claimed_by.as_deref(), Some("u1"));
}

#[test]
fn audit_insert_refuses_duplicate_id() {
    let mut db = ReferenceDb::new();
    assert!(db.admin_audit_insert(audit("A1")).is_ok());
    assert!(matches!(db.admin_audit_insert(audit("A1")), Err(Error::DatabaseError)));
    assert_eq!(db.admin_audits.len(), 1);
}

#[test]
fn audit_fetch_is_newest_first_with_limit() {
    let mut db = ReferenceDb::new();
    for id in ["A1", "A2", "A3", "A4"] {
        db.admin_audit_insert(audit(id)).ok();
    }
    let all = db.admin_audit_fetch(None, -1).ok().unwrap();
    assert_eq!(ids_of_audits(&all), vec!["A4", "A3", "A2", "A1"]);
    let two = db.admin_audit_fetch(None, 2).ok().unwrap();
    assert_eq!(ids_of_audits(&two), vec!["A4", "A3"]);
    let none = db.admin_audit_fetch(None, 0).ok().unwrap();
    assert!(none.is_empty());
}

#[test]
fn audit_fetch_pages_below_before_newest_first() {
    let mut db = ReferenceDb::new();
    for id in ["A3", "A1", "A4", "A2"] {
        db.admin_audit_insert(audit(id)).ok();
    }
    // Newest (greatest id) first, whatever the insertion order.
    let all = db.admin_audit_fetch(None, -1).ok().unwrap();
    assert_eq!(ids_of_audits(&all), vec!["A4", "A3", "A2", "A1"]);
    // Only ids below the bound.
    let page = db.admin_audit_fetch(Some("A3"), 10).ok().unwrap();
    assert_eq!(ids_of_audits(&page), vec!["A2", "A1"]);
    let page = db.admin_audit_fetch(Some("A3"), 1).ok().unwrap();
    assert_eq!(ids_of_audits(&page), vec!["A2"]);
    // A bound between stored ids.
    let page = db.admin_audit_fetch(Some("A35"), 2).ok().unwrap();
    assert_eq!(ids_of_audits(&page), vec!["A3", "A2"]);
    // Nothing lies below "A0"; everything lies below "B".
    assert!(db.admin_audit_fetch(Some("A0"), 10).ok().unwrap().is_empty());
    let page = db.admin_audit_fetch(Some("B"), -1).ok().unwrap();
    assert_eq!(ids_of_audits(&page), vec!["A4", "A3", "A2", "A1"]);
}

#[test]
fn case_create_fetch_and_duplicate() {
    let mut db = ReferenceDb::new();
    assert!(db.admin_case_create(case("C1", "Spam", "Open", "m1", &[])).is_ok());
    assert!(matches!(db.admin_case_create(case("C1", "Other", "Open", "m1", &[])), Err(Error::DatabaseError)));
    assert_eq!(db.admin_case_fetch("C1").ok().unwrap().title, "Spam");
    assert!(matches!(db.admin_case_fetch("C2"), Err(Error::NotFound)));
}

#[test]
fn case_edit_applies_partial() {
    let mut db = ReferenceDb::new();
    db.admin_case_create(case("C1", "Spam", "Open", "m1", &["a"])).ok();
    let mut p = PartialAdminCase::new();
    p.status = Some("Closed".to_string());
    assert!(db.admin_case_edit("C1", &p).is_ok());
    let got = db.admin_case_fetch("C1").ok().unwrap();
    assert_eq!(got.status, "Closed");
    assert_eq!(got.title, "Spam");
    assert_eq!(got.tags, vec!["a".to_string()]);
    assert!(matches!(db.admin_case_edit("C9", &p), Err(Error::NotFound)));
}

#[test]
fn case_edit_of_id_keeps_key() {
    let mut db = ReferenceDb::new();
    db.admin_case_create(case("C1", "Spam", "Open", "m1", &[])).ok();
    let mut p = PartialAdminCase::new();
    p.id = Some("C2".to_string());
    db.admin_case_edit("C1", &p).ok();
    assert_eq!(db.admin_case_fetch("C1").ok().unwrap().id, "C2");
    assert!(db.admin_case_fetch("C2").is_err());
}

#[test]
fn case_fetch_from_shorthand() {
    let mut db = ReferenceDb::new();
    db.admin_case_create(AdminCase::with_id("01234567890ABCDEFG".to_string(), "o", "t")).ok();
    assert_eq!(db.admin_case_fetch_from_shorthand("ABCDEFG").ok().unwrap().id, "01234567890ABCDEFG");
    assert!(matches!(db.admin_case_fetch_from_shorthand("XXXXXXX"), Err(Error::NotFound)));
}

#[test]
fn case_search_filters() {
    let mut db = ReferenceDb::new();
    db.admin_case_create(case("C1", "Spam Wave", "Open", "m1", &["spam"])).ok();
    db.admin_case_create(case("C2", "Raid", "Closed", "m2", &["raid", "spam"])).ok();
    db.admin_case_create(case("C3", "spam bots", "Open", "m2", &["bots"])).ok();

    let by_title = db.admin_case_search(Some("spam"), None, None, None, None, -1).ok().unwrap();
    assert_eq!(ids_of_cases(&by_title), vec!["C1", "C3"]);
    let by_status = db.admin_case_search(None, Some("Open"), None, None, None, -1).ok().unwrap();
    assert_eq!(ids_of_cases(&by_status), vec!["C1", "C3"]);
    let by_owner = db.admin_case_search(None, None, Some("m2"), None, None, -1).ok().unwrap();
    assert_eq!(ids_of_cases(&by_owner), vec!["C2", "C3"]);
    let by_tags = db.admin_case_search(None, None, None, Some(vec!["spam".to_string()]), None, -1).ok().unwrap();
    assert_eq!(ids_of_cases(&by_tags), vec!["C1", "C2"]);
    let no_tags = db.admin_case_search(None, None, None, Some(vec![]), None, -1).ok().unwrap();
    assert!(no_tags.is_empty());
    let combined = db.admin_case_search(Some("spam"), Some("Open"), Some("m2"), None, None, -1).ok().unwrap();
    assert_eq!(ids_of_cases(&combined), vec!["C3"]);
}

#[test]
fn case_search_pages() {
    let mut db = ReferenceDb::new();
    for id in ["C3", "C1", "C4", "C2"] {
        db.admin_case_create(case(id, "t", "Open", "m", &[])).ok();
    }
    let first = db.admin_case_search(None, None, None, None, None, 2).ok().unwrap();
    assert_eq!(ids_of_cases(&first), vec!["C3", "C1"]);
    // Every case below the bound, in storage order.
    let below = db.admin_case_search(None, None, None, None, Some("C3"), 10).ok().unwrap();
    assert_eq!(ids_of_cases(&below), vec!["C1", "C2"]);
    let one = db.admin_case_search(None, None, None, None, Some("C3"), 1).ok().unwrap();
    assert_eq!(ids_of_cases(&one), vec!["C1"]);
    let last = db.admin_case_search(None, None, None, None, Some("C1"), 2).ok().unwrap();
    assert!(last.is_empty());
    // Filters and the bound combine.
    db.admin_case_create(case("C0", "t", "Closed", "m", &[])).ok();
    let open_below = db.admin_case_search(None, Some("Open"), None, None, Some("C2"), -1).ok().unwrap();
    assert_eq!(ids_of_cases(&open_below), vec!["C1"]);
}

#[test]
fn assign_report_to_case() {
    let mut db = ReferenceDb::new();
    assert!(matches!(db.admin_case_assign_report("C1", "R1"), Err(Error::NotFound)));
    db.safety_reports.upsert("R1".to_string(), SafetyReport { id: "R1".to_string(), case_id: None });
    assert!(db.admin_case_assign_report("C1", "R1").is_ok());
    let r = db.safety_reports.get("R1").unwrap();
    assert_eq!(r.case_id.as_deref(), Some("C1"));
}

#[test]
fn case_comments_insert_update_fetch() {
    let mut db = ReferenceDb::new();
    db.admin_case_comment_insert(AdminCaseComment::with_id("K1".to_string(), "C1", "u", "one")).ok();
    db.admin_case_comment_insert(AdminCaseComment::with_id("K2".to_string(), "C2", "u", "two")).ok();
    db.admin_case_comment_insert(AdminCaseComment::with_id("K3".to_string(), "C1", "u", "three")).ok();
    assert!(matches!(
        db.admin_case_comment_insert(AdminCaseComment::with_id("K1".to_string(), "C1", "u", "dup")),
        Err(Error::DatabaseError)
    ));
    let on_c1: Vec<String> = db.admin_case_comment_fetch("C1").ok().unwrap().iter().map(|c| c.content.clone()).collect();
    assert_eq!(on_c1, vec!["one", "three"]);

    let mut p = PartialAdminCaseComment::new();
    p.content = Some("edited".to_string());
    assert!(db.admin_case_comment_update_at("K1", &p, "2024".to_string()).is_ok());
    let after = db.admin_case_comment_fetch("C1").ok().unwrap();
    assert_eq!(after[0].content, "edited");
    assert_eq!(after[0].edited_at.as_deref(), Some("2024"));
    assert!(matches!(db.admin_case_comment_update("K9", &p), Err(Error::NotFound)));
    assert!(db.admin_case_comment_update("K2", &p).is_ok());
}

#[test]
fn comments_insert_update_fetch() {
    let mut db = ReferenceDb::new();
    db.admin_comment_insert(AdminComment::with_id("M1".to_string(), "obj1", "u", "a", Some("C1"))).ok();
    db.admin_comment_insert(AdminComment::with_id("M2".to_string(), "obj2", "u", "b", Some("C1"))).ok();
    db.admin_comment_insert(AdminComment::with_id("M3".to_string(), "obj1", "u", "c", None)).ok();
    assert!(matches!(
        db.admin_comment_insert(AdminComment::with_id("M3".to_string(), "obj1", "u", "c", None)),
        Err(Error::DatabaseError)
    ));

    let related: Vec<String> = db.admin_comment_fetch_related_case("C1").ok().unwrap().iter().map(|c| c.id.clone()).collect();
    assert_eq!(related, vec!["M1", "M2"]);
    let on_obj: Vec<String> = db.admin_comment_fetch_object_comments("obj1").ok().unwrap().iter().map(|c| c.id.clone()).collect();
    assert_eq!(on_obj, vec!["M1", "M3"]);

    assert_eq!(db.admin_comment_fetch("M2").ok().unwrap().content.as_deref(), Some("b"));
    assert!(matches!(db.admin_comment_fetch("M9"), Err(Error::NotFound)));

    let mut p = PartialAdminComment::new();
    p.content = Some("new".to_string());
    assert!(db.admin_comment_update_at("M2", &p, "when".to_string()).is_ok());
    let m2 = db.admin_comment_fetch("M2").ok().unwrap();
    assert_eq!(m2.content.as_deref(), Some("new"));
    assert_eq!(m2.edited_at.as_deref(), Some("when"));
    assert!(matches!(db.admin_comment_update("M9", &p), Err(Error::NotFound)));
    assert!(db.admin_comment_update("M1", &p).is_ok());
    assert!(db.admin_comment_fetch("M1").ok().unwrap().edited_at.is_some());
}

#[test]
fn register_new_and_existing_accounts() {
    let mut db = ReferenceDb::new();
    let (acc, follow) = db.register_account(
        "u1".to_string(),
        "A@x.com".to_string(),
        "a@x.com".to_string(),
        "hash".to_string(),
        Some(("tok".to_string(), Timestamp { millis: 7 })),
    );
    assert!(follow.is_none());
    assert_eq!(acc.id, "u1");
    assert!(matches!(acc.verification, revolt_core::accounts::EmailVerification::Pending { .. }));
    assert_eq!(db.fetch_account("u1").ok().unwrap().email, "A@x.com");

    // The same normalised email again: nothing new is stored.
    let (again, follow) =
        db.register_account("u2".to_string(), "a@X.com".to_string(), "a@x.com".to_string(), "h2".to_string(), None);
    assert_eq!(again.id, "u1");
    assert!(matches!(follow, Some(revolt_core::accounts::AccountFollowUp::ResendVerification)));
    assert!(matches!(db.fetch_account("u2"), Err(Error::UnknownUser)));

    // A verified account gets a password reset instead.
    db.register_account("u3".to_string(), "b@x.com".to_string(), "b@x.com".to_string(), "h".to_string(), None);
    let (_, follow) =
        db.register_account("u4".to_string(), "b@x.com".to_string(), "b@x.com".to_string(), "h".to_string(), None);
    assert!(matches!(follow, Some(revolt_core::accounts::AccountFollowUp::SendPasswordReset)));
    // One account per normalised email.
    assert_eq!(db.accounts.len(), 2);
}

#[test]
fn scheduled_deletion_is_due_after_a_week() {
    let mut db = ReferenceDb::new();
    let mut a = account("u1", "a@x.com");
    a.schedule_deletion(&mut db, Timestamp { millis: 1_000 }).ok();
    db.save_account(&a).ok();
    let week = revolt_core::timestamp::MILLIS_PER_WEEK;
    assert!(db.fetch_accounts_due_for_deletion_at(Timestamp { millis: 1_000 + week - 1 }).is_empty());
    assert_eq!(db.fetch_accounts_due_for_deletion_at(Timestamp { millis: 1_000 + week }).len(), 1);
}

#[test]
fn account_new_keeps_one_account_per_email() {
    let mut db = ReferenceDb::new();
    let a = Account::new(&mut db, "u1".to_string(), "A@x.com".to_string(), "a@x.com".to_string(), "h".to_string(), None)
        .ok()
        .unwrap();
    assert_eq!(a.id, "u1");
    assert!(matches!(a.verification, revolt_core::accounts::EmailVerification::Verified));
    // The same email again: the existing account, now with a password reset.
    let b = Account::new(
        &mut db,
        "u2".to_string(),
        "a@X.com".to_string(),
        "a@x.com".to_string(),
        "h2".to_string(),
        Some(("tok".to_string(), Timestamp { millis: 9 })),
    )
    .ok()
    .unwrap();
    assert_eq!(b.id, "u1");
    assert_eq!(db.accounts.len(), 1);
    assert_eq!(db.fetch_account("u1").ok().unwrap().password_reset.map(|r| r.token), Some("tok".to_string()));
    // Without mail a password reset cannot be sent.
    assert!(matches!(
        Account::new(&mut db, "u3".to_string(), "a@x.com".to_string(), "a@x.com".to_string(), "h".to_string(), None),
        Err(Error::OperationFailed)
    ));
    assert_eq!(db.accounts.len(), 1);
}
