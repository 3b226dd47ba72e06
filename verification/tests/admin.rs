use revolt_core::admin::{
    AdminAuditItem, AdminCase, AdminCaseComment, AdminComment, PartialAdminCase, PartialAdminCaseComment,
    PartialAdminComment,
};

fn strings(v: &[&str]) -> Vec<String> {
    v.iter().map(|s| s.to_string()).collect()
}

fn is_crockford(c: char) -> bool {
    c.is_ascii_digit() || (c.is_ascii_uppercase() && !matches!(c, 'I' | 'L' | 'O' | 'U'))
}

#[test]
fn audit_item_new_has_ulid_and_fields() {
    let item = AdminAuditItem::new("mod", "ban", Some("case"), None, Some("spam"));
    assert_eq!(item.id.len(), 26);
    assert!(item.id.chars().all(is_crockford));
    assert_eq!(item.mod_id, "mod");
    assert_eq!(item.action, "ban");
    assert_eq!(item.case_id.as_deref(), Some("case"));
    assert_eq!(item.target_id, None);
    assert_eq!(item.context.as_deref(), Some("spam"));
}

#[test]
fn audit_items_get_distinct_ids() {
    let a = AdminAuditItem::new("m", "a", None, None, None);
    let b = AdminAuditItem::new("m", "a", None, None, None);
    assert_ne!(a.id, b.id);
}

#[test]
fn case_new_is_open_with_short_id() {
    let case = AdminCase::new("owner", "Title");
    assert_eq!(case.id.len(), 26);
    assert_eq!(case.short_id, case.id[19..].to_string());
    assert_eq!(case.status, "Open");
    assert_eq!(case.closed_at, None);
    assert!(case.tags.is_empty());
    assert_eq!(case.owner_id, "owner");
    assert_eq!(case.title, "Title");
}

#[test]
fn case_with_id_short_id_is_last_seven() {
    let case = AdminCase::with_id("01HZZABCDEFG1234567".to_string(), "o", "t");
    assert_eq!(case.short_id, "1234567");
    let exact = AdminCase::with_id("ABCDEFG".to_string(), "o", "t");
    assert_eq!(exact.short_id, "ABCDEFG");
}

#[test]
fn merge_tags_appends_new_tags_in_order() {
    let mut case = AdminCase::with_id("0000000000".to_string(), "o", "t");
    case.tags = strings(&["a", "b"]);
    let merged = case.merge_tags(&strings(&["b", "c", "a", "d"]));
    assert_eq!(merged, strings(&["a", "b", "c", "d"]));
}

#[test]
fn merge_tags_keeps_repeats_of_other() {
    let mut case = AdminCase::with_id("0000000000".to_string(), "o", "t");
    case.tags = strings(&["a"]);
    assert_eq!(case.merge_tags(&strings(&["c", "c"])), strings(&["a", "c", "c"]));
    assert_eq!(case.merge_tags(&[]), strings(&["a"]));
    case.tags = vec![];
    assert_eq!(case.merge_tags(&strings(&["x"])), strings(&["x"]));
}

#[test]
fn case_apply_options_overwrites_given_fields() {
    let mut case = AdminCase::with_id("0000000000".to_string(), "owner", "title");
    let mut partial = PartialAdminCase::new();
    partial.status = Some("Closed".to_string());
    partial.closed_at = Some("2024-01-01".to_string());
    partial.tags = Some(strings(&["x"]));
    case.apply_options(partial);
    assert_eq!(case.status, "Closed");
    assert_eq!(case.closed_at.as_deref(), Some("2024-01-01"));
    assert_eq!(case.tags, strings(&["x"]));
    assert_eq!(case.title, "title");
    assert_eq!(case.owner_id, "owner");
}

#[test]
fn case_comment_edit_at_sets_content_and_time() {
    let mut c = AdminCaseComment::with_id("id1".to_string(), "case", "user", "hello");
    assert_eq!(c.edited_at, None);
    c.edit_at("bye", "2024-05-05T00:00:00Z".to_string());
    assert_eq!(c.content, "bye");
    assert_eq!(c.edited_at.as_deref(), Some("2024-05-05T00:00:00Z"));
    assert_eq!(c.case_id, "case");
}

#[test]
fn case_comment_edit_stamps_now() {
    let mut c = AdminCaseComment::new("case", "user", "hello");
    c.edit("changed");
    assert_eq!(c.content, "changed");
    assert!(c.edited_at.is_some());
}

#[test]
fn partial_case_comment_new_is_empty_and_edit_fills() {
    let mut p = PartialAdminCaseComment::new();
    assert!(p.id.is_none() && p.case_id.is_none() && p.user_id.is_none());
    assert!(p.edited_at.is_none() && p.content.is_none());
    p.edit("text");
    assert_eq!(p.content.as_deref(), Some("text"));
    assert!(p.edited_at.is_some());
}

#[test]
fn comment_new_and_system_message() {
    let c = AdminComment::new("obj", "user", "note", Some("case"));
    assert_eq!(c.id.len(), 26);
    assert_eq!(c.object_id, "obj");
    assert_eq!(c.content.as_deref(), Some("note"));
    assert_eq!(c.case_id.as_deref(), Some("case"));
    assert_eq!(c.system_message, None);

    let s = AdminComment::new_system_message("obj", "user", "case", "\"Ban\"".to_string(), None, "target");
    assert_eq!(s.content, None);
    assert_eq!(s.system_message.as_deref(), Some("\"Ban\""));
    assert_eq!(s.system_message_target.as_deref(), Some("target"));
    assert_eq!(s.system_message_context, None);
    assert_eq!(s.case_id.as_deref(), Some("case"));
}

#[test]
fn partial_comment_new_is_empty() {
    let p = PartialAdminComment::new();
    assert!(p.id.is_none() && p.object_id.is_none() && p.case_id.is_none() && p.user_id.is_none());
    assert!(p.edited_at.is_none() && p.content.is_none() && p.system_message.is_none());
    assert!(p.system_message_target.is_none() && p.system_message_context.is_none());
}

#[test]
fn comment_apply_options_and_edit() {
    let mut c = AdminComment::with_id("id".to_string(), "obj", "user", "a", None);
    let mut p = PartialAdminComment::new();
    p.case_id = Some("case".to_string());
    c.apply_options(p);
    assert_eq!(c.case_id.as_deref(), Some("case"));
    assert_eq!(c.content.as_deref(), Some("a"));
    c.edit_at("b", "t".to_string());
    assert_eq!(c.content.as_deref(), Some("b"));
    assert_eq!(c.edited_at.as_deref(), Some("t"));
}
