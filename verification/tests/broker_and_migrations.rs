use revolt_core::broker::{
    ack_dedup_header, amqp_url, message_targets, pool_choice, Consumer, FRAcceptedPayload, FRReceivedPayload,
    GenericPayload,
};
use revolt_core::migrations::{
    channel_permission_update, final_revision, legacy_grants_send, migrate_plan, needs_admin_setup,
    migrated_username, pending_migrations, renumber_ranks, sanitise_username, server_default_permissions, server_had_send,
    AbstractMigrations, Claims, MigratePlan, LATEST_REVISION,
};
use revolt_core::reference_db::ReferenceDb;
use revolt_core::settings::Rabbit;
use revolt_core::subscriptions::User;

fn strings(v: &[&str]) -> Vec<String> {
    v.iter().map(|s| s.to_string()).collect()
}

fn user(id: &str) -> User {
    User { id: id.to_string(), username: format!("name-{id}"), discriminator: "0001".to_string() }
}

#[test]
fn consumer_opens_with_topics_and_offset() {
    let mut c = Consumer::new("tag".to_string());
    c.set_topics(strings(&["a", "b"]));
    let plan = c.ensure_consumer();
    assert!(plan.dispose);
    let (filter, offset) = plan.create.unwrap();
    assert_eq!(filter, strings(&["a", "b"]));
    assert_eq!(offset, None);
    // Nothing changed: the open consumer is kept.
    let plan = c.ensure_consumer();
    assert!(!plan.dispose && plan.create.is_none());
    // A delivery moves the offset past it; only subscribed topics pass.
    assert!(c.on_delivery(10, &"a".to_string()));
    assert!(!c.on_delivery(11, &"z".to_string()));
    assert_eq!(c.offset, Some(12));
    // New topics: close and reopen from the recorded offset.
    c.set_topics(strings(&["z"]));
    let plan = c.ensure_consumer();
    assert!(plan.dispose);
    let (filter, offset) = plan.create.unwrap();
    assert_eq!(filter, strings(&["z"]));
    assert_eq!(offset, Some(12));
    c.dispose_consumer();
    let plan = c.ensure_consumer();
    assert!(!plan.dispose && plan.create.is_some());
}

#[test]
fn pool_keeps_connected_and_picks_first_with_room() {
    let choice = pool_choice(&vec![true, false, true, true], &vec![5, 0, 2, 1], 3);
    assert_eq!(choice.keep, vec![0, 2, 3]);
    assert_eq!(choice.pick, Some(2));
    let full = pool_choice(&vec![true, true], &vec![3, 4], 3);
    assert_eq!(full.pick, None);
    let empty = pool_choice(&vec![], &vec![], 3);
    assert!(empty.keep.is_empty() && empty.pick.is_none());
}

#[test]
fn amqp_urls() {
    let rabbit = Rabbit { host: "rabbit".to_string(), port: 5672, username: "guest".to_string(), password: "pw".to_string() };
    assert_eq!(amqp_url(&rabbit, "/%2f"), "amqp://guest:pw@rabbit:5672/%2f");
    assert_eq!(amqp_url(&rabbit, ""), "amqp://guest:pw@rabbit:5672");
    let zero = Rabbit { port: 0, ..rabbit };
    assert_eq!(amqp_url(&zero, ""), "amqp://guest:pw@rabbit:0");
}

#[test]
fn message_targets_are_offline_recipients_once() {
    assert!(message_targets(&vec![], &strings(&["a"])).is_none());
    let targets = message_targets(&strings(&["a", "b", "a", "c", "b"]), &strings(&["c"])).unwrap();
    assert_eq!(targets, strings(&["a", "b"]));
    let all_online = message_targets(&strings(&["a"]), &strings(&["a"])).unwrap();
    assert!(all_online.is_empty());
}

#[test]
fn ack_header_joins_user_and_channel() {
    assert_eq!(ack_dedup_header(&"u1".to_string(), &"c1".to_string()), "u1-c1");
}

#[test]
fn push_payloads() {
    let accepted = FRAcceptedPayload::new(&user("a"), &user("s"));
    assert_eq!(accepted.accepted_user.id, "a");
    assert_eq!(accepted.user, "s");
    let received = FRReceivedPayload::new(&user("r"), &user("s"));
    assert_eq!(received.from_user.id, "s");
    assert_eq!(received.user, "r");
    let generic = GenericPayload::new(&user("u"), "t".to_string(), "b".to_string(), None);
    assert_eq!(generic.user.username, "name-u");
    assert_eq!(generic.title, "t");
}

#[test]
fn pending_migrations_by_revision() {
    assert_eq!(pending_migrations(41), vec![41]);
    assert_eq!(pending_migrations(33), vec![40, 41]);
    assert_eq!(pending_migrations(25), vec![25, 25, 26, 27, 28, 30, 31, 32, 40, 41]);
    assert_eq!(pending_migrations(0).len(), 35);
    assert_eq!(pending_migrations(-5).len(), 35);
    assert!(pending_migrations(42).is_empty());
}

#[test]
fn migrate_twice_runs_nothing_the_second_time() {
    for start in [0, 13, 41, 42, 50] {
        let end = final_revision(start);
        assert!(end >= LATEST_REVISION);
        assert!(pending_migrations(end).is_empty());
    }
    assert_eq!(final_revision(3), 42);
    assert_eq!(final_revision(50), 50);
    let db = ReferenceDb::new();
    assert!(db.migrate_database().is_ok());
    assert!(db.migrate_database().is_ok());
}

#[test]
fn migrate_or_create() {
    assert!(matches!(migrate_plan(&strings(&["admin", "revolt"]), &"revolt".to_string()), MigratePlan::Migrate));
    assert!(matches!(migrate_plan(&strings(&["admin"]), &"revolt".to_string()), MigratePlan::Create));
    assert!(needs_admin_setup(true, &strings(&["users"])));
    assert!(!needs_admin_setup(true, &strings(&["admin_audits"])));
    assert!(!needs_admin_setup(false, &strings(&[])));
}

#[test]
fn legacy_permissions() {
    assert!(legacy_grants_send(2));
    assert!(legacy_grants_send(-1));
    assert!(!legacy_grants_send(1));
    assert_eq!(server_default_permissions(true), 4000323584);
    assert_eq!(server_default_permissions(false), 4000323584 ^ (1 << 22));
    assert!(server_had_send(Some(3)));
    assert!(!server_had_send(Some(4)));
    assert!(!server_had_send(None));
    let keep = channel_permission_update(None);
    assert!(keep.unset_default && !keep.deny_send);
    let keep = channel_permission_update(Some(2));
    assert!(keep.unset_default && !keep.deny_send);
    let deny = channel_permission_update(Some(0));
    assert!(!deny.unset_default && deny.deny_send);
}

#[test]
fn ranks_become_positions() {
    assert_eq!(renumber_ranks(&vec![10, -3, 10, 7]), vec![2, 0, 3, 1]);
    assert_eq!(renumber_ranks(&vec![5, 5, 5]), vec![0, 1, 2]);
    assert_eq!(renumber_ranks(&vec![]), Vec::<i64>::new());
    let r = renumber_ranks(&vec![100, 1, 50, 1, 2]);
    let mut sorted = r.clone();
    sorted.sort();
    assert_eq!(sorted, vec![0, 1, 2, 3, 4]);
}

#[test]
fn usernames_are_sanitised() {
    assert_eq!(sanitise_username("bad name!"), "badname");
    assert_eq!(sanitise_username("a b"), "ab");
    assert_eq!(sanitise_username("!"), "__");
    assert_eq!(sanitise_username("x!"), "x_");
    assert_eq!(sanitise_username("é!"), "é");
    assert_eq!(sanitise_username("💖💖"), "__");
}

#[test]
fn claims_refuse_taken_pairs() {
    let mut claims = Claims::new();
    assert!(claims.try_claim("alice", "0001"));
    assert!(!claims.try_claim("alice", "0001"));
    assert!(claims.try_claim("alice", "0002"));
    assert!(claims.try_claim("bob", "0001"));
    assert_eq!(claims.keys, strings(&["alice#0001", "alice#0002", "bob#0001"]));
}

#[test]
fn migrated_usernames() {
    assert_eq!(migrated_username("good_name"), ("good_name".to_string(), None));
    assert_eq!(migrated_username("bad name!"), ("badname".to_string(), Some("bad name!".to_string())));
    assert_eq!(migrated_username("!"), ("__".to_string(), Some("!".to_string())));
}

#[test]
fn discriminators_are_drawn_until_free() {
    let space: Vec<String> = vec!["0001".to_string(), "0002".to_string(), "0003".to_string()];
    let mut claims = Claims::new();
    let mut got: Vec<String> = Vec::new();
    for _ in 0..3 {
        let d = claims.claim_discriminator("user", &space).expect("a free discriminator");
        assert!(space.contains(&d));
        assert!(!got.contains(&d));
        got.push(d);
    }
    // Every pair is taken now.
    assert_eq!(claims.claim_discriminator("user", &space), None);
    assert_eq!(claims.keys.len(), 3);
    // Another username has the whole space.
    assert!(claims.claim_discriminator("other", &space).is_some());
}
