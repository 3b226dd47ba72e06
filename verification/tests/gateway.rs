use revolt_core::bridge::reply_to;
use revolt_core::gateway::{
    delivery_step, global_topic, is_subscribed, needs_reload, partition_slowmodes, private_topic, pubsub_commands,
    server_topic, session_disposition, should_reload_after_mark, token_from, user_event_topics, worker_action,
    ClientMessage, Disposition, Ping, PubSubCommand, SessionEvent, WorkerAction,
};
use revolt_core::subscriptions::SubscriptionStateChange;
use std::collections::BTreeSet;

fn strings(v: &[&str]) -> Vec<String> {
    v.iter().map(|s| s.to_string()).collect()
}

fn describe(cmds: &[PubSubCommand]) -> Vec<String> {
    cmds.iter()
        .map(|c| match c {
            PubSubCommand::UnsubscribeAll => "-*".to_string(),
            PubSubCommand::Subscribe(t) => format!("+{t}"),
            PubSubCommand::Unsubscribe(t) => format!("-{t}"),
        })
        .collect()
}

/// Runs broker commands on a set of topics.
fn run(mut broker: BTreeSet<String>, cmds: &[PubSubCommand]) -> BTreeSet<String> {
    for c in cmds {
        match c {
            PubSubCommand::UnsubscribeAll => broker.clear(),
            PubSubCommand::Subscribe(t) => {
                broker.insert(t.clone());
            }
            PubSubCommand::Unsubscribe(t) => {
                broker.remove(t);
            }
        }
    }
    broker
}

#[test]
fn authenticate_message_carries_token() {
    assert_eq!(token_from(ClientMessage::Authenticate { token: "tok".to_string() }), Some("tok".to_string()));
    assert_eq!(token_from(ClientMessage::BeginTyping { channel: "c".to_string() }), None);
}

#[test]
fn typing_only_in_subscribed_channels() {
    let subscribed = strings(&["c1", "u1!"]);
    let user = "u1".to_string();
    match worker_action(&subscribed, &user, ClientMessage::BeginTyping { channel: "c1".to_string() }) {
        WorkerAction::PublishTyping { channel, user, started } => {
            assert_eq!(channel, "c1");
            assert_eq!(user, "u1");
            assert!(started);
        }
        _ => panic!("expected a typing event"),
    }
    match worker_action(&subscribed, &user, ClientMessage::EndTyping { channel: "c1".to_string() }) {
        WorkerAction::PublishTyping { started, .. } => assert!(!started),
        _ => panic!("expected a typing event"),
    }
    assert!(matches!(
        worker_action(&subscribed, &user, ClientMessage::BeginTyping { channel: "c2".to_string() }),
        WorkerAction::Ignore
    ));
}

#[test]
fn subscribe_and_ping_actions() {
    let subscribed = strings(&[]);
    let user = "u".to_string();
    match worker_action(&subscribed, &user, ClientMessage::Subscribe { server_id: "s1".to_string() }) {
        WorkerAction::MarkServerActive { server_id } => assert_eq!(server_id, "s1"),
        _ => panic!("expected mark"),
    }
    match worker_action(&subscribed, &user, ClientMessage::Ping { data: Ping::Number(7), responded: None }) {
        WorkerAction::SendPong { data: Ping::Number(n) } => assert_eq!(n, 7),
        _ => panic!("expected pong"),
    }
    assert!(matches!(
        worker_action(&subscribed, &user, ClientMessage::Ping { data: Ping::Binary(vec![1, 2]), responded: Some(()) }),
        WorkerAction::Ignore
    ));
    assert!(matches!(
        worker_action(&subscribed, &user, ClientMessage::Authenticate { token: "t".to_string() }),
        WorkerAction::Ignore
    ));
    assert!(should_reload_after_mark(false));
    assert!(!should_reload_after_mark(true));
}

#[test]
fn pubsub_commands_for_changes() {
    let subscribed = strings(&["a", "b"]);
    assert!(pubsub_commands(&SubscriptionStateChange::Unchanged, &subscribed).is_empty());
    assert_eq!(describe(&pubsub_commands(&SubscriptionStateChange::Reset, &subscribed)), vec!["-*", "+a", "+b"]);
    let change = SubscriptionStateChange::Change { add: strings(&["c"]), remove: strings(&["x", "y"]) };
    assert_eq!(describe(&pubsub_commands(&change, &subscribed)), vec!["-x", "-y", "+c"]);
    assert!(!needs_reload(&SubscriptionStateChange::Unchanged));
    assert!(needs_reload(&SubscriptionStateChange::Reset));
    assert!(needs_reload(&change));
}

#[test]
fn broker_follows_client_topics() {
    // A reset resubscribes from scratch.
    let before: BTreeSet<String> = ["stale".to_string()].into_iter().collect();
    let now = strings(&["a", "b"]);
    let after = run(before, &pubsub_commands(&SubscriptionStateChange::Reset, &now));
    assert_eq!(after, now.iter().cloned().collect::<BTreeSet<String>>());

    // A change moves the broker from the old topics to the new ones.
    let old: BTreeSet<String> = ["a".to_string(), "b".to_string()].into_iter().collect();
    let change = SubscriptionStateChange::Change { add: strings(&["c"]), remove: strings(&["a"]) };
    let after = run(old, &pubsub_commands(&change, &strings(&["b", "c"])));
    assert_eq!(after, ["b".to_string(), "c".to_string()].into_iter().collect::<BTreeSet<String>>());
}

#[test]
fn broker_keeps_topic_added_and_removed_in_one_change() {
    // The client's topics end without "t" (additions, then removals), while the
    // commands remove first and add after.
    let change = SubscriptionStateChange::Change { add: strings(&["t"]), remove: strings(&["t"]) };
    let after = run(BTreeSet::new(), &pubsub_commands(&change, &strings(&[])));
    assert!(after.contains("t"));
}

#[test]
fn session_events() {
    let me = "s1".to_string();
    let d = |e: SessionEvent| session_disposition(&me, &e);
    assert!(matches!(d(SessionEvent::DeleteSession { session_id: "s1".to_string() }), Disposition::Logout));
    assert!(matches!(d(SessionEvent::DeleteSession { session_id: "s2".to_string() }), Disposition::Forward));
    assert!(matches!(d(SessionEvent::DeleteAllSessions { exclude_session_id: None }), Disposition::Logout));
    assert!(matches!(
        d(SessionEvent::DeleteAllSessions { exclude_session_id: Some("s2".to_string()) }),
        Disposition::Logout
    ));
    assert!(matches!(
        d(SessionEvent::DeleteAllSessions { exclude_session_id: Some("s1".to_string()) }),
        Disposition::Forward
    ));
    assert!(matches!(d(SessionEvent::OtherAuth), Disposition::Forward));
    assert!(matches!(d(SessionEvent::Other), Disposition::Handle));
}

#[test]
fn deliveries_are_filtered_and_offset_moves() {
    let subscribed = strings(&["a", "b"]);
    let step = delivery_step(&subscribed, &"a".to_string(), 41);
    assert!(step.deliver);
    assert_eq!(step.next_offset, 42);
    let step = delivery_step(&subscribed, &"z".to_string(), 0);
    assert!(!step.deliver);
    assert_eq!(step.next_offset, 1);
    assert!(is_subscribed(&subscribed, &"b".to_string()));
}

#[test]
fn topic_names() {
    assert_eq!(private_topic(&"u1".to_string()), "u1!");
    assert_eq!(server_topic(&"s1".to_string()), "s1u");
    assert_eq!(global_topic(), "global");
    assert_eq!(user_event_topics(&"u1".to_string(), &strings(&["s1", "s2"])), strings(&["u1", "s1u", "s2u"]));
    assert_eq!(user_event_topics(&"u1".to_string(), &strings(&[])), strings(&["u1"]));
}

#[test]
fn slowmodes_partition_by_ttl() {
    let ids = strings(&["c1", "c2", "c3", "c4"]);
    let ttls = vec![30, 0, -2, 5];
    let (alive, expired) = partition_slowmodes(&ids, &ttls);
    let alive: Vec<(String, u64, u64)> = alive.into_iter().map(|s| (s.channel_id, s.duration, s.retry_after)).collect();
    assert_eq!(alive, vec![("c1".to_string(), 30, 30), ("c4".to_string(), 5, 5)]);
    assert_eq!(expired, strings(&["c2", "c3"]));
}

#[test]
fn slowmodes_pair_up_to_shorter_list() {
    let ids = strings(&["c1", "c2", "c3"]);
    let (alive, expired) = partition_slowmodes(&ids, &vec![10]);
    assert_eq!(alive.len(), 1);
    assert!(expired.is_empty());
    let (alive, expired) = partition_slowmodes(&strings(&[]), &vec![1, 2]);
    assert!(alive.is_empty() && expired.is_empty());
}

#[test]
fn bridge_replies_only_to_its_trigger() {
    assert_eq!(reply_to("deez").as_deref(), Some("this is where a message would usually go"));
    assert_eq!(reply_to("deez "), None);
    assert_eq!(reply_to(""), None);
}

#[test]
fn ping_copies_keep_data() {
    match Ping::Binary(vec![1, 2, 3]).duplicate() {
        Ping::Binary(b) => assert_eq!(b, vec![1, 2, 3]),
        _ => panic!("expected binary"),
    }
    match Ping::Number(9).duplicate() {
        Ping::Number(n) => assert_eq!(n, 9),
        _ => panic!("expected number"),
    }
}
