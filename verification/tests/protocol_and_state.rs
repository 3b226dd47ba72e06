use revolt_core::coalesced::{CoalescionService, CoalescionServiceConfig, Error as CoalesceError, ExecutePlan};
use revolt_core::protocol::{parse_i32, ProtocolConfiguration, ProtocolFormat, ReadyPayloadFields};
use revolt_core::active_servers::mark_server_active;
use revolt_core::subscriptions::{ActiveServerChange, State, SubscriptionStateChange, User};
use revolt_core::text::{contains_text, same_text, string_of_chars, text_le};
use revolt_core::timestamp::{Timestamp, MAX_MILLIS};

fn user(id: &str) -> User {
    User { id: id.to_string(), username: "name".to_string(), discriminator: "0001".to_string() }
}

fn topics(state: &State) -> Vec<String> {
    let mut v = state.subscribed.clone();
    v.sort();
    v
}

#[test]
fn query_string_defaults() {
    let cfg = ProtocolConfiguration::from_query("");
    assert_eq!(cfg.get_protocol_version(), 1);
    assert!(matches!(cfg.get_protocol_format(), ProtocolFormat::Json));
    assert!(cfg.get_session_token().is_none());
    let f = cfg.get_ready_payload_fields();
    assert!(f.users && f.servers && f.channels && f.members && f.emojis && f.policy_changes);
    assert!(!f.channel_unreads && !f.voice_states && f.user_settings.is_empty());
}

#[test]
fn query_string_values() {
    let cfg = ProtocolConfiguration::from_query("version=2&format=msgpack&token=abc");
    assert_eq!(cfg.get_protocol_version(), 2);
    assert!(matches!(cfg.get_protocol_format(), ProtocolFormat::Msgpack));
    assert_eq!(cfg.get_session_token().as_deref(), Some("abc"));
    let bad = ProtocolConfiguration::from_query("version=two&format=xml");
    assert_eq!(bad.get_protocol_version(), 1);
    assert!(matches!(bad.get_protocol_format(), ProtocolFormat::Json));
}

#[test]
fn ready_fields_select_only_named() {
    let cfg = ProtocolConfiguration::from_query("ready=users&ready=channel_unreads&ready=bogus");
    let f = cfg.get_ready_payload_fields();
    assert!(f.users && f.channel_unreads);
    assert!(!f.servers && !f.channels && !f.members && !f.emojis && !f.policy_changes);
    // A bracketed key selects that user setting.
    let cfg = ProtocolConfiguration::from_query("ready=user_settings[theme]");
    assert_eq!(cfg.get_ready_payload_fields().user_settings, vec!["theme".to_string()]);
    assert!(!cfg.get_ready_payload_fields().users);
    // A bare `user_settings` names no key.
    let cfg = ProtocolConfiguration::from_query("ready=user_settings");
    assert!(cfg.get_ready_payload_fields().user_settings.is_empty());
}

#[test]
fn query_pairs_parse() {
    // Each part gives its text before the first `=` and up to the second.
    let cfg = ProtocolConfiguration::from_query("token=a=b&version&format=msgpack");
    assert_eq!(cfg.get_session_token().as_deref(), Some("a"));
    assert_eq!(cfg.get_protocol_version(), 1);
    assert!(matches!(cfg.get_protocol_format(), ProtocolFormat::Msgpack));
}

#[test]
fn session_token_and_from() {
    let mut cfg = ProtocolConfiguration::from(3, ProtocolFormat::Json, None, ReadyPayloadFields::default_fields());
    assert_eq!(cfg.get_protocol_version(), 3);
    cfg.set_session_token("t".to_string());
    assert_eq!(cfg.get_session_token().as_deref(), Some("t"));
    assert!(!ReadyPayloadFields::none_selected().users);
}

#[test]
fn integers_parse_like_std() {
    assert_eq!(parse_i32("42"), Some(42));
    assert_eq!(parse_i32("+5"), Some(5));
    assert_eq!(parse_i32("-17"), Some(-17));
    assert_eq!(parse_i32("-2147483648"), Some(i32::MIN));
    assert_eq!(parse_i32("2147483647"), Some(i32::MAX));
    assert_eq!(parse_i32("2147483648"), None);
    assert_eq!(parse_i32("-"), None);
    assert_eq!(parse_i32(""), None);
    assert_eq!(parse_i32("1a"), None);
}

#[test]
fn coalescing_plans() {
    let cfg = CoalescionServiceConfig { max_concurrent: Some(1), queue_requests: true, max_queue: Some(1) };
    let mut svc = CoalescionService::from_config(cfg);
    let a = "a".to_string();
    let b = "b".to_string();
    let c = "c".to_string();
    assert!(matches!(svc.plan(&a, true), ExecutePlan::UseCached));
    assert!(matches!(svc.plan(&a, false), ExecutePlan::RunNow));
    svc.begin(a.clone());
    assert!(matches!(svc.plan(&a, false), ExecutePlan::JoinRunning));
    assert!(matches!(svc.plan(&b, false), ExecutePlan::Enqueue));
    svc.enqueue(b.clone());
    assert!(matches!(svc.plan(&b, false), ExecutePlan::JoinQueued));
    assert!(matches!(svc.plan(&c, false), ExecutePlan::Reject(CoalesceError::MaxQueue)));
    assert!(!svc.queue_turn(&b));
    svc.finish(&a);
    assert!(svc.queue_turn(&b));
    assert_eq!(svc.start_next(), "b");
    assert_eq!(svc.current_task_count(), 1);
    assert_eq!(svc.current_queue_len(), 0);
}

#[test]
fn coalescing_without_queue_rejects() {
    let cfg = CoalescionServiceConfig { max_concurrent: Some(1), queue_requests: false, max_queue: None };
    let mut svc = CoalescionService::from_config(cfg);
    svc.begin("x".to_string());
    assert!(matches!(svc.plan(&"y".to_string(), false), ExecutePlan::Reject(CoalesceError::MaxConcurrent)));
    let unlimited = CoalescionService::from_config(CoalescionServiceConfig { max_concurrent: None, queue_requests: true, max_queue: None });
    assert!(matches!(unlimited.plan(&"y".to_string(), false), ExecutePlan::RunNow));
    assert_eq!(CoalesceError::MaxQueue.message(), "Max number of tasks in queue");
    let d = CoalescionServiceConfig::default();
    assert_eq!(d.max_concurrent, Some(100));
    assert!(d.queue_requests);
    assert_eq!(d.max_queue, Some(100));
    assert_eq!(CoalescionService::new().current_task_count(), 0);
}

#[test]
fn state_starts_with_private_and_user_topics() {
    let state = State::from(user("u1"), "s1".to_string());
    assert_eq!(state.subscribed, vec!["u1!".to_string(), "u1".to_string()]);
    assert_eq!(state.private_topic, "u1!");
    assert!(matches!(state.state, SubscriptionStateChange::Reset));
    assert_eq!(state.clone_user().id, "u1");
}

#[test]
fn active_servers_become_member_topics() {
    let mut state = State::from(user("u1"), "s1".to_string());
    state.flush_state();
    // A server not seen before asks the listener to reload; a second look does not.
    assert!(mark_server_active(&mut state.active_servers, "srv".to_string()));
    assert!(!mark_server_active(&mut state.active_servers, "srv".to_string()));
    match state.apply_state() {
        Some(SubscriptionStateChange::Change { add, .. }) => assert_eq!(add, vec!["srvu".to_string()]),
        _ => panic!("expected a change"),
    }
    assert!(state.subscribed.contains(&"srvu".to_string()));
    // Nothing new since: nothing queued.
    assert!(matches!(state.apply_state(), Some(SubscriptionStateChange::Unchanged)));
}

#[test]
fn bots_do_not_follow_active_servers() {
    let mut state = State::from(user("u1"), "s1".to_string());
    state.cache.is_bot = true;
    state.flush_state();
    mark_server_active(&mut state.active_servers, "srv".to_string());
    assert!(matches!(state.apply_state(), Some(SubscriptionStateChange::Unchanged)));
    assert!(!state.subscribed.contains(&"srvu".to_string()));
}

#[test]
fn subscribe_then_unsubscribe_restores_topics() {
    let mut state = State::from(user("u1"), "s1".to_string());
    state.flush_state();
    let before = topics(&state);
    state.insert_subscription("c1".to_string());
    state.insert_subscription("c1".to_string());
    match &state.state {
        SubscriptionStateChange::Change { add, remove } => {
            assert_eq!(add, &vec!["c1".to_string()]);
            assert!(remove.is_empty());
        }
        _ => panic!("expected a change"),
    }
    state.remove_subscription("c1");
    assert_eq!(topics(&state), before);
    state.remove_subscription("c1");
    assert_eq!(topics(&state), before);
}

#[test]
fn flush_hands_back_change_once() {
    let mut state = State::from(user("u1"), "s1".to_string());
    assert!(matches!(state.flush_state(), SubscriptionStateChange::Reset));
    assert!(matches!(state.flush_state(), SubscriptionStateChange::Unchanged));
    state.reset_state();
    assert!(state.subscribed.is_empty());
    assert!(matches!(state.flush_state(), SubscriptionStateChange::Reset));
}

#[test]
fn server_changes_follow_member_topics() {
    let mut state = State::from(user("u1"), "s1".to_string());
    state.flush_state();
    let change = state.apply_state_with(&vec![ActiveServerChange::Subscribe("srv".to_string())]);
    match change {
        SubscriptionStateChange::Change { add, .. } => assert_eq!(add, vec!["srvu".to_string()]),
        _ => panic!("expected a change"),
    }
    assert!(state.subscribed.contains(&"srvu".to_string()));
    state.apply_state_with(&vec![ActiveServerChange::Unsubscribe("srv".to_string())]);
    assert!(!state.subscribed.contains(&"srvu".to_string()));
}

#[test]
fn timestamps() {
    let t = Timestamp { millis: 0 };
    assert_eq!(t.checked_add_seconds(2).map(|x| x.millis), Some(2000));
    assert!(Timestamp { millis: MAX_MILLIS }.checked_add_millis(1).is_none());
    assert!(t.is_at_or_before(Timestamp { millis: 0 }));
    assert!(!Timestamp { millis: 1 }.is_at_or_before(t));
}

#[test]
fn text_helpers() {
    assert!(same_text("abc", "abc"));
    assert!(!same_text("abc", "abd"));
    assert!(contains_text("hello world", "o w"));
    assert!(contains_text("x", ""));
    assert!(!contains_text("abc", "abcd"));
    assert!(text_le("abc", "abd"));
    assert!(text_le("ab", "abc"));
    assert!(!text_le("b", "abc"));
    assert_eq!(string_of_chars(&vec!['h', 'i']), "hi");
}
