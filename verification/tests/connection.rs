use revolt_core::connection::{
    listener_step, worker_step, ConnAction, ConnEvent, Connection, ListenerAction, ListenerEvent, Phase, ReadOutcome,
    WorkerStep,
};
use revolt_core::gateway::{ClientMessage, SessionEvent, WorkerAction};

#[test]
fn token_in_query_authenticates_at_once() {
    let (c, action) = Connection::open(Some("tok".to_string()), true);
    assert!(c.phase == Phase::Authenticating);
    assert!(matches!(action, ConnAction::Authenticate(t) if t == "tok"));
}

#[test]
fn waits_for_authenticate_message() {
    let (mut c, action) = Connection::open(None, false);
    assert!(c.phase == Phase::AwaitingToken);
    assert!(matches!(action, ConnAction::ReadNext));
    assert!(matches!(c.step(ConnEvent::Message(None)), ConnAction::ReadNext));
    assert!(matches!(
        c.step(ConnEvent::Message(Some(ClientMessage::BeginTyping { channel: "c".to_string() }))),
        ConnAction::ReadNext
    ));
    let a = c.step(ConnEvent::Message(Some(ClientMessage::Authenticate { token: "t".to_string() })));
    assert!(matches!(a, ConnAction::Authenticate(t) if t == "t"));
}

#[test]
fn no_token_is_an_invalid_session() {
    let (mut c, _) = Connection::open(None, false);
    assert!(matches!(c.step(ConnEvent::StreamEnded), ConnAction::SendInvalidSession));
    assert!(c.phase == Phase::Closed);
    assert!(matches!(c.step(ConnEvent::LoopsEnded), ConnAction::Ignore));
}

#[test]
fn rejected_token_closes() {
    let (mut c, _) = Connection::open(Some("bad".to_string()), false);
    assert!(matches!(c.step(ConnEvent::AuthResult(false)), ConnAction::SendAuthError));
    assert!(c.phase == Phase::Closed);
    assert!(!c.authenticated);
}

#[test]
fn full_life_with_slowmodes() {
    let (mut c, _) = Connection::open(Some("t".to_string()), true);
    assert!(matches!(c.step(ConnEvent::AuthResult(true)), ConnAction::Greet));
    assert!(c.authenticated);
    assert!(matches!(c.step(ConnEvent::SendResult(true)), ConnAction::SendReady));
    assert!(matches!(c.step(ConnEvent::SendResult(true)), ConnAction::FetchSlowmodes));
    assert!(matches!(c.step(ConnEvent::SlowmodesFetched(true)), ConnAction::SendSlowmodes));
    assert!(matches!(c.step(ConnEvent::SendResult(true)), ConnAction::CreatePresence));
    assert!(!c.presence_open);
    assert!(matches!(c.step(ConnEvent::PresenceCreated(true)), ConnAction::RunLoops { broadcast_online: true }));
    assert!(c.presence_open && c.phase == Phase::Live);
    assert!(matches!(c.step(ConnEvent::LoopsEnded), ConnAction::DeletePresence));
    assert!(c.presence_open);
    assert!(matches!(c.step(ConnEvent::PresenceDeleted(false)), ConnAction::Finish { broadcast_offline: false }));
    assert!(!c.presence_open && c.phase == Phase::Closed);
}

#[test]
fn life_without_slowmodes_and_failed_send() {
    let (mut c, _) = Connection::open(Some("t".to_string()), false);
    c.step(ConnEvent::AuthResult(true));
    c.step(ConnEvent::SendResult(true));
    assert!(matches!(c.step(ConnEvent::SendResult(true)), ConnAction::CreatePresence));
    let (mut d, _) = Connection::open(Some("t".to_string()), true);
    d.step(ConnEvent::AuthResult(true));
    assert!(matches!(d.step(ConnEvent::SendResult(false)), ConnAction::Close));
    assert!(d.phase == Phase::Closed && !d.presence_open);
}

#[test]
fn listener_steps() {
    let me = "s1".to_string();
    assert!(matches!(listener_step(&me, ListenerEvent::Stopped), ListenerAction::Quit));
    assert!(matches!(listener_step(&me, ListenerEvent::CommandFailed), ListenerAction::Quit));
    assert!(matches!(listener_step(&me, ListenerEvent::ReceiveFailed), ListenerAction::Quit));
    assert!(matches!(listener_step(&me, ListenerEvent::TopicSignal), ListenerAction::NextRound));
    assert!(matches!(
        listener_step(&me, ListenerEvent::Incoming(SessionEvent::DeleteSession { session_id: "s1".to_string() })),
        ListenerAction::Send { logout: true }
    ));
    assert!(matches!(listener_step(&me, ListenerEvent::Incoming(SessionEvent::OtherAuth)), ListenerAction::Send { logout: false }));
    assert!(matches!(listener_step(&me, ListenerEvent::Incoming(SessionEvent::Other)), ListenerAction::Handle));
    assert!(matches!(listener_step(&me, ListenerEvent::Handled(false)), ListenerAction::NextRound));
    assert!(matches!(listener_step(&me, ListenerEvent::Handled(true)), ListenerAction::Send { logout: false }));
    assert!(matches!(listener_step(&me, ListenerEvent::Sent { ok: true, logout: true }), ListenerAction::Quit));
    assert!(matches!(listener_step(&me, ListenerEvent::Sent { ok: false, logout: false }), ListenerAction::Quit));
    assert!(matches!(listener_step(&me, ListenerEvent::Sent { ok: true, logout: false }), ListenerAction::NextRound));
}

#[test]
fn worker_steps() {
    let subscribed = vec!["c".to_string()];
    let me = "u".to_string();
    assert!(matches!(worker_step(&subscribed, &me, ReadOutcome::Ended), WorkerStep::Quit));
    assert!(matches!(worker_step(&subscribed, &me, ReadOutcome::Failed), WorkerStep::Quit));
    assert!(matches!(worker_step(&subscribed, &me, ReadOutcome::Stopped), WorkerStep::Quit));
    assert!(matches!(worker_step(&subscribed, &me, ReadOutcome::Message(None)), WorkerStep::Continue));
    assert!(matches!(
        worker_step(&subscribed, &me, ReadOutcome::Message(Some(ClientMessage::EndTyping { channel: "c".to_string() }))),
        WorkerStep::Act(WorkerAction::PublishTyping { started: false, .. })
    ));
}
