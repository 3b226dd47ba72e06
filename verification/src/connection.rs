//! The life of one gateway connection, from the handshake to the end: wait
//! for a session token if the query string had none, authenticate, greet,
//! send the ready payload (and running slowmodes), open a presence session,
//! run the listener and worker loops, and close the presence session.
//!
//! Each step's outside work (reading, sending, database and presence calls)
//! is done by the caller, which reports its outcome as an event.

use vstd::prelude::*;
use crate::gateway::{ClientMessage, Disposition, SessionEvent, WorkerAction, session_disposition, session_disposition_spec, worker_action, worker_action_spec};

verus! {

/// Where a connection stands.
#[derive(PartialEq, Eq, Structural)]
pub enum Phase {
    /// No token yet: reading client messages until one authenticates.
    AwaitingToken,
    /// Checking the session token.
    Authenticating,
    /// Telling the client it is authenticated.
    Greeting,
    /// Building and sending the ready payload.
    SendingReady,
    /// Looking up the user's running slowmodes.
    CheckingSlowmodes,
    /// Sending the running slowmodes.
    SendingSlowmodes,
    /// Opening the presence session.
    OpeningPresence,
    /// The listener and worker loops run.
    Live,
    /// Closing the presence session.
    ClosingPresence,
    /// Done.
    Closed,
}

/// What happened since the last step.
pub enum ConnEvent {
    /// A message read while waiting for a token (`None`: it did not decode).
    Message(Option<ClientMessage>),
    /// The socket ended or failed while waiting for a token.
    StreamEnded,
    /// Whether the token named a valid session.
    AuthResult(bool),
    /// Whether the last message was sent (for the ready payload: built and sent).
    SendResult(bool),
    /// Whether the user has running slowmodes.
    SlowmodesFetched(bool),
    /// The presence session is open; whether it is the user's first.
    PresenceCreated(bool),
    /// The listener and worker loops have both ended.
    LoopsEnded,
    /// The presence session is closed; whether it was the user's last.
    PresenceDeleted(bool),
}

/// What the caller does next.
pub enum ConnAction {
    /// Read the next client message.
    ReadNext,
    /// Check this session token.
    Authenticate(String),
    /// Send an invalid-session error, then stop.
    SendInvalidSession,
    /// Send the authentication error, then stop.
    SendAuthError,
    /// Record the session as seen, set up the client state and send the
    /// authenticated event.
    Greet,
    /// Build the ready payload and send it.
    SendReady,
    /// Look up the user's running slowmodes.
    FetchSlowmodes,
    /// Send the running slowmodes.
    SendSlowmodes,
    /// Open the presence session.
    CreatePresence,
    /// Run the listener and worker loops, after telling other users that the
    /// user came online when this is the first session.
    RunLoops { broadcast_online: bool },
    /// Close the presence session.
    DeletePresence,
    /// Stop, after telling other users that the user went offline when this
    /// was the last session.
    Finish { broadcast_offline: bool },
    /// Stop.
    Close,
    /// Nothing: the event does not belong to this phase.
    Ignore,
}

/// A gateway connection.
pub struct Connection {
    pub phase: Phase,
    /// Whether the token was accepted.
    pub authenticated: bool,
    /// Whether a presence session is open.
    pub presence_open: bool,
    /// Whether running slowmodes are sent after the ready payload.
    pub with_slowmodes: bool,
}

/// The invariant of a connection: only an authenticated connection gets
/// past authentication, and a presence session is open exactly while the
/// loops run or the session is being closed.
pub open spec fn conn_wf(c: Connection) -> bool {
    &&& (c.phase is Greeting || c.phase is SendingReady || c.phase is CheckingSlowmodes
        || c.phase is SendingSlowmodes || c.phase is OpeningPresence || c.phase is Live
        || c.phase is ClosingPresence) ==> c.authenticated
    &&& c.presence_open == (c.phase is Live || c.phase is ClosingPresence)
}

/// A connection moved to phase `p`, with the presence flag it has there.
pub open spec fn moved(c: Connection, p: Phase) -> Connection {
    Connection { phase: p, presence_open: p is Live || p is ClosingPresence, ..c }
}

/// The next connection state and action after `e` in connection `c`.
pub open spec fn transition(c: Connection, e: ConnEvent) -> (Connection, ConnAction) {
    match (c.phase, e) {
        (Phase::AwaitingToken, ConnEvent::Message(Some(ClientMessage::Authenticate { token }))) => (
            moved(c, Phase::Authenticating),
            ConnAction::Authenticate(token),
        ),
        (Phase::AwaitingToken, ConnEvent::Message(_)) => (c, ConnAction::ReadNext),
        (Phase::AwaitingToken, ConnEvent::StreamEnded) => (moved(c, Phase::Closed), ConnAction::SendInvalidSession),
        (Phase::Authenticating, ConnEvent::AuthResult(true)) => (
            Connection { authenticated: true, ..moved(c, Phase::Greeting) },
            ConnAction::Greet,
        ),
        (Phase::Authenticating, ConnEvent::AuthResult(false)) => (moved(c, Phase::Closed), ConnAction::SendAuthError),
        (Phase::Greeting, ConnEvent::SendResult(true)) => (moved(c, Phase::SendingReady), ConnAction::SendReady),
        (Phase::SendingReady, ConnEvent::SendResult(true)) => if c.with_slowmodes {
            (moved(c, Phase::CheckingSlowmodes), ConnAction::FetchSlowmodes)
        } else {
            (moved(c, Phase::OpeningPresence), ConnAction::CreatePresence)
        },
        (Phase::CheckingSlowmodes, ConnEvent::SlowmodesFetched(true)) => (
            moved(c, Phase::SendingSlowmodes),
            ConnAction::SendSlowmodes,
        ),
        (Phase::CheckingSlowmodes, ConnEvent::SlowmodesFetched(false)) => (
            moved(c, Phase::OpeningPresence),
            ConnAction::CreatePresence,
        ),
        (Phase::SendingSlowmodes, ConnEvent::SendResult(true)) => (
            moved(c, Phase::OpeningPresence),
            ConnAction::CreatePresence,
        ),
        (Phase::Greeting, ConnEvent::SendResult(false)) => (moved(c, Phase::Closed), ConnAction::Close),
        (Phase::SendingReady, ConnEvent::SendResult(false)) => (moved(c, Phase::Closed), ConnAction::Close),
        (Phase::SendingSlowmodes, ConnEvent::SendResult(false)) => (moved(c, Phase::Closed), ConnAction::Close),
        (Phase::OpeningPresence, ConnEvent::PresenceCreated(first)) => (
            moved(c, Phase::Live),
            ConnAction::RunLoops { broadcast_online: first },
        ),
        (Phase::Live, ConnEvent::LoopsEnded) => (moved(c, Phase::ClosingPresence), ConnAction::DeletePresence),
        (Phase::ClosingPresence, ConnEvent::PresenceDeleted(last)) => (
            moved(c, Phase::Closed),
            ConnAction::Finish { broadcast_offline: last },
        ),
        _ => (c, ConnAction::Ignore),
    }
}

impl Connection {
    /// A connection after the handshake: it authenticates at once with the
    /// token of the query string, or waits for one.
    pub fn open(token: Option<String>, with_slowmodes: bool) -> (r: (Connection, ConnAction))
        ensures
            conn_wf(r.0),
            !r.0.authenticated,
            r.0.with_slowmodes == with_slowmodes,
            match token {
                Some(t) => r.0.phase == Phase::Authenticating && r.1 == ConnAction::Authenticate(t),
                None => r.0.phase == Phase::AwaitingToken && r.1 is ReadNext,
            },
    {
        match token {
            Some(t) => (
                Connection { phase: Phase::Authenticating, authenticated: false, presence_open: false, with_slowmodes },
                ConnAction::Authenticate(t),
            ),
            None => (
                Connection { phase: Phase::AwaitingToken, authenticated: false, presence_open: false, with_slowmodes },
                ConnAction::ReadNext,
            ),
        }
    }

    /// Moves to phase `p`.
    fn move_to(&mut self, p: Phase)
        ensures
            *final(self) == moved(*old(self), p),
    {
        let open = match p {
            Phase::Live | Phase::ClosingPresence => true,
            _ => false,
        };
        self.phase = p;
        self.presence_open = open;
    }

    /// Takes one step.
    pub fn step(&mut self, e: ConnEvent) -> (r: ConnAction)
        ensures
            (*final(self), r) == transition(*old(self), e),
    {
        match (&self.phase, e) {
            (Phase::AwaitingToken, ConnEvent::Message(Some(ClientMessage::Authenticate { token }))) => {
                self.move_to(Phase::Authenticating);
                ConnAction::Authenticate(token)
            },
            (Phase::AwaitingToken, ConnEvent::Message(_)) => ConnAction::ReadNext,
            (Phase::AwaitingToken, ConnEvent::StreamEnded) => {
                self.move_to(Phase::Closed);
                ConnAction::SendInvalidSession
            },
            (Phase::Authenticating, ConnEvent::AuthResult(ok)) => {
                if ok {
                    self.move_to(Phase::Greeting);
                    self.authenticated = true;
                    ConnAction::Greet
                } else {
                    self.move_to(Phase::Closed);
                    ConnAction::SendAuthError
                }
            },
            (Phase::Greeting, ConnEvent::SendResult(ok)) => {
                if ok {
                    self.move_to(Phase::SendingReady);
                    ConnAction::SendReady
                } else {
                    self.move_to(Phase::Closed);
                    ConnAction::Close
                }
            },
            (Phase::SendingReady, ConnEvent::SendResult(ok)) => {
                if !ok {
                    self.move_to(Phase::Closed);
                    ConnAction::Close
                } else if self.with_slowmodes {
                    self.move_to(Phase::CheckingSlowmodes);
                    ConnAction::FetchSlowmodes
                } else {
                    self.move_to(Phase::OpeningPresence);
                    ConnAction::CreatePresence
                }
            },
            (Phase::CheckingSlowmodes, ConnEvent::SlowmodesFetched(any)) => {
                if any {
                    self.move_to(Phase::SendingSlowmodes);
                    ConnAction::SendSlowmodes
                } else {
                    self.move_to(Phase::OpeningPresence);
                    ConnAction::CreatePresence
                }
            },
            (Phase::SendingSlowmodes, ConnEvent::SendResult(ok)) => {
                if ok {
                    self.move_to(Phase::OpeningPresence);
                    ConnAction::CreatePresence
                } else {
                    self.move_to(Phase::Closed);
                    ConnAction::Close
                }
            },
            (Phase::OpeningPresence, ConnEvent::PresenceCreated(first)) => {
                self.move_to(Phase::Live);
                ConnAction::RunLoops { broadcast_online: first }
            },
            (Phase::Live, ConnEvent::LoopsEnded) => {
                self.move_to(Phase::ClosingPresence);
                ConnAction::DeletePresence
            },
            (Phase::ClosingPresence, ConnEvent::PresenceDeleted(last)) => {
                self.move_to(Phase::Closed);
                ConnAction::Finish { broadcast_offline: last }
            },
            _ => ConnAction::Ignore,
        }
    }
}

/// Every step keeps the invariant: a connection never gets past
/// authentication without an accepted token, and never closes while its
/// presence session is open.
pub proof fn lemma_step_keeps_invariant(c: Connection, e: ConnEvent)
    requires
        conn_wf(c),
    ensures
        conn_wf(transition(c, e).0),
        transition(c, e).0.phase is Closed ==> !transition(c, e).0.presence_open,
        transition(c, e).0.phase is Live ==> transition(c, e).0.authenticated,
        transition(c, e).0.with_slowmodes == c.with_slowmodes,
{
}

/// A presence session opens only when the connection goes live, and is
/// announced as online exactly when it is the user's first; closing it
/// comes only after the loops ended.
pub proof fn lemma_presence_bracketing(c: Connection, e: ConnEvent)
    requires
        conn_wf(c),
    ensures
        !c.presence_open && transition(c, e).0.presence_open ==> c.phase is OpeningPresence
            && transition(c, e).0.phase is Live,
        c.presence_open && !transition(c, e).0.presence_open ==> c.phase is ClosingPresence
            && transition(c, e).1 is Finish,
{
}

/// What happened in the listener loop.
pub enum ListenerEvent {
    /// The connection is being torn down (the worker ended, or the broker
    /// connection was cancelled).
    Stopped,
    /// The worker asked for subscriptions to be adjusted.
    TopicSignal,
    /// A subscription command to the broker failed.
    CommandFailed,
    /// Receiving from the broker failed, or the payload did not decode.
    ReceiveFailed,
    /// An event arrived for the client.
    Incoming(SessionEvent),
    /// The client state handled the event; whether it is to be sent.
    Handled(bool),
    /// Sending to the client finished: whether it worked, and whether a
    /// log-out was sent.
    Sent { ok: bool, logout: bool },
}

/// What the listener loop does next.
pub enum ListenerAction {
    /// Leave the loop (and quit the broker connection).
    Quit,
    /// Start the next round: apply the queued subscription state, then wait.
    NextRound,
    /// Send the event to the client, or a log-out in its place.
    Send { logout: bool },
    /// Let the client state handle the event.
    Handle,
}

/// One step of the listener loop of the connection of session `own_session`.
pub fn listener_step(own_session: &String, e: ListenerEvent) -> (r: ListenerAction)
    ensures
        match e {
            ListenerEvent::Stopped | ListenerEvent::CommandFailed | ListenerEvent::ReceiveFailed => r is Quit,
            ListenerEvent::TopicSignal => r is NextRound,
            ListenerEvent::Incoming(ev) => match session_disposition_spec(own_session@, ev) {
                Disposition::Logout => r == ListenerAction::Send { logout: true },
                Disposition::Forward => r == ListenerAction::Send { logout: false },
                Disposition::Handle => r is Handle,
            },
            ListenerEvent::Handled(send) => if send {
                r == ListenerAction::Send { logout: false }
            } else {
                r is NextRound
            },
            ListenerEvent::Sent { ok, logout } => if ok && !logout {
                r is NextRound
            } else {
                r is Quit
            },
        },
{
    match e {
        ListenerEvent::Stopped | ListenerEvent::CommandFailed | ListenerEvent::ReceiveFailed => ListenerAction::Quit,
        ListenerEvent::TopicSignal => ListenerAction::NextRound,
        ListenerEvent::Incoming(ev) => match session_disposition(own_session, &ev) {
            Disposition::Logout => ListenerAction::Send { logout: true },
            Disposition::Forward => ListenerAction::Send { logout: false },
            Disposition::Handle => ListenerAction::Handle,
        },
        ListenerEvent::Handled(send) => {
            if send {
                ListenerAction::Send { logout: false }
            } else {
                ListenerAction::NextRound
            }
        },
        ListenerEvent::Sent { ok, logout } => {
            if ok && !logout {
                ListenerAction::NextRound
            } else {
                ListenerAction::Quit
            }
        },
    }
}

/// What reading from the client's socket gave the worker loop.
pub enum ReadOutcome {
    /// The connection is being torn down.
    Stopped,
    /// The socket ended.
    Ended,
    /// Reading failed.
    Failed,
    /// A message arrived (`None`: it did not decode).
    Message(Option<ClientMessage>),
}

/// What the worker loop does next.
pub enum WorkerStep {
    /// Leave the loop.
    Quit,
    /// Read the next message.
    Continue,
    /// Carry out the message's action, then read the next one.
    Act(WorkerAction),
}

/// One step of the worker loop.
pub fn worker_step(subscribed: &Vec<String>, user_id: &String, read: ReadOutcome) -> (r: WorkerStep)
    ensures
        match read {
            ReadOutcome::Stopped | ReadOutcome::Ended | ReadOutcome::Failed => r is Quit,
            ReadOutcome::Message(None) => r is Continue,
            ReadOutcome::Message(Some(m)) => r matches WorkerStep::Act(a) && worker_action_spec(subscribed@, *user_id, m, a),
        },
{
    match read {
        ReadOutcome::Stopped | ReadOutcome::Ended | ReadOutcome::Failed => WorkerStep::Quit,
        ReadOutcome::Message(None) => WorkerStep::Continue,
        ReadOutcome::Message(Some(m)) => WorkerStep::Act(worker_action(subscribed, user_id, m)),
    }
}


/// A connection only closes on a failure: a send that failed, a rejected
/// token, a stream that ended before a token came, or once its presence
/// session is deleted after the loops.
pub proof fn lemma_closes_only_on_failure(c: Connection, e: ConnEvent)
    requires
        !(c.phase is Closed),
        transition(c, e).0.phase is Closed,
    ensures
        e == ConnEvent::SendResult(false) || e == ConnEvent::AuthResult(false) || e == ConnEvent::StreamEnded
            || e is PresenceDeleted,
{
}

/// Fetching the slowmodes never ends a connection: with none running it goes
/// on to open the presence session, with some it sends them first.
pub proof fn lemma_slowmodes_lead_to_presence(c: Connection, any: bool)
    requires
        c.phase is CheckingSlowmodes,
    ensures
        !(transition(c, ConnEvent::SlowmodesFetched(any)).0.phase is Closed),
        !any ==> transition(c, ConnEvent::SlowmodesFetched(any)).0.phase is OpeningPresence
            && transition(c, ConnEvent::SlowmodesFetched(any)).1 is CreatePresence,
        any ==> transition(c, ConnEvent::SlowmodesFetched(any)).1 is SendSlowmodes,
{
}

/// A connection whose token is accepted and whose sends all succeed gets to
/// run its loops, whether or not slowmodes are running.
pub proof fn lemma_accepted_connection_goes_live(c: Connection, any_slowmodes: bool, first: bool)
    requires
        c.phase is Authenticating,
    ensures
        ({
            let c1 = transition(c, ConnEvent::AuthResult(true)).0;
            let c2 = transition(c1, ConnEvent::SendResult(true)).0;
            let c3 = transition(c2, ConnEvent::SendResult(true)).0;
            let c4 = if c.with_slowmodes {
                let c35 = transition(c3, ConnEvent::SlowmodesFetched(any_slowmodes)).0;
                if any_slowmodes { transition(c35, ConnEvent::SendResult(true)).0 } else { c35 }
            } else {
                c3
            };
            &&& c4.phase is OpeningPresence
            &&& transition(c4, ConnEvent::PresenceCreated(first)).0.phase is Live
            &&& transition(c4, ConnEvent::PresenceCreated(first)).1 == ConnAction::RunLoops { broadcast_online: first }
        }),
{
}

} // verus!
