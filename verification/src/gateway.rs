//! Decisions of the events gateway's connection loops: what a client message
//! asks for, which broker commands follow a subscription change, what an
//! incoming session event becomes, and where events are published.
//!
//! The loops themselves (reading the socket, awaiting the broker, sending)
//! run outside this library and hand each step's input to these functions.

use vstd::prelude::*;
use crate::subscriptions::{SubscriptionStateChange, PendingView, find_string, member_topic, private_topic_of, flush_set};
use crate::text::{views, lemma_views_push};

verus! {

/// Ping Packet
pub enum Ping {
    Binary(Vec<u8>),
    Number(usize),
}

impl Ping {
    /// A copy.
    pub fn duplicate(&self) -> (r: Ping)
        ensures
            match (r, *self) {
                (Ping::Binary(a), Ping::Binary(b)) => a@ == b@,
                (Ping::Number(a), Ping::Number(b)) => a == b,
                _ => false,
            },
    {
        match self {
            Ping::Binary(b) => Ping::Binary(b.clone()),
            Ping::Number(n) => Ping::Number(*n),
        }
    }
}

/// Messages a client sends to the gateway.
pub enum ClientMessage {
    Authenticate { token: String },
    BeginTyping { channel: String },
    EndTyping { channel: String },
    Subscribe { server_id: String },
    Ping { data: Ping, responded: Option<()> },
}

/// While the connection waits for a session token: the token a message
/// carries, if it is an authentication message.
pub fn token_from(message: ClientMessage) -> (r: Option<String>)
    ensures
        match message {
            ClientMessage::Authenticate { token } => r == Some(token),
            _ => r is None,
        },
{
    match message {
        ClientMessage::Authenticate { token } => Some(token),
        _ => None,
    }
}

/// What the gateway does with a message of an authenticated client.
pub enum WorkerAction {
    /// Publish that `user` started (or stopped) typing in `channel`, on the
    /// channel's topic.
    PublishTyping { channel: String, user: String, started: bool },
    /// Mark the server as active for this client (after checking that the
    /// user is a member, where the gateway checks it).
    MarkServerActive { server_id: String },
    /// Answer the ping with a pong carrying the same data.
    SendPong { data: Ping },
    /// Nothing to do.
    Ignore,
}

/// What an authenticated client's message asks for: typing events only
/// for subscribed channels, pongs only for pings not yet answered.
pub open spec fn worker_action_spec(subscribed: Seq<String>, user_id: String, message: ClientMessage, r: WorkerAction) -> bool {
    match message {
        ClientMessage::BeginTyping { channel } => if views(subscribed).contains(channel@) {
            r matches WorkerAction::PublishTyping { channel: c, user: u, started } && c == channel
                && u@ == user_id@ && started
        } else {
            r is Ignore
        },
        ClientMessage::EndTyping { channel } => if views(subscribed).contains(channel@) {
            r matches WorkerAction::PublishTyping { channel: c, user: u, started } && c == channel
                && u@ == user_id@ && !started
        } else {
            r is Ignore
        },
        ClientMessage::Subscribe { server_id } => r == WorkerAction::MarkServerActive { server_id },
        ClientMessage::Ping { data, responded } => match responded {
            None => r == WorkerAction::SendPong { data },
            Some(_) => r is Ignore,
        },
        ClientMessage::Authenticate { .. } => r is Ignore,
    }
}

/// Decide what an authenticated client's message asks for: typing events
/// only for channels the client is subscribed to, pongs only for pings not
/// yet answered.
pub fn worker_action(subscribed: &Vec<String>, user_id: &String, message: ClientMessage) -> (r: WorkerAction)
    ensures
        worker_action_spec(subscribed@, *user_id, message, r),
{
    match message {
        ClientMessage::BeginTyping { channel } => {
            if is_subscribed(subscribed, &channel) {
                WorkerAction::PublishTyping { channel, user: user_id.clone(), started: true }
            } else {
                WorkerAction::Ignore
            }
        },
        ClientMessage::EndTyping { channel } => {
            if is_subscribed(subscribed, &channel) {
                WorkerAction::PublishTyping { channel, user: user_id.clone(), started: false }
            } else {
                WorkerAction::Ignore
            }
        },
        ClientMessage::Subscribe { server_id } => WorkerAction::MarkServerActive { server_id },
        ClientMessage::Ping { data, responded } => match responded {
            None => WorkerAction::SendPong { data },
            Some(_) => WorkerAction::Ignore,
        },
        ClientMessage::Authenticate { .. } => WorkerAction::Ignore,
    }
}

/// Whether `topic` is among the subscribed topics.
pub fn is_subscribed(subscribed: &Vec<String>, topic: &String) -> (r: bool)
    ensures
        r == views(subscribed@).contains(topic@),
{
    match find_string(subscribed, topic) {
        Some(i) => {
            proof {
                assert(views(subscribed@)[i as int] == topic@);
            }
            true
        },
        None => {
            proof {
                if views(subscribed@).contains(topic@) {
                    let j = choose|j: int| 0 <= j < views(subscribed@).len() && views(subscribed@)[j] == topic@;
                    assert(subscribed@[j]@ == topic@);
                }
            }
            false
        },
    }
}

/// After marking a server active: the listener must adjust its
/// subscriptions only when the server was not active before.
pub fn should_reload_after_mark(was_active: bool) -> (r: bool)
    ensures
        r == !was_active,
{
    !was_active
}

/// A command to the publish/subscribe connection.
pub enum PubSubCommand {
    UnsubscribeAll,
    Subscribe(String),
    Unsubscribe(String),
}

/// What a command means, over the topics' characters.
pub enum CommandView {
    UnsubscribeAll,
    Subscribe(Seq<char>),
    Unsubscribe(Seq<char>),
}

/// The meaning of a list of commands.
pub open spec fn command_views(v: Seq<PubSubCommand>) -> Seq<CommandView> {
    v.map_values(|c: PubSubCommand| match c {
        PubSubCommand::UnsubscribeAll => CommandView::UnsubscribeAll,
        PubSubCommand::Subscribe(t) => CommandView::Subscribe(t@),
        PubSubCommand::Unsubscribe(t) => CommandView::Unsubscribe(t@),
    })
}

/// Subscribing to each of `topics`, in order.
pub open spec fn subscribes(topics: Seq<Seq<char>>) -> Seq<CommandView> {
    topics.map_values(|t: Seq<char>| CommandView::Subscribe(t))
}

/// Unsubscribing from each of `topics`, in order.
pub open spec fn unsubscribes(topics: Seq<Seq<char>>) -> Seq<CommandView> {
    topics.map_values(|t: Seq<char>| CommandView::Unsubscribe(t))
}

/// The commands that carry a subscription change to the broker: after a
/// reset, drop everything and subscribe to every current topic; after a
/// change, unsubscribe the removed topics, then subscribe the added ones.
pub open spec fn commands_for(change: PendingView, subscribed: Seq<Seq<char>>) -> Seq<CommandView> {
    match change {
        PendingView::Idle => Seq::empty(),
        PendingView::Reset => seq![CommandView::UnsubscribeAll] + subscribes(subscribed),
        PendingView::Change { add, remove } => unsubscribes(remove) + subscribes(add),
    }
}

/// Appends a command for each topic of `topics`.
fn push_each(out: &mut Vec<PubSubCommand>, topics: &Vec<String>, subscribe: bool)
    ensures
        command_views(final(out)@) == command_views(old(out)@) + if subscribe {
            subscribes(views(topics@))
        } else {
            unsubscribes(views(topics@))
        },
{
    let ghost start = command_views(out@);
    let ghost want = if subscribe { subscribes(views(topics@)) } else { unsubscribes(views(topics@)) };
    let mut i: usize = 0;
    while i < topics.len()
        invariant
            i <= topics@.len(),
            want == (if subscribe { subscribes(views(topics@)) } else { unsubscribes(views(topics@)) }),
            command_views(out@) == start + want.take(i as int),
        decreases topics@.len() - i,
    {
        let t = topics[i].clone();
        let ghost before = out@;
        if subscribe {
            out.push(PubSubCommand::Subscribe(t));
        } else {
            out.push(PubSubCommand::Unsubscribe(t));
        }
        proof {
            assert(command_views(out@) =~= command_views(before).push(want[i as int]));
            assert(want.take(i + 1) =~= want.take(i as int).push(want[i as int]));
        }
        i = i + 1;
    }
    proof {
        assert(want.take(topics@.len() as int) =~= want);
    }
}

/// The broker commands that carry a subscription change; `subscribed` is
/// the client's set of topics after the change.
pub fn pubsub_commands(change: &SubscriptionStateChange, subscribed: &Vec<String>) -> (r: Vec<PubSubCommand>)
    ensures
        command_views(r@) == commands_for(change@, views(subscribed@)),
{
    let mut out: Vec<PubSubCommand> = Vec::new();
    match change {
        SubscriptionStateChange::Unchanged => {
            proof {
                assert(command_views(out@) =~= Seq::<CommandView>::empty());
            }
        },
        SubscriptionStateChange::Reset => {
            out.push(PubSubCommand::UnsubscribeAll);
            proof {
                assert(command_views(out@) =~= seq![CommandView::UnsubscribeAll]);
            }
            push_each(&mut out, subscribed, true);
        },
        SubscriptionStateChange::Change { add, remove } => {
            proof {
                assert(command_views(out@) =~= Seq::<CommandView>::empty());
            }
            push_each(&mut out, remove, false);
            push_each(&mut out, add, true);
            proof {
                assert(command_views(out@) =~= unsubscribes(views(remove@)) + subscribes(views(add@)));
            }
        },
    }
    out
}

/// The topics a publish/subscribe connection listens to after running
/// `cmds` from topics `b`.
pub open spec fn broker_after(b: Set<Seq<char>>, cmds: Seq<CommandView>) -> Set<Seq<char>>
    decreases cmds.len(),
{
    if cmds.len() == 0 {
        b
    } else {
        let prev = broker_after(b, cmds.drop_last());
        match cmds.last() {
            CommandView::UnsubscribeAll => Set::empty(),
            CommandView::Subscribe(t) => prev.insert(t),
            CommandView::Unsubscribe(t) => prev.remove(t),
        }
    }
}

/// Running two lists of commands runs the first, then the second.
proof fn lemma_broker_after_add(b: Set<Seq<char>>, x: Seq<CommandView>, y: Seq<CommandView>)
    ensures
        broker_after(b, x + y) == broker_after(broker_after(b, x), y),
    decreases y.len(),
{
    if y.len() == 0 {
        assert(x + y =~= x);
    } else {
        assert((x + y).drop_last() =~= x + y.drop_last());
        lemma_broker_after_add(b, x, y.drop_last());
    }
}

/// Subscribing to each of `ts` adds them all.
proof fn lemma_broker_subscribes(b: Set<Seq<char>>, ts: Seq<Seq<char>>)
    ensures
        broker_after(b, subscribes(ts)) == b.union(ts.to_set()),
    decreases ts.len(),
{
    if ts.len() == 0 {
        assert(ts.to_set() =~= Set::<Seq<char>>::empty());
        assert(b.union(ts.to_set()) =~= b);
    } else {
        assert(subscribes(ts).drop_last() =~= subscribes(ts.drop_last()));
        lemma_broker_subscribes(b, ts.drop_last());
        assert(ts =~= ts.drop_last().push(ts.last()));
        assert(ts.to_set() =~= ts.drop_last().to_set().insert(ts.last())) by {
            vstd::seq_lib::seq_to_set_distributes_over_add(ts.drop_last(), seq![ts.last()]);
            assert(ts.drop_last() + seq![ts.last()] =~= ts);
            assert(seq![ts.last()].to_set() =~= set![ts.last()]) by {
                assert forall|x| #[trigger] seq![ts.last()].to_set().contains(x) <==> set![ts.last()].contains(x) by {
                    if x == ts.last() {
                        assert(seq![ts.last()][0] == x);
                    }
                }
            }
        }
        assert(broker_after(b, subscribes(ts)) =~= b.union(ts.to_set()));
    }
}

/// Unsubscribing from each of `ts` removes them all.
proof fn lemma_broker_unsubscribes(b: Set<Seq<char>>, ts: Seq<Seq<char>>)
    ensures
        broker_after(b, unsubscribes(ts)) == b.difference(ts.to_set()),
    decreases ts.len(),
{
    if ts.len() == 0 {
        assert(ts.to_set() =~= Set::<Seq<char>>::empty());
        assert(b.difference(ts.to_set()) =~= b);
    } else {
        assert(unsubscribes(ts).drop_last() =~= unsubscribes(ts.drop_last()));
        lemma_broker_unsubscribes(b, ts.drop_last());
        assert(ts.to_set() =~= ts.drop_last().to_set().insert(ts.last())) by {
            vstd::seq_lib::seq_to_set_distributes_over_add(ts.drop_last(), seq![ts.last()]);
            assert(ts.drop_last() + seq![ts.last()] =~= ts);
            assert(seq![ts.last()].to_set() =~= set![ts.last()]) by {
                assert forall|x| #[trigger] seq![ts.last()].to_set().contains(x) <==> set![ts.last()].contains(x) by {
                    if x == ts.last() {
                        assert(seq![ts.last()][0] == x);
                    }
                }
            }
        }
        assert(broker_after(b, unsubscribes(ts)) =~= b.difference(ts.to_set()));
    }
}

/// After a reset, the broker listens to exactly the client's topics,
/// whatever it listened to before.
pub proof fn lemma_reset_resubscribes(b: Set<Seq<char>>, subscribed: Seq<Seq<char>>)
    ensures
        broker_after(b, commands_for(PendingView::Reset, subscribed)) == subscribed.to_set(),
{
    let first = seq![CommandView::UnsubscribeAll];
    lemma_broker_after_add(b, first, subscribes(subscribed));
    assert(first.drop_last() =~= Seq::<CommandView>::empty());
    assert(broker_after(b, first) == Set::<Seq<char>>::empty());
    lemma_broker_subscribes(Set::empty(), subscribed);
    assert(Set::<Seq<char>>::empty().union(subscribed.to_set()) =~= subscribed.to_set());
}

/// A broker that listened to the client's topics before a flushed change
/// listens to the client's topics after it, provided no topic was both added
/// and removed in the change; no change leaves the broker as it was.
pub proof fn lemma_change_matches_flush(b: Set<Seq<char>>, add: Seq<Seq<char>>, remove: Seq<Seq<char>>, subscribed: Seq<Seq<char>>)
    requires
        forall|t: Seq<char>| !(add.contains(t) && remove.contains(t)),
    ensures
        broker_after(b, commands_for(PendingView::Change { add, remove }, subscribed))
            == flush_set(b, PendingView::Change { add, remove }),
        broker_after(b, commands_for(PendingView::Idle, subscribed)) == b,
{
    lemma_broker_after_add(b, unsubscribes(remove), subscribes(add));
    lemma_broker_unsubscribes(b, remove);
    lemma_broker_subscribes(b.difference(remove.to_set()), add);
    assert(b.difference(remove.to_set()).union(add.to_set()) =~= b.union(add.to_set()).difference(remove.to_set())) by {
        assert forall|t: Seq<char>| add.to_set().contains(t) implies !remove.to_set().contains(t) by {
            assert(add.contains(t));
        }
    }
}

/// Whether a subscription change needs the broker consumer to be rebuilt.
pub fn needs_reload(change: &SubscriptionStateChange) -> (r: bool)
    ensures
        r == !(change@ is Idle),
{
    match change {
        SubscriptionStateChange::Unchanged => false,
        _ => true,
    }
}

/// The kind of an incoming event, as far as session handling reads it.
pub enum SessionEvent {
    /// One session was deleted.
    DeleteSession { session_id: String },
    /// All sessions of the user were deleted, but perhaps one.
    DeleteAllSessions { exclude_session_id: Option<String> },
    /// Any other authentication event.
    OtherAuth,
    /// Any other event.
    Other,
}

/// What the gateway does with an incoming event.
pub enum Disposition {
    /// Send a log out event in its place, then close the connection.
    Logout,
    /// Send the event as it is.
    Forward,
    /// Let the connection's state handle the event and decide whether to send it.
    Handle,
}

/// What an incoming event becomes for the connection of session `own`.
pub open spec fn session_disposition_spec(own: Seq<char>, event: SessionEvent) -> Disposition {
    match event {
        SessionEvent::DeleteSession { session_id } => if session_id@ == own {
            Disposition::Logout
        } else {
            Disposition::Forward
        },
        SessionEvent::DeleteAllSessions { exclude_session_id } => match exclude_session_id {
            Some(excluded) => if excluded@ != own {
                Disposition::Logout
            } else {
                Disposition::Forward
            },
            None => Disposition::Logout,
        },
        SessionEvent::OtherAuth => Disposition::Forward,
        SessionEvent::Other => Disposition::Handle,
    }
}

/// What an incoming event becomes for the connection of session
/// `own_session`: the deletion of this session, or of all sessions but
/// another one, logs the client out.
pub fn session_disposition(own_session: &String, event: &SessionEvent) -> (r: Disposition)
    ensures
        r == session_disposition_spec(own_session@, *event),
{
    match event {
        SessionEvent::DeleteSession { session_id } => {
            if *session_id == *own_session {
                Disposition::Logout
            } else {
                Disposition::Forward
            }
        },
        SessionEvent::DeleteAllSessions { exclude_session_id } => match exclude_session_id {
            Some(excluded) => {
                if *excluded != *own_session {
                    Disposition::Logout
                } else {
                    Disposition::Forward
                }
            },
            None => Disposition::Logout,
        },
        SessionEvent::OtherAuth => Disposition::Forward,
        SessionEvent::Other => Disposition::Handle,
    }
}

/// What the stream consumer does with one delivery.
pub struct DeliveryStep {
    /// Whether the event is for one of the client's topics (the broker's
    /// filter may let others through).
    pub deliver: bool,
    /// The stream offset to resume from.
    pub next_offset: i64,
}

/// One delivery from the event stream, tagged with `filter_value` at stream
/// offset `stream_offset`.
pub fn delivery_step(subscribed: &Vec<String>, filter_value: &String, stream_offset: i64) -> (r: DeliveryStep)
    requires
        stream_offset < i64::MAX,
    ensures
        r.deliver == views(subscribed@).contains(filter_value@),
        r.next_offset == stream_offset + 1,
{
    DeliveryStep { deliver: is_subscribed(subscribed, filter_value), next_offset: stream_offset + 1 }
}

/// The topic of a user's private events.
pub fn private_topic(id: &String) -> (r: String)
    ensures
        r@ == private_topic_of(id@),
{
    let r = id.clone().concat("!");
    proof {
        reveal_strlit("!");
    }
    r
}

/// The topic of a server's member events.
pub fn server_topic(id: &String) -> (r: String)
    ensures
        r@ == member_topic(id@),
{
    let r = id.clone().concat("u");
    proof {
        reveal_strlit("u");
    }
    r
}

/// The topic of internal global events.
pub fn global_topic() -> (r: String)
    ensures
        r@ == seq!['g', 'l', 'o', 'b', 'a', 'l'],
{
    let r = String::from_str("global");
    proof {
        reveal_strlit("global");
    }
    r
}

/// The topics a user event is published to: the user's own topic, then the
/// member topic of each server the user belongs to.
pub fn user_event_topics(user_id: &String, server_ids: &Vec<String>) -> (r: Vec<String>)
    ensures
        views(r@) == seq![user_id@] + views(server_ids@).map_values(|s: Seq<char>| member_topic(s)),
{
    let mut r: Vec<String> = Vec::new();
    r.push(user_id.clone());
    let ghost want = views(server_ids@).map_values(|s: Seq<char>| member_topic(s));
    proof {
        assert(views(r@) =~= seq![user_id@] + want.take(0));
    }
    let mut i: usize = 0;
    while i < server_ids.len()
        invariant
            i <= server_ids@.len(),
            want == views(server_ids@).map_values(|s: Seq<char>| member_topic(s)),
            views(r@) == seq![user_id@] + want.take(i as int),
        decreases server_ids@.len() - i,
    {
        let t = server_topic(&server_ids[i]);
        let ghost before = r@;
        r.push(t);
        proof {
            lemma_views_push(before, t);
            assert(want.take(i + 1) =~= want.take(i as int).push(want[i as int]));
            assert(views(r@) =~= seq![user_id@] + want.take(i + 1));
        }
        i = i + 1;
    }
    proof {
        assert(want.take(server_ids@.len() as int) =~= want);
    }
    r
}

/// A channel slowmode that is still running.
pub struct ChannelSlowmode {
    pub channel_id: String,
    pub duration: u64,
    pub retry_after: u64,
}

/// Of the channels in a user's slowmode index and their remaining times to
/// live (paired in order, as far as both lists go): the slowmodes still
/// running, and the channels whose entries expired.
pub open spec fn slowmode_split(ids: Seq<Seq<char>>, ttls: Seq<i64>) -> (Seq<(Seq<char>, i64)>, Seq<Seq<char>>)
    decreases ids.len(),
{
    if ids.len() == 0 || ttls.len() == 0 {
        (Seq::empty(), Seq::empty())
    } else {
        let n = if ids.len() < ttls.len() { ids.len() } else { ttls.len() };
        let rest = slowmode_split(ids.take(n - 1), ttls.take(n - 1));
        if ttls[n - 1] > 0 {
            (rest.0.push((ids[n - 1], ttls[n - 1])), rest.1)
        } else {
            (rest.0, rest.1.push(ids[n - 1]))
        }
    }
}

/// The meaning of a list of slowmodes: channel and seconds left.
pub open spec fn slowmode_views(v: Seq<ChannelSlowmode>) -> Seq<(Seq<char>, i64)> {
    v.map_values(|s: ChannelSlowmode| (s.channel_id@, s.retry_after as i64))
}

/// Splits a user's slowmode index into the slowmodes still running (with
/// their seconds left as both duration and retry delay) and the expired
/// channels.
pub fn partition_slowmodes(channel_ids: &Vec<String>, ttls: &Vec<i64>) -> (r: (Vec<ChannelSlowmode>, Vec<String>))
    ensures
        slowmode_views(r.0@) == slowmode_split(views(channel_ids@), ttls@).0,
        views(r.1@) == slowmode_split(views(channel_ids@), ttls@).1,
        forall|i: int| 0 <= i < r.0@.len() ==> (#[trigger] r.0@[i]).duration == r.0@[i].retry_after
            && r.0@[i].retry_after > 0,
{
    let n: usize = if channel_ids.len() < ttls.len() { channel_ids.len() } else { ttls.len() };
    let ghost ids = views(channel_ids@);
    let mut alive: Vec<ChannelSlowmode> = Vec::new();
    let mut expired: Vec<String> = Vec::new();
    let mut i: usize = 0;
    while i < n
        invariant
            ids == views(channel_ids@),
            n <= channel_ids@.len(),
            n <= ttls@.len(),
            n == channel_ids@.len() || n == ttls@.len(),
            i <= n,
            slowmode_views(alive@) == slowmode_split(ids.take(i as int), ttls@.take(i as int)).0,
            views(expired@) == slowmode_split(ids.take(i as int), ttls@.take(i as int)).1,
            forall|j: int| 0 <= j < alive@.len() ==> (#[trigger] alive@[j]).duration == alive@[j].retry_after
                && alive@[j].retry_after > 0,
        decreases n - i,
    {
        let ttl = ttls[i];
        let ghost a0 = alive@;
        let ghost e0 = expired@;
        proof {
            let ki = ids.take(i + 1);
            let ti = ttls@.take(i + 1);
            assert(ki.take(i as int) =~= ids.take(i as int));
            assert(ti.take(i as int) =~= ttls@.take(i as int));
        }
        if ttl > 0 {
            let s = ChannelSlowmode { channel_id: channel_ids[i].clone(), duration: ttl as u64, retry_after: ttl as u64 };
            alive.push(s);
            proof {
                assert(slowmode_views(alive@) =~= slowmode_views(a0).push((ids[i as int], ttl)));
            }
        } else {
            let c = channel_ids[i].clone();
            expired.push(c);
            proof {
                lemma_views_push(e0, c);
            }
        }
        i = i + 1;
    }
    proof {
        if n == channel_ids@.len() {
            assert(ids.take(n as int) =~= ids);
        } else {
            assert(ttls@.take(n as int) =~= ttls@);
        }
        lemma_split_tails(ids, ttls@, n as int);
    }
    (alive, expired)
}

/// Pairing stops at the shorter list: only the first `n` of each count.
proof fn lemma_split_tails(ids: Seq<Seq<char>>, ttls: Seq<i64>, n: int)
    requires
        n == (if ids.len() < ttls.len() { ids.len() as int } else { ttls.len() as int }),
    ensures
        slowmode_split(ids, ttls) == slowmode_split(ids.take(n), ttls.take(n)),
{
    if n > 0 {
        assert(ids.take(n).take(n - 1) =~= ids.take(n - 1));
        assert(ttls.take(n).take(n - 1) =~= ttls.take(n - 1));
    } else {
    }
}

} // verus!
