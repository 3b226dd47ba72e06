//! Decisions of the message broker clients: the event stream consumer's
//! state, the channel pool, connection URLs, and what push notifications
//! carry and to whom.

use vstd::prelude::*;
use crate::drivers::{decimal, decimal_text};
use crate::gateway::is_subscribed;
use crate::settings::Rabbit;
use crate::subscriptions::User;
use crate::text::{views, lemma_views_push, push_char};

verus! {

/// What the event stream consumer must do before reading the next delivery.
pub struct EnsurePlan {
    /// Close the current broker consumer first.
    pub dispose: bool,
    /// Open a broker consumer with this topic filter and start offset.
    pub create: Option<(Vec<String>, Option<i64>)>,
}

/// The state of an event stream consumer: its tag, the topics it listens
/// to, whether they changed since the broker consumer was opened, whether
/// one is open, and the offset to resume from.
pub struct Consumer {
    pub tag: String,
    pub topics: Vec<String>,
    pub topics_changed: bool,
    pub has_consumer: bool,
    pub offset: Option<i64>,
}

impl Consumer {
    /// Create a new event stream consumer with the given tag.
    pub fn new(tag: String) -> (r: Consumer)
        ensures
            r.tag == tag,
            r.topics@.len() == 0,
            !r.topics_changed,
            !r.has_consumer,
            r.offset is None,
    {
        Consumer { tag, topics: Vec::new(), topics_changed: false, has_consumer: false, offset: None }
    }

    /// Update the set of topics
    pub fn set_topics(&mut self, topics: Vec<String>)
        ensures
            final(self).topics@ == topics@,
            final(self).topics_changed,
            final(self).tag == old(self).tag,
            final(self).has_consumer == old(self).has_consumer,
            final(self).offset == old(self).offset,
    {
        self.topics = topics;
        self.topics_changed = true;
    }

    /// Prepare to read: after a change of topics the open broker consumer
    /// is closed; when none is open, one is opened with the current topics
    /// as filter, resuming from the recorded offset.
    pub fn ensure_consumer(&mut self) -> (r: EnsurePlan)
        ensures
            r.dispose == old(self).topics_changed,
            (r.create is Some) == (old(self).topics_changed || !old(self).has_consumer),
            r.create matches Some((filter, offset)) ==> views(filter@) == views(old(self).topics@)
                && offset == old(self).offset,
            final(self).has_consumer,
            !final(self).topics_changed,
            final(self).topics@ == old(self).topics@,
            final(self).tag == old(self).tag,
            final(self).offset == old(self).offset,
    {
        let dispose = self.topics_changed;
        if dispose {
            self.dispose_consumer();
            self.topics_changed = false;
        }
        let create = if !self.has_consumer {
            self.has_consumer = true;
            Some((self.topics.clone(), self.offset))
        } else {
            None
        };
        EnsurePlan { dispose, create }
    }

    /// Close the active consumer if one exists
    pub fn dispose_consumer(&mut self)
        ensures
            !final(self).has_consumer,
            final(self).topics@ == old(self).topics@,
            final(self).topics_changed == old(self).topics_changed,
            final(self).tag == old(self).tag,
            final(self).offset == old(self).offset,
    {
        self.has_consumer = false;
    }

    /// A delivery at `stream_offset`, tagged with `filter_value`: the offset
    /// to resume from moves past it, and it is handed on only when it is for
    /// one of the consumer's topics (the broker's filter may let others
    /// through).
    pub fn on_delivery(&mut self, stream_offset: i64, filter_value: &String) -> (r: bool)
        requires
            stream_offset < i64::MAX,
        ensures
            r == views(old(self).topics@).contains(filter_value@),
            final(self).offset == Some((stream_offset + 1) as i64),
            final(self).topics@ == old(self).topics@,
            final(self).topics_changed == old(self).topics_changed,
            final(self).has_consumer == old(self).has_consumer,
            final(self).tag == old(self).tag,
    {
        self.offset = Some(stream_offset + 1);
        is_subscribed(&self.topics, filter_value)
    }
}

/// The positions of the connected channels, in order.
pub open spec fn connected_positions(connected: Seq<bool>) -> Seq<int>
    decreases connected.len(),
{
    if connected.len() == 0 {
        Seq::empty()
    } else {
        let rest = connected_positions(connected.drop_last());
        if connected.last() {
            rest.push(connected.len() - 1)
        } else {
            rest
        }
    }
}

/// Which channels of the pool to keep and which to hand out.
pub struct PoolChoice {
    /// The positions of the channels kept (the connected ones), in order.
    pub keep: Vec<usize>,
    /// The position of the first kept channel with fewer users than the
    /// limit, or `None` when a new channel must be opened.
    pub pick: Option<usize>,
}

/// Choose from a pool of channels, given whether each is connected and how
/// many users each has: keep the connected ones and hand out the first of
/// them with fewer than `limit` users.
pub fn pool_choice(connected: &Vec<bool>, users: &Vec<usize>, limit: usize) -> (r: PoolChoice)
    requires
        connected@.len() == users@.len(),
    ensures
        r.keep@.map_values(|i: usize| i as int) == connected_positions(connected@),
        match r.pick {
            Some(p) => p < users@.len() && connected@[p as int] && users@[p as int] < limit
                && forall|j: int| 0 <= j < p && connected@[j] ==> users@[j] >= limit,
            None => forall|j: int| 0 <= j < users@.len() && connected@[j] ==> users@[j] >= limit,
        },
{
    let mut keep: Vec<usize> = Vec::new();
    let mut pick: Option<usize> = None;
    let mut i: usize = 0;
    while i < connected.len()
        invariant
            connected@.len() == users@.len(),
            i <= connected@.len(),
            keep@.map_values(|k: usize| k as int) == connected_positions(connected@.take(i as int)),
            match pick {
                Some(p) => p < i && connected@[p as int] && users@[p as int] < limit
                    && forall|j: int| 0 <= j < p && connected@[j] ==> users@[j] >= limit,
                None => forall|j: int| 0 <= j < i && connected@[j] ==> users@[j] >= limit,
            },
        decreases connected@.len() - i,
    {
        proof {
            assert(connected@.take(i + 1).drop_last() =~= connected@.take(i as int));
        }
        if connected[i] {
            let ghost before = keep@;
            keep.push(i);
            proof {
                assert(keep@.map_values(|k: usize| k as int) =~= before.map_values(|k: usize| k as int).push(i as int));
            }
            if pick.is_none() && users[i] < limit {
                pick = Some(i);
            }
        }
        i = i + 1;
    }
    proof {
        assert(connected@.take(connected@.len() as int) =~= connected@);
    }
    PoolChoice { keep, pick }
}

/// `a` followed by `b`.
fn append_text(a: &mut String, b: &str)
    ensures
        final(a)@ == old(a)@ + b@,
{
    let cs = crate::text::chars_of(b);
    let ghost start = a@;
    let mut i: usize = 0;
    while i < cs.len()
        invariant
            cs@ == b@,
            i <= cs@.len(),
            a@ == start + cs@.take(i as int),
        decreases cs@.len() - i,
    {
        push_char(a, cs[i]);
        proof {
            assert(cs@.take(i + 1) =~= cs@.take(i as int).push(cs@[i as int]));
        }
        i = i + 1;
    }
    proof {
        assert(cs@.take(cs@.len() as int) =~= cs@);
    }
}

/// The URL of a broker connection:
/// `amqp://{username}:{password}@{host}:{port}` followed by `path`.
pub open spec fn amqp_url_spec(rabbit: Rabbit, path: Seq<char>) -> Seq<char> {
    seq!['a', 'm', 'q', 'p', ':', '/', '/'] + rabbit.username@ + seq![':'] + rabbit.password@ + seq!['@']
        + rabbit.host@ + seq![':'] + decimal(rabbit.port as nat) + path
}

/// The URL of a broker connection to `rabbit`, followed by `path`.
pub fn amqp_url(rabbit: &Rabbit, path: &str) -> (r: String)
    ensures
        r@ == amqp_url_spec(*rabbit, path@),
{
    let mut url = String::from_str("amqp://");
    proof {
        reveal_strlit("amqp://");
        assert("amqp://"@ =~= seq!['a', 'm', 'q', 'p', ':', '/', '/']);
    }
    append_text(&mut url, rabbit.username.as_str());
    push_char(&mut url, ':');
    append_text(&mut url, rabbit.password.as_str());
    push_char(&mut url, '@');
    append_text(&mut url, rabbit.host.as_str());
    push_char(&mut url, ':');
    let digits = decimal_text(rabbit.port as u64);
    let ghost start = url@;
    let mut i: usize = 0;
    while i < digits.len()
        invariant
            i <= digits@.len(),
            url@ == start + digits@.take(i as int),
        decreases digits@.len() - i,
    {
        push_char(&mut url, digits[i]);
        proof {
            assert(digits@.take(i + 1) =~= digits@.take(i as int).push(digits@[i as int]));
        }
        i = i + 1;
    }
    proof {
        assert(digits@.take(digits@.len() as int) =~= digits@);
    }
    append_text(&mut url, path);
    proof {
        assert(url@ =~= amqp_url_spec(*rabbit, path@));
    }
    url
}

/// `s` without later repeats of an element, keeping first occurrences.
pub open spec fn dedup(s: Seq<Seq<char>>) -> Seq<Seq<char>>
    decreases s.len(),
{
    if s.len() == 0 {
        Seq::empty()
    } else {
        let d = dedup(s.drop_last());
        if d.contains(s.last()) {
            d
        } else {
            d.push(s.last())
        }
    }
}

/// The users a message notification goes to: the recipients who are not
/// online, each once, in the order of their first mention.
pub open spec fn offline_spec(recipients: Seq<Seq<char>>, online: Seq<Seq<char>>) -> Seq<Seq<char>> {
    dedup(recipients.filter(|x: Seq<char>| !online.contains(x)))
}

/// The recipients of a message notification who are not online, each once.
/// With no recipients at all, there is nothing to send (`None`).
pub fn message_targets(recipients: &Vec<String>, online: &Vec<String>) -> (r: Option<Vec<String>>)
    ensures
        match r {
            None => recipients@.len() == 0,
            Some(v) => recipients@.len() > 0 && views(v@) == offline_spec(views(recipients@), views(online@)),
        },
{
    if recipients.len() == 0 {
        return None;
    }
    let ghost rv = views(recipients@);
    let ghost ov = views(online@);
    let ghost p = |x: Seq<char>| !ov.contains(x);
    let mut out: Vec<String> = Vec::new();
    let mut i: usize = 0;
    while i < recipients.len()
        invariant
            rv == views(recipients@),
            ov == views(online@),
            p == (|x: Seq<char>| !ov.contains(x)),
            i <= recipients@.len(),
            views(out@) == dedup(rv.take(i as int).filter(p)),
        decreases recipients@.len() - i,
    {
        let x = &recipients[i];
        proof {
            reveal(Seq::filter);
            assert(rv.take(i + 1).drop_last() =~= rv.take(i as int));
            assert(rv.take(i + 1).last() == x@);
        }
        if !is_subscribed(online, x) {
            let ghost f = rv.take(i as int).filter(p);
            proof {
                assert(rv.take(i + 1).filter(p) == f.push(x@));
                assert(f.push(x@).drop_last() =~= f);
            }
            if !is_subscribed(&out, x) {
                let ghost before = out@;
                out.push(x.clone());
                proof {
                    lemma_views_push(before, *x);
                }
            }
        }
        i = i + 1;
    }
    proof {
        assert(rv.take(recipients@.len() as int) =~= rv);
    }
    Some(out)
}

/// The deduplication header of a badge update: the user and the channel,
/// joined by `-`.
pub fn ack_dedup_header(user_id: &String, channel_id: &String) -> (r: String)
    ensures
        r@ == user_id@ + seq!['-'] + channel_id@,
{
    let mut h = user_id.clone();
    push_char(&mut h, '-');
    append_text(&mut h, channel_id.as_str());
    h
}

/// A friend request was accepted.
pub struct FRAcceptedPayload {
    pub accepted_user: User,
    pub user: String,
}

/// A friend request was received.
pub struct FRReceivedPayload {
    pub from_user: User,
    pub user: String,
}

/// A generic notification.
pub struct GenericPayload {
    pub title: String,
    pub body: String,
    pub icon: Option<String>,
    pub user: User,
}

/// A badge update for a channel.
pub struct AckPayload {
    pub user_id: String,
    pub channel_id: String,
    pub message_id: String,
}

impl FRAcceptedPayload {
    /// Tell the user who sent the request that `accepted_request_user`
    /// accepted it.
    pub fn new(accepted_request_user: &User, sent_request_user: &User) -> (r: FRAcceptedPayload)
        ensures
            r.accepted_user == *accepted_request_user,
            r.user == sent_request_user.id,
    {
        FRAcceptedPayload { accepted_user: accepted_request_user.duplicate(), user: sent_request_user.id.clone() }
    }
}

impl FRReceivedPayload {
    /// Tell `received_request_user` that `sent_request_user` sent a request.
    pub fn new(received_request_user: &User, sent_request_user: &User) -> (r: FRReceivedPayload)
        ensures
            r.from_user == *sent_request_user,
            r.user == received_request_user.id,
    {
        FRReceivedPayload { from_user: sent_request_user.duplicate(), user: received_request_user.id.clone() }
    }
}

impl GenericPayload {
    /// A generic notification for `user`.
    pub fn new(user: &User, title: String, body: String, icon: Option<String>) -> (r: GenericPayload)
        ensures
            r.user == *user,
            r.title == title,
            r.body == body,
            r.icon == icon,
    {
        GenericPayload { title, body, icon, user: user.duplicate() }
    }
}

} // verus!
