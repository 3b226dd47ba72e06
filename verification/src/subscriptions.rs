//! Per-connection subscription bookkeeping of the events gateway.
//!
//! A connected client keeps the set of topics it listens to, and a queued
//! change that the listener loop later flushes to the message broker.

use vstd::prelude::*;
use crate::active_servers::{ActiveServers, pass_changes};
use crate::text::{views, lemma_views_push};

verus! {

/// A user as held in a client's local cache.
pub struct User {
    pub id: String,
    pub username: String,
    pub discriminator: String,
}

impl User {
    /// A field-by-field copy of the user.
    pub fn duplicate(&self) -> (r: User)
        ensures
            r == *self,
    {
        User {
            id: self.id.clone(),
            username: self.username.clone(),
            discriminator: self.discriminator.clone(),
        }
    }
}

/// Enumeration representing some change in subscriptions
pub enum SubscriptionStateChange {
    /// No change
    Unchanged,
    /// Clear all subscriptions
    Reset,
    /// Append or remove subscriptions
    Change { add: Vec<String>, remove: Vec<String> },
}

/// What a queued subscription change means, over the topics' characters.
pub enum PendingView {
    Idle,
    Reset,
    Change { add: Seq<Seq<char>>, remove: Seq<Seq<char>> },
}

impl View for SubscriptionStateChange {
    type V = PendingView;

    open spec fn view(&self) -> PendingView {
        match self {
            SubscriptionStateChange::Unchanged => PendingView::Idle,
            SubscriptionStateChange::Reset => PendingView::Reset,
            SubscriptionStateChange::Change { add, remove } => PendingView::Change {
                add: views(add@),
                remove: views(remove@),
            },
        }
    }
}

/// A server whose member-event topic became active or expired.
pub enum ActiveServerChange {
    Subscribe(String),
    Unsubscribe(String),
}

/// Effect of subscribing to `s`: nothing if already subscribed, otherwise the
/// topic joins the set and is recorded in the queued change.
pub open spec fn insert_step(p: PendingView, set: Set<Seq<char>>, s: Seq<char>) -> (PendingView, Set<Seq<char>>) {
    if set.contains(s) {
        (p, set)
    } else {
        (
            match p {
                PendingView::Idle => PendingView::Change { add: seq![s], remove: seq![] },
                PendingView::Change { add, remove } => PendingView::Change { add: add.push(s), remove },
                PendingView::Reset => PendingView::Reset,
            },
            set.insert(s),
        )
    }
}

/// Effect of unsubscribing from `s`: nothing if not subscribed, otherwise the
/// topic leaves the set and is recorded in the queued change.
pub open spec fn remove_step(p: PendingView, set: Set<Seq<char>>, s: Seq<char>) -> (PendingView, Set<Seq<char>>) {
    if !set.contains(s) {
        (p, set)
    } else {
        (
            match p {
                PendingView::Idle => PendingView::Change { add: seq![], remove: seq![s] },
                PendingView::Change { add, remove } => PendingView::Change { add, remove: remove.push(s) },
                PendingView::Reset => PendingView::Reset,
            },
            set.remove(s),
        )
    }
}

/// The member-event topic of a server.
pub open spec fn member_topic(server_id: Seq<char>) -> Seq<char> {
    server_id + seq!['u']
}

/// The private topic of a user.
pub open spec fn private_topic_of(user_id: Seq<char>) -> Seq<char> {
    user_id + seq!['!']
}

/// The topic that a server change touches.
pub open spec fn change_topic(c: ActiveServerChange) -> Seq<char> {
    match c {
        ActiveServerChange::Subscribe(k) => member_topic(k@),
        ActiveServerChange::Unsubscribe(k) => member_topic(k@),
    }
}

/// Effect of one server change on the queued change and the set of topics.
pub open spec fn server_step(st: (PendingView, Set<Seq<char>>), c: ActiveServerChange) -> (PendingView, Set<Seq<char>>) {
    match c {
        ActiveServerChange::Subscribe(k) => insert_step(st.0, st.1, member_topic(k@)),
        ActiveServerChange::Unsubscribe(k) => remove_step(st.0, st.1, member_topic(k@)),
    }
}

/// Effect of a run of server changes, applied in order.
pub open spec fn server_fold(st: (PendingView, Set<Seq<char>>), cs: Seq<ActiveServerChange>) -> (PendingView, Set<Seq<char>>)
    decreases cs.len(),
{
    if cs.len() == 0 {
        st
    } else {
        server_step(server_fold(st, cs.drop_last()), cs.last())
    }
}

/// A run of server changes never asks to leave a subscribed topic while a
/// reset is queued (the gateway treats that as a broken invariant).
pub open spec fn server_changes_safe(st: (PendingView, Set<Seq<char>>), cs: Seq<ActiveServerChange>) -> bool {
    forall|i: int| 0 <= i < cs.len() ==> {
        let before = server_fold(st, cs.subrange(0, i));
        (#[trigger] cs[i] is Unsubscribe && before.0 is Reset) ==> !before.1.contains(change_topic(cs[i]))
    }
}

/// What applying the queued state with server changes `cs` gives, from
/// `before` to `after` with result `r`: when the changes are safe, the
/// queued change after following them (handed back), nothing queued, and
/// the topics after flushing it; otherwise nothing, and the queued state and
/// topics as they were.
pub open spec fn applied(before: State, cs: Seq<ActiveServerChange>, r: Option<SubscriptionStateChange>, after: State) -> bool {
    if before.cache.is_bot || server_changes_safe((before.state@, before.topics()), cs) {
        &&& r matches Some(x) && x@ == before.after_server_changes(cs).0
        &&& after.state@ == PendingView::Idle
        &&& after.topics() == flush_set(before.after_server_changes(cs).1, before.after_server_changes(cs).0)
    } else {
        &&& r is None
        &&& after.state@ == before.state@
        &&& after.topics() == before.topics()
    }
}

/// Following server changes never queues a reset where none was queued.
pub proof fn lemma_fold_not_reset(st: (PendingView, Set<Seq<char>>), cs: Seq<ActiveServerChange>)
    requires
        !(st.0 is Reset),
    ensures
        !(server_fold(st, cs).0 is Reset),
    decreases cs.len(),
{
    if cs.len() > 0 {
        lemma_fold_not_reset(st, cs.drop_last());
    }
}

/// The topics after flushing a queued change: additions, then removals.
pub open spec fn flush_set(set: Set<Seq<char>>, p: PendingView) -> Set<Seq<char>> {
    match p {
        PendingView::Change { add, remove } => set.union(add.to_set()).difference(remove.to_set()),
        _ => set,
    }
}

/// Dumb per-state cache
pub struct Cache {
    pub user_id: String,
    pub is_bot: bool,
    pub users: Vec<User>,
}

impl Cache {
    /// The cache holds a user record for the client's own user.
    pub open spec fn holds_own_user(&self) -> bool {
        exists|i: int| 0 <= i < self.users@.len() && #[trigger] self.users@[i].id@ == self.user_id@
    }
}

/// Client state
pub struct State {
    pub cache: Cache,
    pub session_id: String,
    pub private_topic: String,
    pub state: SubscriptionStateChange,
    pub subscribed: Vec<String>,
    pub active_servers: ActiveServers,
}

/// Position of the first string equal to `s`.
pub fn find_string(v: &Vec<String>, s: &String) -> (r: Option<usize>)
    ensures
        match r {
            Some(i) => i < v.len() && v@[i as int]@ == s@ && forall|j: int| 0 <= j < i ==> v@[j]@ != s@,
            None => forall|j: int| 0 <= j < v.len() ==> v@[j]@ != s@,
        },
{
    let mut i: usize = 0;
    while i < v.len()
        invariant
            i <= v.len(),
            forall|j: int| 0 <= j < i ==> v@[j]@ != s@,
        decreases v.len() - i,
    {
        if v[i] == *s {
            return Some(i);
        }
        i = i + 1;
    }
    None
}

proof fn lemma_views_remove(v: Seq<String>, i: int)
    requires
        0 <= i < v.len(),
    ensures
        views(v.remove(i)) == views(v).remove(i),
{
    assert(views(v.remove(i)) =~= views(v).remove(i));
}

proof fn lemma_no_dup_push_set(v: Seq<Seq<char>>, s: Seq<char>)
    requires
        v.no_duplicates(),
        !v.to_set().contains(s),
    ensures
        v.push(s).no_duplicates(),
        v.push(s).to_set() == v.to_set().insert(s),
{
    assert(v.push(s).to_set() =~= v.to_set().insert(s)) by {
        assert forall|x| v.push(s).to_set().contains(x) <==> v.to_set().insert(s).contains(x) by {
            if v.push(s).contains(x) && x != s {
                let k = choose|k: int| 0 <= k < v.push(s).len() && v.push(s)[k] == x;
                assert(v[k] == x);
            }
            if v.contains(x) {
                let k = choose|k: int| 0 <= k < v.len() && v[k] == x;
                assert(v.push(s)[k] == x);
            }
            if x == s {
                assert(v.push(s)[v.len() as int] == s);
            }
        }
    }
    assert forall|a: int, b: int| 0 <= a < b < v.push(s).len() implies v.push(s)[a] != v.push(s)[b] by {
        if b == v.len() {
            assert(v.contains(v[a]));
        }
    }
}

proof fn lemma_no_dup_remove_set(v: Seq<Seq<char>>, i: int)
    requires
        v.no_duplicates(),
        0 <= i < v.len(),
    ensures
        v.remove(i).no_duplicates(),
        v.remove(i).to_set() == v.to_set().remove(v[i]),
{
    let w = v.remove(i);
    assert(w.to_set() =~= v.to_set().remove(v[i])) by {
        assert forall|x| w.to_set().contains(x) <==> v.to_set().remove(v[i]).contains(x) by {
            if w.contains(x) {
                let k = choose|k: int| 0 <= k < w.len() && w[k] == x;
                if k < i {
                    assert(v[k] == x);
                    assert(k != i);
                } else {
                    assert(v[k + 1] == x);
                }
            }
            if v.contains(x) && x != v[i] {
                let k = choose|k: int| 0 <= k < v.len() && v[k] == x;
                if k < i {
                    assert(w[k] == x);
                } else {
                    assert(k != i);
                    assert(w[k - 1] == x);
                }
            }
        }
    }
    assert forall|a: int, b: int| 0 <= a < b < w.len() implies w[a] != w[b] by {
        let ia = if a < i { a } else { a + 1 };
        let ib = if b < i { b } else { b + 1 };
        assert(w[a] == v[ia]);
        assert(w[b] == v[ib]);
    }
}


proof fn lemma_push_to_set(v: Seq<Seq<char>>, s: Seq<char>)
    ensures
        v.push(s).to_set() == v.to_set().insert(s),
{
    assert(v.push(s).to_set() =~= v.to_set().insert(s)) by {
        assert forall|x| v.push(s).to_set().contains(x) <==> v.to_set().insert(s).contains(x) by {
            if v.push(s).contains(x) && x != s {
                let k = choose|k: int| 0 <= k < v.push(s).len() && v.push(s)[k] == x;
                assert(v[k] == x);
            }
            if v.contains(x) {
                let k = choose|k: int| 0 <= k < v.len() && v[k] == x;
                assert(v.push(s)[k] == x);
            }
            if x == s {
                assert(v.push(s)[v.len() as int] == s);
            }
        }
    }
}

/// Adds `s` to a list of distinct strings unless it is already there.
fn set_insert(v: &mut Vec<String>, s: &String)
    requires
        views(old(v)@).no_duplicates(),
    ensures
        views(final(v)@).no_duplicates(),
        views(final(v)@).to_set() == views(old(v)@).to_set().insert(s@),
{
    let ghost v0 = views(v@);
    match find_string(v, s) {
        Some(i) => {
            assert(v0[i as int] == s@);
            assert(v0.to_set().insert(s@) =~= v0.to_set());
        }
        None => {
            let ghost sv = v@;
            let c = s.clone();
            let ghost cg = c;
            v.push(c);
            proof {
                lemma_views_push(sv, cg);
                assert(!v0.to_set().contains(s@)) by {
                    if v0.contains(s@) {
                        let k = choose|k: int| 0 <= k < v0.len() && v0[k] == s@;
                        assert(sv[k]@ == s@);
                    }
                }
                lemma_no_dup_push_set(v0, s@);
            }
        }
    }
}

/// Removes `s` from a list of distinct strings if it is there.
fn set_remove(v: &mut Vec<String>, s: &String)
    requires
        views(old(v)@).no_duplicates(),
    ensures
        views(final(v)@).no_duplicates(),
        views(final(v)@).to_set() == views(old(v)@).to_set().remove(s@),
{
    let ghost v0 = views(v@);
    match find_string(v, s) {
        Some(i) => {
            let ghost sv = v@;
            v.remove(i);
            proof {
                lemma_views_remove(sv, i as int);
                lemma_no_dup_remove_set(v0, i as int);
            }
        }
        None => {
            assert(!v0.to_set().contains(s@)) by {
                if v0.contains(s@) {
                    let k = choose|k: int| 0 <= k < v0.len() && v0[k] == s@;
                    assert(v@[k]@ == s@);
                }
            }
            assert(v0.to_set().remove(s@) =~= v0.to_set());
        }
    }
}

impl State {
    /// The set of topics this client is subscribed to.
    pub open spec fn topics(&self) -> Set<Seq<char>> {
        views(self.subscribed@).to_set()
    }

    /// Well-formedness: no topic is held twice, the cache holds the
    /// client's own user, and the active-server cache has room.
    pub open spec fn wf(&self) -> bool {
        &&& views(self.subscribed@).no_duplicates()
        &&& self.cache.holds_own_user()
        &&& self.active_servers.capacity() > 0
    }

    /// Create state from User
    pub fn from(user: User, session_id: String) -> (r: State)
        ensures
            r.wf(),
            r.cache.user_id@ == user.id@,
            !r.cache.is_bot,
            r.cache.users@ == seq![user],
            r.session_id == session_id,
            r.private_topic@ == private_topic_of(user.id@),
            r.subscribed@.len() == 2,
            r.subscribed@[0]@ == private_topic_of(user.id@),
            r.subscribed@[1]@ == user.id@,
            r.topics() == set![private_topic_of(user.id@), user.id@],
            r.state@ == PendingView::Reset,
            r.active_servers.servers() == Set::<Seq<char>>::empty(),
            r.active_servers.capacity() == 5,
            r.active_servers.ttl_seconds() == 900,
    {
        let private_topic = user.id.clone().concat("!");
        proof {
            reveal_strlit("!");
        }
        let mut subscribed: Vec<String> = Vec::new();
        subscribed.push(private_topic.clone());
        subscribed.push(user.id.clone());
        let user_id = user.id.clone();
        let mut users: Vec<User> = Vec::new();
        users.push(user);
        let r = State {
            cache: Cache { user_id, is_bot: false, users },
            session_id,
            private_topic,
            state: SubscriptionStateChange::Reset,
            subscribed,
            active_servers: ActiveServers::new(),
        };
        proof {
            let v = views(r.subscribed@);
            assert(r.subscribed@.len() == 2);
            assert(r.subscribed@[0]@ == private_topic_of(r.cache.user_id@));
            assert(r.subscribed@[1]@ == r.cache.user_id@);
            assert(v =~= seq![private_topic_of(r.cache.user_id@), r.cache.user_id@]);
            assert(private_topic_of(r.cache.user_id@).len() != r.cache.user_id@.len());
            assert(v[0] != v[1]);
            assert(v.to_set() =~= set![private_topic_of(r.cache.user_id@), r.cache.user_id@]) by {
                assert(v.contains(v[0]));
                assert(v.contains(v[1]));
            }
            assert(r.cache.users@[0].id@ == r.cache.user_id@);
        }
        r
    }

    /// Clone the active user
    pub fn clone_user(&self) -> (r: User)
        requires
            self.wf(),
        ensures
            exists|i: int| 0 <= i < self.cache.users@.len() && self.cache.users@[i] == r && #[trigger] self.cache.users@[i].id@ == self.cache.user_id@,
            r.id@ == self.cache.user_id@,
    {
        let mut i: usize = 0;
        while i < self.cache.users.len()
            invariant
                self.wf(),
                i <= self.cache.users.len(),
                forall|j: int| 0 <= j < i ==> self.cache.users@[j].id@ != self.cache.user_id@,
            decreases self.cache.users.len() - i,
        {
            if self.cache.users[i].id == self.cache.user_id {
                return self.cache.users[i].duplicate();
            }
            i = i + 1;
        }
        proof {
            let k = choose|k: int| 0 <= k < self.cache.users@.len() && #[trigger] self.cache.users@[k].id@ == self.cache.user_id@;
            assert(k < i);
        }
        self.cache.users[0].duplicate()
    }

    /// Reset the current state
    pub fn reset_state(&mut self)
        requires
            old(self).wf(),
        ensures
            final(self).wf(),
            final(self).state@ == PendingView::Reset,
            final(self).topics() == Set::<Seq<char>>::empty(),
            final(self).subscribed@.len() == 0,
            final(self).cache == old(self).cache,
            final(self).session_id == old(self).session_id,
            final(self).private_topic == old(self).private_topic,
            final(self).active_servers == old(self).active_servers,
    {
        self.state = SubscriptionStateChange::Reset;
        self.subscribed.clear();
        assert(views(self.subscribed@).to_set() =~= Set::<Seq<char>>::empty());
    }

    /// Add a new subscription
    pub fn insert_subscription(&mut self, subscription: String)
        requires
            old(self).wf(),
        ensures
            final(self).wf(),
            (final(self).state@, final(self).topics()) == insert_step(old(self).state@, old(self).topics(), subscription@),
            final(self).cache == old(self).cache,
            final(self).session_id == old(self).session_id,
            final(self).private_topic == old(self).private_topic,
            final(self).active_servers == old(self).active_servers,
    {
        let ghost old_v = views(self.subscribed@);
        match find_string(&self.subscribed, &subscription) {
            Some(i) => {
                proof {
                    assert(old_v[i as int] == subscription@);
                    assert(old_v.contains(subscription@));
                }
                return;
            }
            None => {}
        }
        proof {
            assert(!old_v.to_set().contains(subscription@)) by {
                if old_v.contains(subscription@) {
                    let k = choose|k: int| 0 <= k < old_v.len() && old_v[k] == subscription@;
                    assert(self.subscribed@[k]@ == subscription@);
                }
            }
        }
        let mut taken = SubscriptionStateChange::Unchanged;
        std::mem::swap(&mut taken, &mut self.state);
        match taken {
            SubscriptionStateChange::Unchanged => {
                let mut add: Vec<String> = Vec::new();
                add.push(subscription.clone());
                self.state = SubscriptionStateChange::Change { add, remove: Vec::new() };
                proof {
                    assert(views(seq![subscription]) =~= seq![subscription@]);
                    assert(views(Seq::<String>::empty()) =~= Seq::<Seq<char>>::empty());
                }
            }
            SubscriptionStateChange::Change { add, remove } => {
                let mut add = add;
                let ghost a0 = add@;
                add.push(subscription.clone());
                proof { lemma_views_push(a0, subscription); }
                self.state = SubscriptionStateChange::Change { add, remove };
            }
            SubscriptionStateChange::Reset => {
                self.state = SubscriptionStateChange::Reset;
            }
        }
        let ghost sv = self.subscribed@;
        self.subscribed.push(subscription);
        proof {
            lemma_views_push(sv, subscription);
            lemma_no_dup_push_set(old_v, subscription@);
        }
    }

    /// Remove existing subscription
    pub fn remove_subscription(&mut self, subscription: &str)
        requires
            old(self).wf(),
            old(self).state@ is Reset ==> !old(self).topics().contains(subscription@),
        ensures
            final(self).wf(),
            (final(self).state@, final(self).topics()) == remove_step(old(self).state@, old(self).topics(), subscription@),
            final(self).cache == old(self).cache,
            final(self).session_id == old(self).session_id,
            final(self).private_topic == old(self).private_topic,
            final(self).active_servers == old(self).active_servers,
    {
        let ghost old_v = views(self.subscribed@);
        let target = subscription.to_owned();
        let ghost target_v = target;
        let i = match find_string(&self.subscribed, &target) {
            Some(i) => i,
            None => {
                proof {
                    assert(!old_v.to_set().contains(subscription@)) by {
                        if old_v.contains(subscription@) {
                            let k = choose|k: int| 0 <= k < old_v.len() && old_v[k] == subscription@;
                            assert(self.subscribed@[k]@ == subscription@);
                        }
                    }
                }
                return;
            }
        };
        proof {
            assert(old_v[i as int] == subscription@);
            assert(old_v.contains(subscription@));
        }
        let mut taken = SubscriptionStateChange::Unchanged;
        std::mem::swap(&mut taken, &mut self.state);
        match taken {
            SubscriptionStateChange::Unchanged => {
                let mut remove: Vec<String> = Vec::new();
                remove.push(target);
                self.state = SubscriptionStateChange::Change { add: Vec::new(), remove };
                proof {
                    assert(views(seq![target_v]) =~= seq![subscription@]);
                    assert(views(Seq::<String>::empty()) =~= Seq::<Seq<char>>::empty());
                }
            }
            SubscriptionStateChange::Change { add, remove } => {
                let mut remove = remove;
                let ghost r0 = remove@;
                remove.push(target);
                proof { lemma_views_push(r0, target); }
                self.state = SubscriptionStateChange::Change { add, remove };
            }
            SubscriptionStateChange::Reset => {
                self.state = SubscriptionStateChange::Reset;
            }
        }
        let ghost sv = self.subscribed@;
        self.subscribed.remove(i);
        proof {
            lemma_views_remove(sv, i as int);
            lemma_no_dup_remove_set(old_v, i as int);
        }
    }

    /// The queued change and topics after the given server changes, which
    /// only clients that are not bots follow.
    pub open spec fn after_server_changes(&self, changes: Seq<ActiveServerChange>) -> (PendingView, Set<Seq<char>>) {
        if self.cache.is_bot {
            (self.state@, self.topics())
        } else {
            server_fold((self.state@, self.topics()), changes)
        }
    }

    /// Follow the member-event topics of servers that became active or
    /// expired (clients that are bots do not follow them).
    pub fn apply_server_changes(&mut self, changes: &Vec<ActiveServerChange>)
        requires
            old(self).wf(),
            old(self).cache.is_bot || server_changes_safe((old(self).state@, old(self).topics()), changes@),
        ensures
            final(self).wf(),
            (final(self).state@, final(self).topics()) == old(self).after_server_changes(changes@),
            final(self).cache == old(self).cache,
            final(self).session_id == old(self).session_id,
            final(self).private_topic == old(self).private_topic,
            final(self).active_servers == old(self).active_servers,
    {
        if self.cache.is_bot {
            return;
        }
        let ghost st0 = (self.state@, self.topics());
        let ghost cache0 = self.cache;
        let ghost sid0 = self.session_id;
        let ghost pt0 = self.private_topic;
        let ghost as0 = self.active_servers;
        let mut i: usize = 0;
        assert(changes@.subrange(0, 0) =~= Seq::<ActiveServerChange>::empty());
        while i < changes.len()
            invariant
                self.wf(),
                !self.cache.is_bot,
                i <= changes.len(),
                server_changes_safe(st0, changes@),
                (self.state@, self.topics()) == server_fold(st0, changes@.subrange(0, i as int)),
                self.cache == cache0,
                self.session_id == sid0,
                self.private_topic == pt0,
                self.active_servers == as0,
            decreases changes.len() - i,
        {
            assert(changes@.subrange(0, i + 1).drop_last() =~= changes@.subrange(0, i as int));
            assert(changes@.subrange(0, i + 1).last() == changes@[i as int]);
            match &changes[i] {
                ActiveServerChange::Subscribe(k) => {
                    let topic = k.clone().concat("u");
                    proof {
                        reveal_strlit("u");
                        assert(topic@ == member_topic(k@));
                    }
                    self.insert_subscription(topic);
                }
                ActiveServerChange::Unsubscribe(k) => {
                    let topic = k.clone().concat("u");
                    proof {
                        reveal_strlit("u");
                        assert(topic@ == member_topic(k@));
                        assert(change_topic(changes@[i as int]) == topic@);
                    }
                    self.remove_subscription(topic.as_str());
                }
            }
            i = i + 1;
        }
        assert(changes@.subrange(0, changes@.len() as int) =~= changes@);
    }

    /// Take the queued change, leaving none queued, and bring the topics in
    /// line with it: its additions join, then its removals leave.
    pub fn flush_state(&mut self) -> (r: SubscriptionStateChange)
        requires
            old(self).wf(),
        ensures
            final(self).wf(),
            r@ == old(self).state@,
            final(self).state@ == PendingView::Idle,
            final(self).topics() == flush_set(old(self).topics(), old(self).state@),
            final(self).cache == old(self).cache,
            final(self).session_id == old(self).session_id,
            final(self).private_topic == old(self).private_topic,
            final(self).active_servers == old(self).active_servers,
    {
        let mut taken = SubscriptionStateChange::Unchanged;
        std::mem::swap(&mut taken, &mut self.state);
        if let SubscriptionStateChange::Change { add, remove } = &taken {
            let ghost t0 = self.topics();
            let mut i: usize = 0;
            while i < add.len()
                invariant
                    self.wf(),
                    i <= add.len(),
                    self.topics() == t0.union(views(add@).subrange(0, i as int).to_set()),
                    self.state@ == PendingView::Idle,
                    self.cache == old(self).cache,
                    self.session_id == old(self).session_id,
                    self.private_topic == old(self).private_topic,
                    self.active_servers == old(self).active_servers,
                decreases add.len() - i,
            {
                set_insert(&mut self.subscribed, &add[i]);
                proof {
                    let a = views(add@);
                    assert(a.subrange(0, i + 1).to_set() =~= a.subrange(0, i as int).to_set().insert(add@[i as int]@)) by {
                        assert(a.subrange(0, i + 1) =~= a.subrange(0, i as int).push(a[i as int]));
                        lemma_push_to_set(a.subrange(0, i as int), a[i as int]);
                    }
                    assert(self.topics() =~= t0.union(a.subrange(0, i + 1).to_set()));
                }
                i = i + 1;
            }
            let ghost t1 = self.topics();
            assert(views(add@).subrange(0, add@.len() as int) =~= views(add@));
            let mut j: usize = 0;
            while j < remove.len()
                invariant
                    self.wf(),
                    j <= remove.len(),
                    self.topics() == t1.difference(views(remove@).subrange(0, j as int).to_set()),
                    self.state@ == PendingView::Idle,
                    self.cache == old(self).cache,
                    self.session_id == old(self).session_id,
                    self.private_topic == old(self).private_topic,
                    self.active_servers == old(self).active_servers,
                decreases remove.len() - j,
            {
                set_remove(&mut self.subscribed, &remove[j]);
                proof {
                    let a = views(remove@);
                    assert(a.subrange(0, j + 1).to_set() =~= a.subrange(0, j as int).to_set().insert(remove@[j as int]@)) by {
                        assert(a.subrange(0, j + 1) =~= a.subrange(0, j as int).push(a[j as int]));
                        lemma_push_to_set(a.subrange(0, j as int), a[j as int]);
                    }
                    assert(self.topics() =~= t1.difference(a.subrange(0, j + 1).to_set()));
                }
                j = j + 1;
            }
            assert(views(remove@).subrange(0, remove@.len() as int) =~= views(remove@));
        }
        taken
    }

    /// Apply the queued state for given server changes: follow them, then
    /// flush the queued change and hand it back.
    pub fn apply_state_with(&mut self, changes: &Vec<ActiveServerChange>) -> (r: SubscriptionStateChange)
        requires
            old(self).wf(),
            old(self).cache.is_bot || server_changes_safe((old(self).state@, old(self).topics()), changes@),
        ensures
            final(self).wf(),
            r@ == old(self).after_server_changes(changes@).0,
            final(self).state@ == PendingView::Idle,
            final(self).topics() == flush_set(
                old(self).after_server_changes(changes@).1,
                old(self).after_server_changes(changes@).0,
            ),
            final(self).cache == old(self).cache,
            final(self).session_id == old(self).session_id,
            final(self).private_topic == old(self).private_topic,
            final(self).active_servers == old(self).active_servers,
    {
        self.apply_server_changes(changes);
        self.flush_state()
    }

    /// Whether following `changes` never asks to leave a subscribed topic
    /// while a reset is queued (see `server_changes_safe`).
    pub fn server_changes_ok(&self, changes: &Vec<ActiveServerChange>) -> (r: bool)
        requires
            self.wf(),
        ensures
            r == server_changes_safe((self.state@, self.topics()), changes@),
    {
        let ghost st0 = (self.state@, self.topics());
        if !matches!(self.state, SubscriptionStateChange::Reset) {
            proof {
                assert forall|i: int| 0 <= i < changes@.len() implies {
                    let before = server_fold(st0, changes@.subrange(0, i));
                    (#[trigger] changes@[i] is Unsubscribe && before.0 is Reset) ==> !before.1.contains(change_topic(changes@[i]))
                } by {
                    lemma_fold_not_reset(st0, changes@.subrange(0, i));
                }
            }
            return true;
        }
        let mut tv: Vec<String> = self.subscribed.clone();
        proof {
            assert(tv@ =~= self.subscribed@) by {
                assert forall|k: int| 0 <= k < tv@.len() implies tv@[k] == self.subscribed@[k] by {
                    assert(vstd::pervasive::cloned(self.subscribed@[k], tv@[k]));
                }
            }
            assert(changes@.subrange(0, 0) =~= Seq::<ActiveServerChange>::empty());
        }
        let mut i: usize = 0;
        while i < changes.len()
            invariant
                i <= changes.len(),
                st0 == (self.state@, self.topics()),
                st0.0 is Reset,
                views(tv@).no_duplicates(),
                server_fold(st0, changes@.subrange(0, i as int)) == (PendingView::Reset, views(tv@).to_set()),
                forall|j: int| 0 <= j < i ==> {
                    let before = server_fold(st0, changes@.subrange(0, j));
                    (#[trigger] changes@[j] is Unsubscribe && before.0 is Reset) ==> !before.1.contains(change_topic(changes@[j]))
                },
            decreases changes.len() - i,
        {
            let ghost before = server_fold(st0, changes@.subrange(0, i as int));
            assert(changes@.subrange(0, i + 1).drop_last() =~= changes@.subrange(0, i as int));
            assert(changes@.subrange(0, i + 1).last() == changes@[i as int]);
            match &changes[i] {
                ActiveServerChange::Subscribe(k) => {
                    let topic = k.clone().concat("u");
                    proof {
                        reveal_strlit("u");
                        assert(topic@ == member_topic(k@));
                    }
                    set_insert(&mut tv, &topic);
                    proof {
                        if before.1.contains(topic@) {
                            assert(before.1.insert(topic@) =~= before.1);
                        }
                    }
                },
                ActiveServerChange::Unsubscribe(k) => {
                    let topic = k.clone().concat("u");
                    proof {
                        reveal_strlit("u");
                        assert(topic@ == member_topic(k@));
                        assert(change_topic(changes@[i as int]) == topic@);
                    }
                    match find_string(&tv, &topic) {
                        Some(p) => {
                            proof {
                                assert(views(tv@)[p as int] == topic@);
                                assert(views(tv@).contains(topic@));
                                assert(views(tv@).to_set().contains(topic@));
                                assert(before.0 is Reset && before.1.contains(change_topic(changes@[i as int])));
                                assert(!server_changes_safe(st0, changes@));
                            }
                            return false;
                        },
                        None => {
                            proof {
                                assert(!views(tv@).to_set().contains(topic@)) by {
                                    if views(tv@).contains(topic@) {
                                        let q = choose|q: int| 0 <= q < views(tv@).len() && views(tv@)[q] == topic@;
                                        assert(tv@[q]@ == topic@);
                                    }
                                }
                            }
                        },
                    }
                },
            }
            i = i + 1;
        }
        proof {
            assert(changes@.subrange(0, changes@.len() as int) =~= changes@);
        }
        true
    }

    /// Apply currently queued state: unless the client is a bot, take the
    /// changes of the active servers (live ones are followed, expired ones
    /// left), then flush the queued change and hand it back. `None` when the
    /// changes would leave a subscribed topic while a reset is queued, which
    /// the gateway treats as a broken invariant; the queued state and the
    /// topics are then left as they were.
    pub fn apply_state(&mut self) -> (r: Option<SubscriptionStateChange>)
        requires
            old(self).wf(),
        ensures
            final(self).wf(),
            final(self).cache == old(self).cache,
            final(self).session_id == old(self).session_id,
            final(self).private_topic == old(self).private_topic,
            final(self).active_servers.capacity() == old(self).active_servers.capacity(),
            final(self).active_servers.ttl_seconds() == old(self).active_servers.ttl_seconds(),
            old(self).cache.is_bot ==> final(self).active_servers == old(self).active_servers && applied(
                *old(self),
                Seq::empty(),
                r,
                *final(self),
            ),
            !old(self).cache.is_bot ==> exists|cs: Seq<ActiveServerChange>|
                #[trigger] pass_changes(old(self).active_servers.servers(), final(self).active_servers.servers(), cs)
                    && applied(*old(self), cs, r, *final(self)),
    {
        let ghost s0 = *self;
        let changes: Vec<ActiveServerChange> = if self.cache.is_bot {
            Vec::new()
        } else {
            self.active_servers.changes()
        };
        proof {
            if s0.cache.is_bot {
                assert(changes@ =~= Seq::<ActiveServerChange>::empty());
            }
        }
        let ghost s1 = *self;
        assert(s1.after_server_changes(changes@) == s0.after_server_changes(changes@));
        if !self.cache.is_bot && !self.server_changes_ok(&changes) {
            return None;
        }
        let r = self.apply_state_with(&changes);
        proof {
            assert(applied(s0, changes@, Some(r), *self));
        }
        Some(r)
    }
}

/// Subscribing to a topic the client does not hold and then unsubscribing
/// from it leaves the client's topics as they were.
pub proof fn lemma_subscribe_then_unsubscribe(p: PendingView, topics: Set<Seq<char>>, s: Seq<char>)
    requires
        !topics.contains(s),
    ensures
        ({
            let a = insert_step(p, topics, s);
            remove_step(a.0, a.1, s).1 == topics
        }),
{
    let a = insert_step(p, topics, s);
    assert(a.1.remove(s) =~= topics);
}

/// Subscribing twice to a topic has the effect of subscribing once.
pub proof fn lemma_subscribe_idempotent(p: PendingView, topics: Set<Seq<char>>, s: Seq<char>)
    ensures
        ({
            let a = insert_step(p, topics, s);
            insert_step(a.0, a.1, s) == a
        }),
{
}

/// Unsubscribing twice from a topic has the effect of unsubscribing once.
pub proof fn lemma_unsubscribe_idempotent(p: PendingView, topics: Set<Seq<char>>, s: Seq<char>)
    ensures
        ({
            let a = remove_step(p, topics, s);
            remove_step(a.0, a.1, s) == a
        }),
{
}

/// While a reset is queued, subscribing and unsubscribing keep it queued:
/// the listener will resubscribe from scratch whatever happened meanwhile.
pub proof fn lemma_reset_absorbs_changes(topics: Set<Seq<char>>, s: Seq<char>)
    ensures
        insert_step(PendingView::Reset, topics, s).0 == PendingView::Reset,
        remove_step(PendingView::Reset, topics, s).0 == PendingView::Reset,
{
}

/// A flushed change leaves each topic it added and did not remove
/// subscribed, and each topic it removed unsubscribed.
pub proof fn lemma_flush_outcome(topics: Set<Seq<char>>, add: Seq<Seq<char>>, remove: Seq<Seq<char>>, s: Seq<char>)
    ensures
        add.contains(s) && !remove.contains(s) ==> flush_set(topics, PendingView::Change { add, remove }).contains(s),
        remove.contains(s) ==> !flush_set(topics, PendingView::Change { add, remove }).contains(s),
{
}


/// Leaving a subscribed topic outside a reset records it among the queued
/// removals, keeping the removals and additions already queued.
pub proof fn lemma_removal_is_queued(p: PendingView, set: Set<Seq<char>>, s: Seq<char>)
    requires
        !(p is Reset),
        set.contains(s),
    ensures
        remove_step(p, set, s).0 matches PendingView::Change { add, remove } && {
            &&& remove.contains(s)
            &&& !remove_step(p, set, s).1.contains(s)
            &&& (p matches PendingView::Change { add: a0, remove: r0 } ==> add == a0 && forall|x: Seq<char>|
                r0.contains(x) ==> #[trigger] remove.contains(x))
            &&& (p is Idle ==> add.len() == 0)
        },
{
    let r = remove_step(p, set, s).0;
    if let PendingView::Change { add, remove } = r {
        if let PendingView::Change { add: a0, remove: r0 } = p {
            assert(remove == r0.push(s));
            assert(remove[r0.len() as int] == s);
            assert forall|x: Seq<char>| r0.contains(x) implies #[trigger] remove.contains(x) by {
                let k = choose|k: int| 0 <= k < r0.len() && r0[k] == x;
                assert(remove[k] == x);
            }
        } else {
            assert(remove[0] == s);
        }
    }
}

/// Joining a topic not yet subscribed outside a reset records it among the
/// queued additions, keeping the additions and removals already queued.
pub proof fn lemma_addition_is_queued(p: PendingView, set: Set<Seq<char>>, s: Seq<char>)
    requires
        !(p is Reset),
        !set.contains(s),
    ensures
        insert_step(p, set, s).0 matches PendingView::Change { add, remove } && {
            &&& add.contains(s)
            &&& insert_step(p, set, s).1.contains(s)
            &&& (p matches PendingView::Change { add: a0, remove: r0 } ==> remove == r0 && forall|x: Seq<char>|
                a0.contains(x) ==> #[trigger] add.contains(x))
            &&& (p is Idle ==> remove.len() == 0)
        },
{
    let r = insert_step(p, set, s).0;
    if let PendingView::Change { add, remove } = r {
        if let PendingView::Change { add: a0, remove: r0 } = p {
            assert(add == a0.push(s));
            assert(add[a0.len() as int] == s);
            assert forall|x: Seq<char>| a0.contains(x) implies #[trigger] add.contains(x) by {
                let k = choose|k: int| 0 <= k < a0.len() && a0[k] == x;
                assert(add[k] == x);
            }
        } else {
            assert(add[0] == s);
        }
    }
}

/// Two topics left one after the other with nothing queued are both among
/// the queued removals, so the flush unsubscribes from both and neither is
/// held afterwards.
pub proof fn lemma_removals_accumulate(set: Set<Seq<char>>, s1: Seq<char>, s2: Seq<char>)
    requires
        set.contains(s1),
        set.contains(s2),
        s1 != s2,
    ensures
        ({
            let st1 = remove_step(PendingView::Idle, set, s1);
            let st2 = remove_step(st1.0, st1.1, s2);
            &&& st2.0 matches PendingView::Change { add, remove } && add.len() == 0 && remove.contains(s1) && remove.contains(s2)
            &&& !flush_set(st2.1, st2.0).contains(s1)
            &&& !flush_set(st2.1, st2.0).contains(s2)
        }),
{
    let st1 = remove_step(PendingView::Idle, set, s1);
    lemma_removal_is_queued(PendingView::Idle, set, s1);
    assert(st1.1.contains(s2));
    lemma_removal_is_queued(st1.0, st1.1, s2);
    let st2 = remove_step(st1.0, st1.1, s2);
    if let PendingView::Change { add, remove } = st2.0 {
        assert(remove.to_set().contains(s1));
        assert(remove.to_set().contains(s2));
    }
}

} // verus!
