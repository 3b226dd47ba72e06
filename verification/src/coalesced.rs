//! Coalescing of duplicate actions: an action whose id is already running,
//! queued or cached is not run again; at most `max_concurrent` actions run at
//! once and the rest wait, first come first served, in a bounded queue.
//!
//! This module holds the bookkeeping and the decisions; running the actions
//! and waiting for their results is left to the caller.

use vstd::prelude::*;
use crate::subscriptions::find_string;
use crate::text::views;

verus! {

/// Config values for the coalescion service.
pub struct CoalescionServiceConfig {
    /// How many tasks are running at once
    pub max_concurrent: Option<usize>,
    /// Whether to queue tasks once `max_concurrent` is reached
    pub queue_requests: bool,
    /// Max amount of tasks in the buffer queue
    pub max_queue: Option<usize>,
}

impl Default for CoalescionServiceConfig {
    fn default() -> (r: Self)
        ensures
            r.max_concurrent == Some(100usize),
            r.queue_requests,
            r.max_queue == Some(100usize),
    {
        CoalescionServiceConfig { max_concurrent: Some(100), queue_requests: true, max_queue: Some(100) }
    }
}

/// Coalescion service error.
#[derive(Clone, Copy, PartialEq, Eq, Structural, Debug, Hash)]
pub enum Error {
    /// Failed to receive the actions return from the channel for unknown reason
    RecvError,
    /// Reached the `max_concurrent` amount of actions running at once and could not queue the action
    MaxConcurrent,
    /// Reached the `max_queue` amount of actions in the queue
    MaxQueue,
    /// Failed to downcast the type to the current type being returned, this will be most likely an ID collision
    DowncastError,
}

impl Error {
    /// The human-readable description of the error.
    pub fn message(&self) -> (r: &'static str)
        ensures
            r@ == match self {
                Error::RecvError => "Unable to receive data from the channel"@,
                Error::MaxConcurrent => "Max number of tasks running at once"@,
                Error::MaxQueue => "Max number of tasks in queue"@,
                Error::DowncastError => "Failed to downcast type, possible key collision with different types"@,
            },
    {
        match self {
            Error::RecvError => "Unable to receive data from the channel",
            Error::MaxConcurrent => "Max number of tasks running at once",
            Error::MaxQueue => "Max number of tasks in queue",
            Error::DowncastError => "Failed to downcast type, possible key collision with different types",
        }
    }
}

/// What to do with a request to execute an action.
pub enum ExecutePlan {
    /// A cached result exists for the id: hand it back.
    UseCached,
    /// An action with the same id is running: wait for its result.
    JoinRunning,
    /// Run the action now.
    RunNow,
    /// An action with the same id waits in the queue: wait for its result.
    JoinQueued,
    /// Wait in the queue for a free slot.
    Enqueue,
    /// Refuse with the given error.
    Reject(Error),
}

/// The decision for a request, as the service makes it.
pub open spec fn plan_spec(
    cfg: CoalescionServiceConfig,
    running: Seq<Seq<char>>,
    queue: Seq<Seq<char>>,
    id: Seq<char>,
    cached: bool,
) -> ExecutePlan {
    if cached {
        ExecutePlan::UseCached
    } else if running.contains(id) {
        ExecutePlan::JoinRunning
    } else if cfg.max_concurrent is Some && running.len() >= cfg.max_concurrent->0 {
        if cfg.queue_requests {
            if queue.contains(id) {
                ExecutePlan::JoinQueued
            } else if cfg.max_queue is Some && queue.len() >= cfg.max_queue->0 {
                ExecutePlan::Reject(Error::MaxQueue)
            } else {
                ExecutePlan::Enqueue
            }
        } else {
            ExecutePlan::Reject(Error::MaxConcurrent)
        }
    } else {
        ExecutePlan::RunNow
    }
}

/// Whether a free slot exists under the concurrency limit.
pub open spec fn has_slot(cfg: CoalescionServiceConfig, running_len: int) -> bool {
    cfg.max_concurrent is None || running_len < cfg.max_concurrent->0
}

/// Bookkeeping of the coalescion service: the ids of running actions and the
/// ids waiting in the queue, oldest first.
pub struct CoalescionService {
    config: CoalescionServiceConfig,
    running: Vec<String>,
    queue: Vec<String>,
}

impl CoalescionService {
    /// The configuration.
    pub closed spec fn cfg(&self) -> CoalescionServiceConfig {
        self.config
    }

    /// Ids of the running actions.
    pub closed spec fn running(&self) -> Seq<Seq<char>> {
        views(self.running@)
    }

    /// Ids of the queued actions, oldest first.
    pub closed spec fn queue(&self) -> Seq<Seq<char>> {
        views(self.queue@)
    }

    /// No id runs twice or waits twice, and no id both runs and waits.
    pub open spec fn wf(&self) -> bool {
        &&& self.running().no_duplicates()
        &&& self.queue().no_duplicates()
        &&& self.running().disjoint(self.queue())
    }

    /// A service with the default configuration.
    pub fn new() -> (r: Self)
        ensures
            r.wf(),
            r.cfg().max_concurrent == Some(100usize),
            r.cfg().queue_requests,
            r.cfg().max_queue == Some(100usize),
            r.running().len() == 0,
            r.queue().len() == 0,
    {
        Self::from_config(CoalescionServiceConfig::default())
    }

    /// A service with the given configuration.
    pub fn from_config(config: CoalescionServiceConfig) -> (r: Self)
        ensures
            r.wf(),
            r.cfg() == config,
            r.running().len() == 0,
            r.queue().len() == 0,
    {
        let r = CoalescionService { config, running: Vec::new(), queue: Vec::new() };
        assert(r.running() =~= Seq::<Seq<char>>::empty());
        assert(r.queue() =~= Seq::<Seq<char>>::empty());
        r
    }

    /// Decide what to do with a request to execute the action `id`
    /// (`cached` tells whether a cached result exists for it).
    pub fn plan(&self, id: &String, cached: bool) -> (r: ExecutePlan)
        ensures
            r == plan_spec(self.cfg(), self.running(), self.queue(), id@, cached),
    {
        if cached {
            return ExecutePlan::UseCached;
        }
        if let Some(i) = find_string(&self.running, id) {
            assert(self.running()[i as int] == id@);
            return ExecutePlan::JoinRunning;
        }
        proof { lemma_not_found_not_contains(self.running@, id@); }
        match self.config.max_concurrent {
            Some(max_concurrent) if self.running.len() >= max_concurrent => {
                if self.config.queue_requests {
                    if let Some(i) = find_string(&self.queue, id) {
                        assert(self.queue()[i as int] == id@);
                        return ExecutePlan::JoinQueued;
                    }
                    proof { lemma_not_found_not_contains(self.queue@, id@); }
                    match self.config.max_queue {
                        Some(max_queue) if self.queue.len() >= max_queue => ExecutePlan::Reject(Error::MaxQueue),
                        _ => ExecutePlan::Enqueue,
                    }
                } else {
                    ExecutePlan::Reject(Error::MaxConcurrent)
                }
            },
            _ => ExecutePlan::RunNow,
        }
    }

    /// Record that the action `id` starts running.
    pub fn begin(&mut self, id: String)
        requires
            old(self).wf(),
            !old(self).running().contains(id@),
            !old(self).queue().contains(id@),
        ensures
            final(self).wf(),
            final(self).cfg() == old(self).cfg(),
            final(self).running() == old(self).running().push(id@),
            final(self).queue() == old(self).queue(),
    {
        let ghost r0 = self.running@;
        self.running.push(id);
        proof {
            assert(views(r0.push(id)) =~= views(r0).push(id@));
            lemma_push_distinct(views(r0), id@);
            assert forall|a: int, b: int| 0 <= a < self.running().len() && 0 <= b < self.queue().len() implies self.running()[a] != self.queue()[b] by {
                if a == views(r0).len() {
                    assert(self.queue().contains(self.queue()[b]));
                } else {
                    assert(views(r0)[a] == self.running()[a]);
                }
            }
        }
    }

    /// Record that the action `id` finished; it no longer runs.
    pub fn finish(&mut self, id: &String)
        requires
            old(self).wf(),
        ensures
            final(self).wf(),
            final(self).cfg() == old(self).cfg(),
            final(self).running().to_set() == old(self).running().to_set().remove(id@),
            !final(self).running().contains(id@),
            final(self).running().len() == if old(self).running().contains(id@) { old(self).running().len() - 1 } else { old(self).running().len() as int },
            final(self).queue() == old(self).queue(),
    {
        match find_string(&self.running, id) {
            Some(i) => {
                let ghost r0 = self.running@;
                self.running.remove(i);
                proof {
                    assert(views(r0.remove(i as int)) =~= views(r0).remove(i as int));
                    lemma_remove_distinct(views(r0), i as int);
                    assert(views(r0).contains(id@)) by { assert(views(r0)[i as int] == id@); }
                    assert forall|a: int, b: int| 0 <= a < self.running().len() && 0 <= b < self.queue().len() implies self.running()[a] != self.queue()[b] by {
                        let k = if a < i { a } else { a + 1 };
                        assert(self.running()[a] == views(r0)[k]);
                    }
                }
            },
            None => {
                proof {
                    lemma_not_found_not_contains(self.running@, id@);
                    assert(self.running().to_set().remove(id@) =~= self.running().to_set());
                }
            },
        }
    }

    /// Put the action `id` at the back of the queue.
    pub fn enqueue(&mut self, id: String)
        requires
            old(self).wf(),
            !old(self).running().contains(id@),
            !old(self).queue().contains(id@),
        ensures
            final(self).wf(),
            final(self).cfg() == old(self).cfg(),
            final(self).running() == old(self).running(),
            final(self).queue() == old(self).queue().push(id@),
    {
        let ghost q0 = self.queue@;
        self.queue.push(id);
        proof {
            assert(views(q0.push(id)) =~= views(q0).push(id@));
            lemma_push_distinct(views(q0), id@);
            assert forall|a: int, b: int| 0 <= a < self.running().len() && 0 <= b < self.queue().len() implies self.running()[a] != self.queue()[b] by {
                if b == views(q0).len() {
                    assert(self.running().contains(self.running()[a]));
                } else {
                    assert(views(q0)[b] == self.queue()[b]);
                }
            }
        }
    }

    /// Whether the queued action `id` may start: a slot is free and it is the
    /// oldest in the queue.
    pub fn queue_turn(&self, id: &String) -> (r: bool)
        ensures
            r == (has_slot(self.cfg(), self.running().len() as int) && self.queue().len() > 0 && self.queue()[0] == id@),
    {
        let slot = match self.config.max_concurrent {
            Some(m) => self.running.len() < m,
            None => true,
        };
        slot && self.queue.len() > 0 && self.queue[0] == *id
    }

    /// Take the oldest queued action out of the queue and start it.
    pub fn start_next(&mut self) -> (r: String)
        requires
            old(self).wf(),
            old(self).queue().len() > 0,
        ensures
            final(self).wf(),
            final(self).cfg() == old(self).cfg(),
            r@ == old(self).queue()[0],
            final(self).queue() == old(self).queue().drop_first(),
            final(self).running() == old(self).running().push(r@),
    {
        let ghost q0 = self.queue@;
        let id = self.queue.remove(0);
        proof {
            assert(views(q0.remove(0)) =~= views(q0).remove(0));
            assert(views(q0).remove(0) =~= views(q0).drop_first());
            lemma_remove_distinct(views(q0), 0);
            assert(views(q0)[0] == id@);
            assert(self.running().disjoint(self.queue())) by {
                assert forall|a: int, b: int| 0 <= a < self.running().len() && 0 <= b < self.queue().len() implies self.running()[a] != self.queue()[b] by {
                    assert(self.queue()[b] == views(q0)[b + 1]);
                }
            }
            assert(!self.queue().contains(id@)) by {
                if self.queue().contains(id@) {
                    let k = choose|k: int| 0 <= k < self.queue().len() && self.queue()[k] == id@;
                    assert(views(q0)[k + 1] == views(q0)[0]);
                }
            }
            assert(!self.running().contains(id@)) by {
                if self.running().contains(id@) {
                    let k = choose|k: int| 0 <= k < self.running().len() && self.running()[k] == id@;
                    assert(views(q0).contains(views(q0)[0]));
                }
            }
        }
        let ghost id_g = id;
        let c = id.clone();
        self.begin(c);
        id
    }

    /// Fetches the amount of currently running tasks
    pub fn current_task_count(&self) -> (r: usize)
        ensures
            r == self.running().len(),
    {
        self.running.len()
    }

    /// Fetches the current length of the queue
    pub fn current_queue_len(&self) -> (r: usize)
        ensures
            r == self.queue().len(),
    {
        self.queue.len()
    }
}

proof fn lemma_not_found_not_contains(v: Seq<String>, s: Seq<char>)
    requires
        forall|j: int| 0 <= j < v.len() ==> v[j]@ != s,
    ensures
        !views(v).contains(s),
{
    if views(v).contains(s) {
        let k = choose|k: int| 0 <= k < views(v).len() && views(v)[k] == s;
        assert(v[k]@ == s);
    }
}

proof fn lemma_push_distinct(v: Seq<Seq<char>>, s: Seq<char>)
    requires
        v.no_duplicates(),
        !v.contains(s),
    ensures
        v.push(s).no_duplicates(),
{
    assert forall|a: int, b: int| 0 <= a < b < v.push(s).len() implies v.push(s)[a] != v.push(s)[b] by {
        if b == v.len() {
            assert(v.contains(v[a]));
        }
    }
}

proof fn lemma_remove_distinct(v: Seq<Seq<char>>, i: int)
    requires
        v.no_duplicates(),
        0 <= i < v.len(),
    ensures
        v.remove(i).no_duplicates(),
        !v.remove(i).contains(v[i]),
        v.remove(i).to_set() == v.to_set().remove(v[i]),
{
    let w = v.remove(i);
    assert forall|a: int, b: int| 0 <= a < b < w.len() implies w[a] != w[b] by {
        let ia = if a < i { a } else { a + 1 };
        let ib = if b < i { b } else { b + 1 };
        assert(w[a] == v[ia]);
        assert(w[b] == v[ib]);
    }
    if w.contains(v[i]) {
        let k = choose|k: int| 0 <= k < w.len() && w[k] == v[i];
        let ik = if k < i { k } else { k + 1 };
        assert(w[k] == v[ik]);
    }
    assert(w.to_set() =~= v.to_set().remove(v[i])) by {
        assert forall|x| w.to_set().contains(x) <==> v.to_set().remove(v[i]).contains(x) by {
            if w.contains(x) {
                let k = choose|k: int| 0 <= k < w.len() && w[k] == x;
                let ik = if k < i { k } else { k + 1 };
                assert(v[ik] == x);
            }
            if v.contains(x) && x != v[i] {
                let k = choose|k: int| 0 <= k < v.len() && v[k] == x;
                if k < i {
                    assert(w[k] == x);
                } else {
                    assert(k != i);
                    assert(w[k - 1] == x);
                }
            }
        }
    }
}

/// An action is never started twice at once: the service runs an action
/// only when none with the same id runs or waits, and only under the
/// concurrency limit, so starting it keeps the number of running actions
/// within that limit.
pub proof fn lemma_run_now_respects_limits(
    cfg: CoalescionServiceConfig,
    running: Seq<Seq<char>>,
    queue: Seq<Seq<char>>,
    id: Seq<char>,
)
    requires
        plan_spec(cfg, running, queue, id, false) is RunNow,
    ensures
        !running.contains(id),
        cfg.max_concurrent is Some ==> running.push(id).len() <= cfg.max_concurrent->0,
{
}

/// Waiting in the queue is only chosen for an id that neither runs nor
/// waits, and only while the queue is below its bound, so the queue never
/// grows past `max_queue`.
pub proof fn lemma_enqueue_respects_limits(
    cfg: CoalescionServiceConfig,
    running: Seq<Seq<char>>,
    queue: Seq<Seq<char>>,
    id: Seq<char>,
)
    requires
        plan_spec(cfg, running, queue, id, false) is Enqueue,
    ensures
        !running.contains(id),
        !queue.contains(id),
        cfg.queue_requests,
        cfg.max_queue is Some ==> queue.push(id).len() <= cfg.max_queue->0,
{
}

/// A request for an id whose result is cached, or whose action already
/// runs, never starts a new action.
pub proof fn lemma_duplicates_are_coalesced(
    cfg: CoalescionServiceConfig,
    running: Seq<Seq<char>>,
    queue: Seq<Seq<char>>,
    id: Seq<char>,
    cached: bool,
)
    requires
        cached || running.contains(id),
    ensures
        plan_spec(cfg, running, queue, id, cached) is UseCached || plan_spec(cfg, running, queue, id, cached) is JoinRunning,
{
}

/// Without a concurrency limit nothing is ever queued or refused.
pub proof fn lemma_unlimited_never_waits(
    cfg: CoalescionServiceConfig,
    running: Seq<Seq<char>>,
    queue: Seq<Seq<char>>,
    id: Seq<char>,
    cached: bool,
)
    requires
        cfg.max_concurrent is None,
    ensures
        !(plan_spec(cfg, running, queue, id, cached) is Enqueue),
        !(plan_spec(cfg, running, queue, id, cached) is Reject),
{
}


/// A request that finds the concurrency limit reached waits in the queue
/// when queueing is on, its id neither runs nor waits, and the queue has
/// room: below `max_queue`, or any length when there is no `max_queue`.
pub proof fn lemma_waits_when_queue_has_room(
    cfg: CoalescionServiceConfig,
    running: Seq<Seq<char>>,
    queue: Seq<Seq<char>>,
    id: Seq<char>,
)
    requires
        !running.contains(id),
        !queue.contains(id),
        cfg.max_concurrent matches Some(m) && running.len() >= m,
        cfg.queue_requests,
        cfg.max_queue matches Some(q) ==> queue.len() < q,
    ensures
        plan_spec(cfg, running, queue, id, false) == ExecutePlan::Enqueue,
{
}

/// A request is refused for a full queue only when a queue bound is set and
/// the queue holds at least that many ids; without a bound it never is.
pub proof fn lemma_max_queue_only_when_full(
    cfg: CoalescionServiceConfig,
    running: Seq<Seq<char>>,
    queue: Seq<Seq<char>>,
    id: Seq<char>,
    cached: bool,
)
    ensures
        plan_spec(cfg, running, queue, id, cached) == ExecutePlan::Reject(Error::MaxQueue) ==> (cfg.max_queue matches Some(q)
            && queue.len() >= q),
        cfg.max_queue is None ==> plan_spec(cfg, running, queue, id, cached) != ExecutePlan::Reject(Error::MaxQueue),
{
}


/// A request for an id that is neither cached nor running runs at once when
/// a slot is free under the concurrency limit; when none is and queueing is
/// off it is refused for the concurrency limit; an id already waiting is
/// joined.
pub proof fn lemma_free_slot_runs_now(
    cfg: CoalescionServiceConfig,
    running: Seq<Seq<char>>,
    queue: Seq<Seq<char>>,
    id: Seq<char>,
)
    requires
        !running.contains(id),
    ensures
        has_slot(cfg, running.len() as int) ==> plan_spec(cfg, running, queue, id, false) == ExecutePlan::RunNow,
        !has_slot(cfg, running.len() as int) && !cfg.queue_requests ==> plan_spec(cfg, running, queue, id, false)
            == ExecutePlan::Reject(Error::MaxConcurrent),
        !has_slot(cfg, running.len() as int) && cfg.queue_requests && queue.contains(id) ==> plan_spec(cfg, running, queue, id, false)
            == ExecutePlan::JoinQueued,
{
}

} // verus!
