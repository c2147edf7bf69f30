//! The registry of workers and the round-robin selection over it.
use vstd::prelude::*;
use vstd::arithmetic::div_mod::{lemma_fundamental_div_mod, lemma_fundamental_div_mod_converse};

use crate::protocol::Handshake;
use crate::worker::{
    after_event, action_after, counts_failure, counts_success, LoadBalancedStream, ModelError,
    MonitorAction, MonitorEvent,
};

verus! {

/// How many candidates past the first a selection may examine before it
/// gives up.
pub const NUM_STT_SERVICE_TRIES: usize = 100;

/// A counter increment that stops at the largest value.
pub open spec fn bump(x: u64) -> u64 {
    if x < u64::MAX {
        (x + 1) as u64
    } else {
        x
    }
}

/// Round-robin selection over a fixed set of workers that avoids overloaded
/// or failing ones, and falls back to overload-tolerant workers when no
/// healthy one is found within a full lap.
pub struct LoadBalancer {
    /// Index of the next candidate.
    pub cursor: usize,
    /// The workers, each stored at the index equal to its id.
    pub workers: Vec<LoadBalancedStream>,
    /// Successful exchanges: heartbeats and opened data connections.
    pub fetch_success: u64,
    /// Failed exchanges: failed selections, refused or failed data
    /// connections and control-channel disconnects.
    pub fetch_failure: u64,
}

/// `((x % n) + 1) % n` is `(x + 1) % n`.
pub proof fn lemma_mod_succ(x: int, n: int)
    requires
        x >= 0,
        n > 0,
    ensures
        ((x % n) + 1) % n == (x + 1) % n,
        0 <= x % n < n,
{
    lemma_fundamental_div_mod(x, n);
    let q = x / n;
    let r = x % n;
    assert(0 <= r < n) by {
        vstd::arithmetic::div_mod::lemma_mod_bound(x, n);
    }
    if r + 1 < n {
        assert(x + 1 == q * n + (r + 1)) by (nonlinear_arith)
            requires
                x == n * q + r,
        ;
        lemma_fundamental_div_mod_converse(x + 1, n, q, r + 1);
        lemma_fundamental_div_mod_converse(r + 1, n, 0, r + 1);
    } else {
        assert(x + 1 == (q + 1) * n + 0) by (nonlinear_arith)
            requires
                x == n * q + r,
                r + 1 == n,
        ;
        lemma_fundamental_div_mod_converse(x + 1, n, q + 1, 0);
        lemma_fundamental_div_mod_converse(r + 1, n, 1, 0);
    }
}

impl LoadBalancer {
    pub open spec fn len(self) -> int {
        self.workers@.len() as int
    }

    /// Each worker sits at its own id, and the cursor points at a worker.
    pub open spec fn wf(self) -> bool {
        &&& self.len() <= usize::MAX
        &&& forall|i: int| 0 <= i < self.len() ==> (#[trigger] self.workers@[i]).id == i
        &&& if self.len() == 0 {
            self.cursor == 0
        } else {
            self.cursor < self.len()
        }
    }

    /// The index of the candidate examined at step `k` of a selection.
    pub open spec fn candidate(self, k: int) -> int {
        (self.cursor + k) % self.len()
    }

    /// Whether step `k` of a selection accepts its candidate. The overload
    /// fallback is on once more candidates than there are workers were
    /// examined without success.
    pub open spec fn accepts_at(self, k: int) -> bool {
        self.workers@[self.candidate(k)].acceptable(k > self.len())
    }

    /// The first step at or after `k` that accepts, within the retry budget.
    pub open spec fn first_accept_from(self, k: int) -> Option<int>
        decreases NUM_STT_SERVICE_TRIES + 1 - k,
    {
        if k < 0 || k > NUM_STT_SERVICE_TRIES {
            None
        } else if self.accepts_at(k) {
            Some(k)
        } else {
            self.first_accept_from(k + 1)
        }
    }

    /// The outcome of a selection: the first accepted candidate, or no
    /// available servers once the retry budget is exceeded.
    pub open spec fn selection(self) -> Result<usize, ModelError> {
        if self.len() == 0 {
            Err(ModelError::NoAvailableServers)
        } else {
            match self.first_accept_from(0) {
                Some(k) => Ok(self.candidate(k) as usize),
                None => Err(ModelError::NoAvailableServers),
            }
        }
    }

    /// The balancer after a selection: the cursor has moved past every
    /// examined candidate, and a failed selection is counted.
    pub open spec fn after_selection(self) -> LoadBalancer {
        if self.len() == 0 {
            LoadBalancer { fetch_failure: bump(self.fetch_failure), ..self }
        } else {
            match self.first_accept_from(0) {
                Some(k) => LoadBalancer { cursor: self.candidate(k + 1) as usize, ..self },
                None => LoadBalancer {
                    cursor: self.candidate(NUM_STT_SERVICE_TRIES + 1) as usize,
                    fetch_failure: bump(self.fetch_failure),
                    ..self
                },
            }
        }
    }

    /// A balancer over the workers that announced `handshakes`, in order;
    /// worker `i` gets id `i` and starts healthy.
    pub fn new(handshakes: &Vec<Handshake>) -> (r: Self)
        ensures
            r.wf(),
            r.cursor == 0,
            r.fetch_success == 0,
            r.fetch_failure == 0,
            r.len() == handshakes@.len(),
            forall|i: int|
                0 <= i < r.len() ==> #[trigger] r.workers@[i] == (LoadBalancedStream {
                    id: i as usize,
                    can_overload: handshakes@[i].can_overload,
                    max_utilization: handshakes@[i].max_utilization,
                    overloaded: false,
                    in_error: false,
                }),
    {
        let mut workers: Vec<LoadBalancedStream> = Vec::new();
        let mut i: usize = 0;
        while i < handshakes.len()
            invariant
                i <= handshakes@.len(),
                workers@.len() == i,
                forall|j: int|
                    0 <= j < i ==> #[trigger] workers@[j] == (LoadBalancedStream {
                        id: j as usize,
                        can_overload: handshakes@[j].can_overload,
                        max_utilization: handshakes@[j].max_utilization,
                        overloaded: false,
                        in_error: false,
                    }),
            decreases handshakes@.len() - i,
        {
            workers.push(LoadBalancedStream::new(i, handshakes[i]));
            i = i + 1;
        }
        LoadBalancer { cursor: 0, workers, fetch_success: 0, fetch_failure: 0 }
    }

    /// The number of registered workers.
    pub fn num_workers(&self) -> (r: usize)
        ensures
            r == self.len(),
    {
        self.workers.len()
    }

    /// The worker with id `id`, if there is one.
    pub fn worker(&self, id: usize) -> (r: Option<LoadBalancedStream>)
        ensures
            r == (if id < self.len() {
                Some(self.workers@[id as int])
            } else {
                None::<LoadBalancedStream>
            }),
    {
        if id < self.workers.len() {
            Some(self.workers[id])
        } else {
            None
        }
    }

    /// Hands out the current cursor and advances it by one, wrapping at the
    /// number of workers.
    fn get_next_worker_idx(&mut self) -> (r: usize)
        requires
            old(self).wf(),
            old(self).len() > 0,
        ensures
            r == old(self).cursor,
            *final(self) == (LoadBalancer { cursor: old(self).candidate(1) as usize, ..*old(self) }),
            final(self).wf(),
    {
        proof {
            lemma_mod_succ(self.cursor as int, self.len());
            vstd::arithmetic::div_mod::lemma_small_mod(self.cursor as nat, self.len() as nat);
        }
        let r = self.cursor;
        let n = self.workers.len();
        if self.cursor + 1 == n {
            proof {
                lemma_fundamental_div_mod_converse(self.cursor + 1, n as int, 1, 0);
            }
            self.cursor = 0;
        } else {
            proof {
                vstd::arithmetic::div_mod::lemma_small_mod((self.cursor + 1) as nat, n as nat);
            }
            self.cursor = self.cursor + 1;
        }
        proof {
            vstd::arithmetic::div_mod::lemma_small_mod(self.cursor as nat, self.len() as nat);
        }
        r
    }

    /// Picks a worker. Candidates are taken in round-robin order from the
    /// cursor; one that is neither overloaded nor in error is returned at
    /// once. After more candidates than there are workers, an
    /// overload-tolerant worker is accepted instead. Once more than
    /// `NUM_STT_SERVICE_TRIES` candidates were examined, the selection fails
    /// and the failure is counted.
    pub fn find_worker(&mut self) -> (r: Result<usize, ModelError>)
        requires
            old(self).wf(),
        ensures
            r == old(self).selection(),
            *final(self) == old(self).after_selection(),
            final(self).wf(),
    {
        let n = self.workers.len();
        if n == 0 {
            if self.fetch_failure < u64::MAX {
                self.fetch_failure = self.fetch_failure + 1;
            }
            return Err(ModelError::NoAvailableServers);
        }
        let ghost start = *self;
        let mut examined: usize = 0;
        let mut allow_overload = false;
        proof {
            vstd::arithmetic::div_mod::lemma_small_mod(self.cursor as nat, n as nat);
        }
        loop
            invariant
                self.wf(),
                n == self.len() == start.len(),
                n > 0,
                start.wf(),
                start == *old(self),
                examined <= NUM_STT_SERVICE_TRIES,
                allow_overload == (examined > n),
                self.cursor == start.candidate(examined as int),
                *self == (LoadBalancer { cursor: self.cursor, ..start }),
                start.first_accept_from(0) == start.first_accept_from(examined as int),
            decreases NUM_STT_SERVICE_TRIES + 1 - examined,
        {
            proof {
                lemma_mod_succ(start.cursor + examined, n as int);
            }
            let idx = self.get_next_worker_idx();
            assert(self.cursor == start.candidate(examined + 1));
            if self.workers[idx].is_acceptable(allow_overload) {
                assert(start.accepts_at(examined as int));
                return Ok(idx);
            }
            assert(!start.accepts_at(examined as int));
            examined = examined + 1;
            if !allow_overload && examined > n {
                allow_overload = true;
            }
            if examined > NUM_STT_SERVICE_TRIES {
                assert(start.first_accept_from(examined as int) == None::<int>);
                if self.fetch_failure < u64::MAX {
                    self.fetch_failure = self.fetch_failure + 1;
                }
                return Err(ModelError::NoAvailableServers);
            }
        }
    }

    /// The outcome of `get_stream`: the selected worker, unless the selection
    /// failed or the worker refuses locally because it is overloaded.
    pub open spec fn stream_outcome(self) -> Result<usize, ModelError> {
        match self.selection() {
            Ok(i) => if !self.workers@[i as int].can_overload && self.workers@[i as int].overloaded {
                Err(ModelError::Overloaded)
            } else {
                Ok(i)
            },
            Err(e) => Err(e),
        }
    }

    /// The balancer after `get_stream`: a local overload refusal is counted
    /// as a failure on top of the selection's own bookkeeping.
    pub open spec fn after_stream(self) -> LoadBalancer {
        let s = self.after_selection();
        if self.stream_outcome() == Err::<usize, ModelError>(ModelError::Overloaded) {
            LoadBalancer { fetch_failure: bump(s.fetch_failure), ..s }
        } else {
            s
        }
    }

    /// Selects a worker for a new session and makes the local overload check
    /// of its data connection. On `Ok(id)` the caller opens the data
    /// connection to worker `id` and reports the outcome to `finish_stream`.
    pub fn get_stream(&mut self) -> (r: Result<usize, ModelError>)
        requires
            old(self).wf(),
        ensures
            r == old(self).stream_outcome(),
            *final(self) == old(self).after_stream(),
            final(self).wf(),
    {
        let id = match self.find_worker() {
            Ok(id) => id,
            Err(e) => return Err(e),
        };
        match self.workers[id].open_connection() {
            Ok(()) => Ok(id),
            Err(e) => {
                if self.fetch_failure < u64::MAX {
                    self.fetch_failure = self.fetch_failure + 1;
                }
                Err(e)
            },
        }
    }

    /// Records the outcome of opening a data connection to worker `id`: the
    /// worker's error flag follows it, and it is counted.
    pub fn finish_stream(&mut self, id: usize, succeeded: bool)
        requires
            old(self).wf(),
            id < old(self).len(),
        ensures
            final(self).wf(),
            final(self).workers@ == old(self).workers@.update(
                id as int,
                LoadBalancedStream { in_error: !succeeded, ..old(self).workers@[id as int] },
            ),
            final(self).cursor == old(self).cursor,
            final(self).fetch_success == (if succeeded {
                bump(old(self).fetch_success)
            } else {
                old(self).fetch_success
            }),
            final(self).fetch_failure == (if succeeded {
                old(self).fetch_failure
            } else {
                bump(old(self).fetch_failure)
            }),
    {
        let mut w = self.workers[id];
        w.record_connection(succeeded);
        self.workers.set(id, w);
        if succeeded {
            if self.fetch_success < u64::MAX {
                self.fetch_success = self.fetch_success + 1;
            }
        } else if self.fetch_failure < u64::MAX {
            self.fetch_failure = self.fetch_failure + 1;
        }
    }

    /// Applies what the control-channel monitor of worker `id` observed and
    /// returns the monitor's next action. Heartbeats count as successes and
    /// disconnects as failures.
    pub fn on_monitor_event(&mut self, id: usize, e: MonitorEvent) -> (r: MonitorAction)
        requires
            old(self).wf(),
            id < old(self).len(),
        ensures
            r == action_after(e),
            final(self).wf(),
            final(self).workers@ == old(self).workers@.update(
                id as int,
                after_event(old(self).workers@[id as int], e),
            ),
            final(self).cursor == old(self).cursor,
            final(self).fetch_success == (if counts_success(e) {
                bump(old(self).fetch_success)
            } else {
                old(self).fetch_success
            }),
            final(self).fetch_failure == (if counts_failure(e) {
                bump(old(self).fetch_failure)
            } else {
                old(self).fetch_failure
            }),
    {
        let mut w = self.workers[id];
        let r = w.on_monitor_event(e);
        self.workers.set(id, w);
        match e {
            MonitorEvent::Tag(t) => {
                if t == crate::protocol::HEARTBEAT && self.fetch_success < u64::MAX {
                    self.fetch_success = self.fetch_success + 1;
                }
            },
            MonitorEvent::Disconnected => {
                if self.fetch_failure < u64::MAX {
                    self.fetch_failure = self.fetch_failure + 1;
                }
            },
            _ => {},
        }
        proof {
            assert forall|i: int| 0 <= i < self.len() implies (#[trigger] self.workers@[i]).id == i by {
                assert(old(self).workers@[i].id == i);
            }
        }
        r
    }
}

} // verus!
