//! What selection and health tracking guarantee across calls.
use vstd::prelude::*;
use vstd::arithmetic::div_mod::{
    lemma_fundamental_div_mod, lemma_fundamental_div_mod_converse, lemma_mod_bound,
};

use crate::balancer::{lemma_mod_succ, LoadBalancer, NUM_STT_SERVICE_TRIES};
use crate::protocol::exceeds;
use crate::worker::{after_event, LoadBalancedStream, ModelError, MonitorEvent};

verus! {

impl LoadBalancer {
    /// The balancer after `m` consecutive selections with nothing in between.
    pub open spec fn after_selections(self, m: nat) -> LoadBalancer
        decreases m,
    {
        if m == 0 {
            self
        } else {
            self.after_selections((m - 1) as nat).after_selection()
        }
    }

    /// How many of the first `m` consecutive selections returned worker `w`.
    pub open spec fn visits(self, m: nat, w: int) -> nat
        decreases m,
    {
        if m == 0 {
            0
        } else {
            self.visits((m - 1) as nat, w) + if self.after_selections((m - 1) as nat).selection()
                == Ok::<usize, ModelError>(w as usize) {
                1nat
            } else {
                0nat
            }
        }
    }

    /// Every worker is neither overloaded nor in error.
    pub open spec fn all_healthy(self) -> bool {
        forall|i: int| 0 <= i < self.len() ==> (#[trigger] self.workers@[i]).acceptable(false)
    }

    /// Every worker is overloaded.
    pub open spec fn all_overloaded(self) -> bool {
        forall|i: int| 0 <= i < self.len() ==> (#[trigger] self.workers@[i]).overloaded
    }

    /// No worker is fit for selection, with or without the overload fallback.
    pub open spec fn none_available(self) -> bool {
        forall|i: int|
            0 <= i < self.len() ==> !(#[trigger] self.workers@[i]).acceptable(false)
                && !self.workers@[i].can_overload
    }
}

/// `(x + 1) / n` is `x / n`, plus one where `x + 1` is a multiple of `n`.
proof fn lemma_div_succ(x: int, n: int)
    requires
        x >= 0,
        n > 0,
    ensures
        (x + 1) / n == x / n + if (x + 1) % n == 0 {
            1int
        } else {
            0int
        },
{
    lemma_fundamental_div_mod(x, n);
    lemma_mod_bound(x, n);
    let q = x / n;
    let r = x % n;
    if r + 1 < n {
        assert(x + 1 == q * n + (r + 1)) by (nonlinear_arith)
            requires
                x == n * q + r,
        ;
        lemma_fundamental_div_mod_converse(x + 1, n, q, r + 1);
    } else {
        assert(x + 1 == (q + 1) * n + 0) by (nonlinear_arith)
            requires
                x == n * q + r,
                r + 1 == n,
        ;
        lemma_fundamental_div_mod_converse(x + 1, n, q + 1, 0);
    }
}

/// Starting at `x`, worker `j` comes up after `offset` steps, with `offset < n`.
proof fn lemma_reach(x: int, n: int, j: int) -> (offset: int)
    requires
        x >= 0,
        n > 0,
        0 <= j < n,
    ensures
        0 <= offset < n,
        (x + offset) % n == j,
{
    lemma_fundamental_div_mod(x, n);
    lemma_mod_bound(x, n);
    let q = x / n;
    let r = x % n;
    if j >= r {
        assert(x + (j - r) == q * n + j) by (nonlinear_arith)
            requires
                x == n * q + r,
        ;
        lemma_fundamental_div_mod_converse(x + (j - r), n, q, j);
        j - r
    } else {
        assert(x + (j + n - r) == (q + 1) * n + j) by (nonlinear_arith)
            requires
                x == n * q + r,
        ;
        lemma_fundamental_div_mod_converse(x + (j + n - r), n, q + 1, j);
        j + n - r
    }
}

/// Selection `m` is a hit on `w` exactly when `m + e + 1` is a multiple of
/// `n`, where `e` is fixed by the start and by `w`.
proof fn lemma_hit_iff(c: int, w: int, m: int, n: int)
    requires
        0 <= c < n,
        0 <= w < n,
        m >= 0,
    ensures
        ((m + (c + n - 1 - w) % n + 1) % n == 0) == ((c + m) % n == w),
{
    let e0 = c + n - 1 - w;
    lemma_fundamental_div_mod(e0, n);
    lemma_mod_bound(e0, n);
    let k = e0 / n;
    let e = e0 % n;
    lemma_fundamental_div_mod(c + m, n);
    lemma_mod_bound(c + m, n);
    let q = (c + m) / n;
    let r = (c + m) % n;
    let x = m + e + 1;
    assert(x == n * (q + 1 - k) + (r - w)) by (nonlinear_arith)
        requires
            e0 == n * k + e,
            c + m == n * q + r,
            e0 == c + n - 1 - w,
            x == m + e + 1,
    ;
    if r == w {
        lemma_fundamental_div_mod_converse(x, n, q + 1 - k, 0);
    } else if r > w {
        lemma_fundamental_div_mod_converse(x, n, q + 1 - k, r - w);
    } else {
        assert(x == (q - k) * n + (n + r - w)) by (nonlinear_arith)
            requires
                x == n * (q + 1 - k) + (r - w),
        ;
        lemma_fundamental_div_mod_converse(x, n, q - k, n + r - w);
    }
}

/// A selection step that accepts before the budget runs out bounds the
/// first accepting step.
proof fn lemma_first_accept_within(lb: LoadBalancer, k: int, kj: int)
    requires
        0 <= k <= kj <= NUM_STT_SERVICE_TRIES,
        lb.accepts_at(kj),
    ensures
        lb.first_accept_from(k) matches Some(f) && k <= f <= kj && lb.accepts_at(f),
    decreases kj - k,
{
    if !lb.accepts_at(k) {
        lemma_first_accept_within(lb, k + 1, kj);
    }
}

/// Where no step from `k` on accepts, the selection finds nothing from `k`.
proof fn lemma_first_accept_none(lb: LoadBalancer, k: int)
    requires
        0 <= k,
        forall|s: int| k <= s <= NUM_STT_SERVICE_TRIES ==> !#[trigger] lb.accepts_at(s),
    ensures
        lb.first_accept_from(k) == None::<int>,
    decreases NUM_STT_SERVICE_TRIES + 1 - k,
{
    if k <= NUM_STT_SERVICE_TRIES {
        lemma_first_accept_none(lb, k + 1);
    }
}

/// The first accepting step accepts.
proof fn lemma_first_accept_sound(lb: LoadBalancer, k: int)
    requires
        0 <= k,
    ensures
        lb.first_accept_from(k) matches Some(f) ==> k <= f <= NUM_STT_SERVICE_TRIES
            && lb.accepts_at(f),
    decreases NUM_STT_SERVICE_TRIES + 1 - k,
{
    if k <= NUM_STT_SERVICE_TRIES && !lb.accepts_at(k) {
        lemma_first_accept_sound(lb, k + 1);
    }
}

/// With every worker healthy, a selection returns the worker under the
/// cursor and moves the cursor on by one.
proof fn lemma_healthy_step(lb: LoadBalancer)
    requires
        lb.wf(),
        lb.len() > 0,
        lb.all_healthy(),
    ensures
        lb.selection() == Ok::<usize, ModelError>(lb.cursor),
        lb.after_selection() == (LoadBalancer {
            cursor: ((lb.cursor + 1) % lb.len()) as usize,
            ..lb
        }),
{
    vstd::arithmetic::div_mod::lemma_small_mod(lb.cursor as nat, lb.len() as nat);
    assert(lb.workers@[lb.cursor as int].acceptable(false));
    assert(lb.accepts_at(0));
}

/// Round-robin fairness: with every worker healthy, consecutive selections
/// hand out workers in cyclic order from the cursor, so that over `m`
/// selections each worker is chosen `m / n` times or, where `n` does not
/// divide `m`, one time more.
pub proof fn lemma_round_robin(lb: LoadBalancer, m: nat)
    requires
        lb.wf(),
        lb.len() > 0,
        lb.all_healthy(),
    ensures
        forall|j: nat|
            j < m ==> #[trigger] lb.after_selections(j).selection() == Ok::<usize, ModelError>(
                ((lb.cursor + j) % lb.len()) as usize,
            ),
        forall|w: int|
            0 <= w < lb.len() ==> {
                let v = #[trigger] lb.visits(m, w) as int;
                v == m as int / lb.len() || (m as int % lb.len() != 0 && v == m as int / lb.len()
                    + 1)
            },
{
    let n = lb.len();
    let c = lb.cursor as int;
    lemma_cursor_after(lb, m);
    assert forall|j: nat| j < m implies #[trigger] lb.after_selections(j).selection() == Ok::<
        usize,
        ModelError,
    >(((c + j) % n) as usize) by {
        lemma_cursor_after(lb, j);
        lemma_healthy_step(lb.after_selections(j));
    }
    assert forall|w: int| 0 <= w < n implies {
        let v = #[trigger] lb.visits(m, w) as int;
        v == m as int / n || (m as int % n != 0 && v == m as int / n + 1)
    } by {
        let e = (c + n - 1 - w) % n;
        lemma_mod_bound(c + n - 1 - w, n);
        lemma_visits_formula(lb, m, w);
        lemma_fundamental_div_mod(m as int, n);
        lemma_mod_bound(m as int, n);
        let q = m as int / n;
        let r = m as int % n;
        if r + e < n {
            assert(m + e == q * n + (r + e)) by (nonlinear_arith)
                requires
                    m == n * q + r,
            ;
            lemma_fundamental_div_mod_converse(m + e, n, q, r + e);
        } else {
            assert(m + e == (q + 1) * n + (r + e - n)) by (nonlinear_arith)
                requires
                    m == n * q + r,
            ;
            lemma_fundamental_div_mod_converse(m + e, n, q + 1, r + e - n);
        }
    }
}

/// With every worker healthy, the state after `m` selections differs only
/// in its cursor, which has moved on by `m`.
proof fn lemma_cursor_after(lb: LoadBalancer, m: nat)
    requires
        lb.wf(),
        lb.len() > 0,
        lb.all_healthy(),
    ensures
        lb.after_selections(m) == (LoadBalancer {
            cursor: ((lb.cursor + m) % lb.len()) as usize,
            ..lb
        }),
        lb.after_selections(m).wf(),
    decreases m,
{
    let n = lb.len();
    if m == 0 {
        vstd::arithmetic::div_mod::lemma_small_mod(lb.cursor as nat, n as nat);
    } else {
        lemma_cursor_after(lb, (m - 1) as nat);
        let prev = lb.after_selections((m - 1) as nat);
        assert(prev.workers == lb.workers);
        assert(prev.all_healthy());
        lemma_healthy_step(prev);
        lemma_mod_succ(lb.cursor + m - 1, n);
        lemma_mod_bound(lb.cursor + m - 1, n);
        assert(prev.cursor as int == (lb.cursor + m - 1) % n);
        assert(lb.after_selections(m) == prev.after_selection());
    }
    lemma_mod_bound(lb.cursor + m, n);
}

/// The count of visits to `w` in closed form.
proof fn lemma_visits_formula(lb: LoadBalancer, m: nat, w: int)
    requires
        lb.wf(),
        lb.len() > 0,
        lb.all_healthy(),
        0 <= w < lb.len(),
    ensures
        lb.visits(m, w) as int == (m + (lb.cursor + lb.len() - 1 - w) % lb.len()) / lb.len(),
    decreases m,
{
    let n = lb.len();
    let c = lb.cursor as int;
    let e = (c + n - 1 - w) % n;
    lemma_mod_bound(c + n - 1 - w, n);
    if m == 0 {
        lemma_fundamental_div_mod_converse(e, n, 0, e);
    } else {
        let p = (m - 1) as nat;
        lemma_visits_formula(lb, p, w);
        lemma_cursor_after(lb, p);
        lemma_healthy_step(lb.after_selections(p));
        lemma_mod_bound(c + p, n);
        assert((lb.after_selections(p).selection() == Ok::<usize, ModelError>(w as usize)) == ((c
            + p) % n == w));
        lemma_hit_iff(c, w, p as int, n);
        lemma_div_succ(p + e, n);
    }
}

/// Overload avoidance: a worker that is overloaded and does not tolerate
/// overload is never selected, and while some worker is healthy (and the
/// budget covers a lap) a healthy worker is selected.
pub proof fn lemma_overload_avoidance(lb: LoadBalancer, w: int)
    requires
        lb.wf(),
        0 <= w < lb.len(),
        lb.workers@[w].overloaded,
        !lb.workers@[w].can_overload,
    ensures
        lb.selection() != Ok::<usize, ModelError>(w as usize),
        (exists|h: int| 0 <= h < lb.len() && (#[trigger] lb.workers@[h]).acceptable(false))
            && lb.len() <= NUM_STT_SERVICE_TRIES ==> (lb.selection() matches Ok(i) && i != w
            && lb.workers@[i as int].acceptable(false)),
{
    let n = lb.len();
    lemma_first_accept_sound(lb, 0);
    if let Some(f) = lb.first_accept_from(0) {
        lemma_mod_bound(lb.cursor + f, n);
    }
    if (exists|h: int| 0 <= h < lb.len() && (#[trigger] lb.workers@[h]).acceptable(false)) && n
        <= NUM_STT_SERVICE_TRIES {
        let h = choose|h: int| 0 <= h < lb.len() && (#[trigger] lb.workers@[h]).acceptable(false);
        let k = lemma_reach(lb.cursor as int, n, h);
        assert(lb.accepts_at(k));
        lemma_first_accept_within(lb, 0, k);
    }
}

/// Graceful degradation: with every worker overloaded, a selection returns
/// an overload-tolerant worker when there is one and the budget covers a
/// second lap; with none, it fails with no available servers.
pub proof fn lemma_graceful_degradation(lb: LoadBalancer)
    requires
        lb.wf(),
        lb.all_overloaded(),
    ensures
        (exists|t: int| 0 <= t < lb.len() && (#[trigger] lb.workers@[t]).can_overload) && 2
            * lb.len() <= NUM_STT_SERVICE_TRIES ==> (lb.selection() matches Ok(i)
            && lb.workers@[i as int].can_overload),
        (forall|t: int| 0 <= t < lb.len() ==> !(#[trigger] lb.workers@[t]).can_overload)
            ==> lb.selection() == Err::<usize, ModelError>(ModelError::NoAvailableServers),
{
    let n = lb.len();
    if n > 0 {
        lemma_first_accept_sound(lb, 0);
        assert forall|s: int| 0 <= s <= n implies !#[trigger] lb.accepts_at(s) by {
            lemma_mod_bound(lb.cursor + s, n);
        }
        if let Some(f) = lb.first_accept_from(0) {
            lemma_mod_bound(lb.cursor + f, n);
        }
        if (exists|t: int| 0 <= t < lb.len() && (#[trigger] lb.workers@[t]).can_overload) && 2 * n
            <= NUM_STT_SERVICE_TRIES {
            let t = choose|t: int| 0 <= t < lb.len() && (#[trigger] lb.workers@[t]).can_overload;
            let off = lemma_reach(lb.cursor + n + 1, n, t);
            assert(lb.accepts_at(n + 1 + off));
            lemma_first_accept_within(lb, 0, n + 1 + off);
        }
        if forall|t: int| 0 <= t < lb.len() ==> !(#[trigger] lb.workers@[t]).can_overload {
            assert forall|s: int| 0 <= s <= NUM_STT_SERVICE_TRIES implies !#[trigger] lb.accepts_at(
                s,
            ) by {
                lemma_mod_bound(lb.cursor + s, n);
            }
            lemma_first_accept_none(lb, 0);
        }
    }
}

/// Retry budget termination: over workers of which none is fit for
/// selection, a selection fails with no available servers after examining
/// `NUM_STT_SERVICE_TRIES + 1` candidates, however many workers there are.
pub proof fn lemma_budget_termination(lb: LoadBalancer)
    requires
        lb.wf(),
        lb.none_available(),
    ensures
        lb.selection() == Err::<usize, ModelError>(ModelError::NoAvailableServers),
        lb.len() > 0 ==> lb.after_selection().cursor == lb.candidate(NUM_STT_SERVICE_TRIES + 1),
{
    let n = lb.len();
    if n > 0 {
        assert forall|s: int| 0 <= s <= NUM_STT_SERVICE_TRIES implies !#[trigger] lb.accepts_at(
            s,
        ) by {
            lemma_mod_bound(lb.cursor + s, n);
        }
        lemma_first_accept_none(lb, 0);
        lemma_mod_bound(lb.cursor + NUM_STT_SERVICE_TRIES + 1, n);
    }
}

/// Heartbeat threshold: each heartbeat sets the overload flag to whether
/// its utilization is strictly above the threshold, whatever the flag was,
/// so a later heartbeat at or below it clears the flag again.
pub proof fn lemma_heartbeat_threshold(w: LoadBalancedStream, first: u64, second: u64)
    ensures
        after_event(w, MonitorEvent::Utilization(first)).overloaded == exceeds(
            first,
            w.max_utilization,
        ),
        after_event(after_event(w, MonitorEvent::Utilization(first)), MonitorEvent::Utilization(second)).overloaded
            == exceeds(second, w.max_utilization),
{
}

/// Reconnect behaviour: a disconnect marks the worker in error at once,
/// which keeps it out of selection without the overload fallback, and a
/// successful reconnect clears the mark.
pub proof fn lemma_reconnect(w: LoadBalancedStream)
    ensures
        after_event(w, MonitorEvent::Disconnected).in_error,
        !after_event(w, MonitorEvent::Disconnected).acceptable(false),
        !after_event(after_event(w, MonitorEvent::Disconnected), MonitorEvent::Reconnected).in_error,
{
}

} // verus!
