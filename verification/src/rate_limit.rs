//! Fixed-window (60 s) per-client rate limiting. A client is keyed by a 128-bit
//! number that stands for its IP address; callers that share the limiter between
//! threads hold it behind a lock.
use vstd::prelude::*;
use std::collections::HashMap;

verus! {

/// Length of a window, in seconds.
pub const WINDOW_SECS: i64 = 60;

/// Age, in seconds, at which `prune` forgets a window.
pub const PRUNE_AGE_SECS: i64 = 120;

/// The window a request at `now` is counted in: the client's current window,
/// or a fresh one when there is none or the current one began 60 s or more ago.
pub open spec fn current_window(w: Option<(i64, u32)>, now: int) -> (i64, u32) {
    match w {
        Some(e) => if now - e.0 >= WINDOW_SECS {
            (now as i64, 0u32)
        } else {
            e
        },
        None => (now as i64, 0u32),
    }
}

/// The limiter's state after a request from `ip` at `now`, and whether the
/// request is allowed.
pub open spec fn check_step(windows: Map<u128, (i64, u32)>, per_min: u32, ip: u128, now: i64) -> (
    Map<u128, (i64, u32)>,
    bool,
) {
    let e = current_window(if windows.contains_key(ip) {
        Some(windows[ip])
    } else {
        None
    }, now as int);
    if e.1 >= per_min {
        (windows.insert(ip, e), false)
    } else {
        (windows.insert(ip, (e.0, (e.1 + 1) as u32)), true)
    }
}

/// How many of the requests from `ip` at times `ts` a limiter in state `windows`
/// allows, taking them in order.
pub open spec fn allowed_count(windows: Map<u128, (i64, u32)>, per_min: u32, ip: u128, ts: Seq<i64>) -> nat
    decreases ts.len(),
{
    if ts.len() == 0 {
        0
    } else {
        let (w2, ok) = check_step(windows, per_min, ip, ts[0]);
        (if ok { 1nat } else { 0nat }) + allowed_count(w2, per_min, ip, ts.drop_first())
    }
}

/// Per-client fixed-window limiter: at most `per_min` requests per client per window.
pub struct RateLimiter {
    per_min: u32,
    windows: HashMap<u128, (i64, u32)>,
}

impl RateLimiter {
    /// The per-window allowance.
    pub closed spec fn limit(&self) -> u32 {
        self.per_min
    }

    /// Each known client's current window: its start time and its count.
    pub closed spec fn windows(&self) -> Map<u128, (i64, u32)> {
        self.windows@
    }

    /// A limiter that knows no client yet.
    pub fn new(per_min: u32) -> (l: RateLimiter)
        ensures
            l.limit() == per_min,
            l.windows() == Map::<u128, (i64, u32)>::empty(),
    {
        RateLimiter { per_min, windows: HashMap::new() }
    }

    /// Whether a request from `ip` at `now` is allowed; an allowed request
    /// consumes one unit of the client's window.
    pub fn check(&mut self, ip: u128, now: i64) -> (allowed: bool)
        ensures
            final(self).limit() == old(self).limit(),
            (final(self).windows(), allowed) == check_step(
                old(self).windows(),
                old(self).limit(),
                ip,
                now,
            ),
    {
        broadcast use vstd::std_specs::hash::group_hash_axioms;

        let mut entry: (i64, u32) = match self.windows.get(&ip) {
            Some(e) => *e,
            None => (now, 0),
        };
        if now as i128 - entry.0 as i128 >= WINDOW_SECS as i128 {
            entry = (now, 0);
        }
        if entry.1 >= self.per_min {
            self.windows.insert(ip, entry);
            return false;
        }
        entry.1 = entry.1 + 1;
        self.windows.insert(ip, entry);
        true
    }

    /// Forgets every window that began `PRUNE_AGE_SECS` or more before `now`.
    pub fn prune(&mut self, now: i64)
        ensures
            final(self).limit() == old(self).limit(),
            final(self).windows() == old(self).windows().restrict(
                old(self).windows().dom().filter(
                    |k: u128| now - old(self).windows()[k].0 < PRUNE_AGE_SECS,
                ),
            ),
    {
        broadcast use vstd::std_specs::hash::group_hash_axioms;

        let ghost start = self.windows@;
        let ghost pm = self.per_min;
        let ghost ks = vstd::std_specs::iter::IteratorSpec::remaining(
            &vstd::std_specs::hash::spec_keys_iter(&self.windows),
        );
        let mut keys: Vec<u128> = Vec::new();
        for k in it: self.windows.keys()
            invariant
                keys@ == it.seq().take(it.index() as int).map_values(|r: &u128| *r),
                it.seq() == ks,
        {
            keys.push(*k);
            assert(keys@ =~= it.seq().take(it.index() + 1).map_values(|r: &u128| *r));
        }
        let ghost all = keys@;
        assert(all =~= ks.unref());
        assert(all.to_set() =~= start.dom());
        let mut j: usize = 0;
        while j < keys.len()
            invariant
                0 <= j <= keys@.len(),
                keys@ == all,
                self.per_min == pm,
                all.to_set() == start.dom(),
                forall|k: u128| #[trigger]
                    self.windows@.contains_key(k) <==> (start.contains_key(k) && !(
                    all.take(j as int).contains(k) && now - start[k].0 >= PRUNE_AGE_SECS)),
                forall|k: u128| #[trigger] self.windows@.contains_key(k) ==> self.windows@[k] == start[k],
            decreases keys.len() - j,
        {
            let k = keys[j];
            assert(all.take(j + 1) =~= all.take(j as int).push(k));
            assert(start.contains_key(k)) by {
                assert(all.contains(k));
            }
            let stale = match self.windows.get(&k) {
                Some(e) => now as i128 - e.0 as i128 >= PRUNE_AGE_SECS as i128,
                None => false,
            };
            if stale {
                self.windows.remove(&k);
            }
            proof {
                assert forall|q: u128| #[trigger]
                    self.windows@.contains_key(q) <==> (start.contains_key(q) && !(all.take(
                        j + 1,
                    ).contains(q) && now - start[q].0 >= PRUNE_AGE_SECS)) by {
                    if q != k {
                        assert(all.take(j + 1).contains(q) <==> all.take(j as int).contains(q)) by {
                            if all.take(j + 1).contains(q) {
                                let x = choose|x: int| 0 <= x < j + 1 && #[trigger] all.take(j + 1)[x] == q;
                                assert(all.take(j as int)[x] == q);
                            }
                            if all.take(j as int).contains(q) {
                                let x = choose|x: int| 0 <= x < j && #[trigger] all.take(j as int)[x] == q;
                                assert(all.take(j + 1)[x] == q);
                            }
                        }
                    } else {
                        assert(all.take(j + 1)[j as int] == q);
                    }
                }
            }
            j = j + 1;
        }
        assert(all.take(j as int) =~= all);
        assert(self.windows@ =~= start.restrict(
            start.dom().filter(|k: u128| now - start[k].0 < PRUNE_AGE_SECS),
        ));
    }

    /// Number of clients with a window.
    pub fn len(&self) -> (n: usize)
        ensures
            n == self.windows().len(),
    {
        broadcast use vstd::std_specs::hash::group_hash_axioms;

        self.windows.len()
    }
}

/// Within one window a client gets at most `per_min` requests: from a window
/// that began at `start` and has used `used` requests, any run of requests
/// before `start + 60` is allowed at most `per_min - used` times.
pub proof fn lemma_window_allowance(
    windows: Map<u128, (i64, u32)>,
    per_min: u32,
    ip: u128,
    ts: Seq<i64>,
    start: i64,
    used: u32,
)
    requires
        windows.contains_key(ip),
        windows[ip] == (start, used),
        used <= per_min,
        forall|k: int| 0 <= k < ts.len() ==> #[trigger] ts[k] < start + WINDOW_SECS,
    ensures
        allowed_count(windows, per_min, ip, ts) <= per_min - used,
    decreases ts.len(),
{
    if ts.len() > 0 {
        let (w2, ok) = check_step(windows, per_min, ip, ts[0]);
        assert(ts[0] < start + WINDOW_SECS);
        let rest = ts.drop_first();
        assert forall|k: int| 0 <= k < rest.len() implies #[trigger] rest[k] < start + WINDOW_SECS by {
            assert(rest[k] == ts[k + 1]);
        }
        if ok {
            lemma_window_allowance(w2, per_min, ip, rest, start, (used + 1) as u32);
        } else {
            lemma_window_allowance(w2, per_min, ip, rest, start, used);
        }
    }
}

/// A new window: a request 60 s or more after the window began starts a fresh
/// window and is allowed whenever the allowance is not zero.
pub proof fn lemma_window_resets(windows: Map<u128, (i64, u32)>, per_min: u32, ip: u128, now: i64)
    requires
        windows.contains_key(ip),
        now - windows[ip].0 >= WINDOW_SECS,
        per_min > 0,
    ensures
        check_step(windows, per_min, ip, now).1,
        check_step(windows, per_min, ip, now).0[ip] == (now, 1u32),
{
}

/// A client's first request opens its window at that moment and is allowed
/// whenever the allowance is not zero.
pub proof fn lemma_window_starts(windows: Map<u128, (i64, u32)>, per_min: u32, ip: u128, now: i64)
    requires
        !windows.contains_key(ip),
        per_min > 0,
    ensures
        check_step(windows, per_min, ip, now).1,
        check_step(windows, per_min, ip, now).0[ip] == (now, 1u32),
{
}

/// A refused request consumes nothing: within the current window the
/// limiter's state is left as it was.
pub proof fn lemma_refusal_consumes_nothing(
    windows: Map<u128, (i64, u32)>,
    per_min: u32,
    ip: u128,
    now: i64,
)
    requires
        windows.contains_key(ip),
        now - windows[ip].0 < WINDOW_SECS,
        !check_step(windows, per_min, ip, now).1,
    ensures
        check_step(windows, per_min, ip, now).0 == windows,
{
    assert(check_step(windows, per_min, ip, now).0 =~= windows);
}

/// Clients do not interfere: a request from `other` leaves the window of every
/// other client `ip` as it was, so `ip`'s next outcome and window are the same
/// as if `other` had not called at all.
pub proof fn lemma_other_clients_do_not_interfere(
    windows: Map<u128, (i64, u32)>,
    per_min: u32,
    ip: u128,
    other: u128,
    t_other: i64,
    now: i64,
)
    requires
        ip != other,
    ensures
        check_step(windows, per_min, other, t_other).0.contains_key(ip) == windows.contains_key(ip),
        windows.contains_key(ip) ==> check_step(windows, per_min, other, t_other).0[ip]
            == windows[ip],
        ({
            let after = check_step(windows, per_min, other, t_other).0;
            &&& check_step(after, per_min, ip, now).1 == check_step(windows, per_min, ip, now).1
            &&& check_step(after, per_min, ip, now).0[ip] == check_step(windows, per_min, ip, now).0[ip]
        }),
{
}

/// The limiter's state after the calls `calls` (client, time), in order, from `windows`.
pub open spec fn run_checks(
    windows: Map<u128, (i64, u32)>,
    per_min: u32,
    calls: Seq<(u128, i64)>,
) -> Map<u128, (i64, u32)>
    decreases calls.len(),
{
    if calls.len() == 0 {
        windows
    } else {
        let c = calls.last();
        check_step(run_checks(windows, per_min, calls.drop_last()), per_min, c.0, c.1).0
    }
}

/// The calls of client `ip` among `calls`, in order.
pub open spec fn calls_from(calls: Seq<(u128, i64)>, ip: u128) -> Seq<(u128, i64)>
    decreases calls.len(),
{
    if calls.len() == 0 {
        Seq::empty()
    } else {
        let r = calls_from(calls.drop_last(), ip);
        if calls.last().0 == ip {
            r.push(calls.last())
        } else {
            r
        }
    }
}

/// Over any sequence of calls, a client's window, and so the outcome of its
/// next call, is what its own calls alone make of it: calls from other
/// clients never change it.
pub proof fn lemma_outcomes_depend_on_own_calls(
    windows: Map<u128, (i64, u32)>,
    per_min: u32,
    calls: Seq<(u128, i64)>,
    ip: u128,
    now: i64,
)
    ensures
        ({
            let all = run_checks(windows, per_min, calls);
            let own = run_checks(windows, per_min, calls_from(calls, ip));
            &&& all.contains_key(ip) == own.contains_key(ip)
            &&& all.contains_key(ip) ==> all[ip] == own[ip]
            &&& check_step(all, per_min, ip, now).1 == check_step(own, per_min, ip, now).1
            &&& check_step(all, per_min, ip, now).0[ip] == check_step(own, per_min, ip, now).0[ip]
        }),
    decreases calls.len(),
{
    if calls.len() > 0 {
        let d = calls.drop_last();
        let c = calls.last();
        lemma_outcomes_depend_on_own_calls(windows, per_min, d, ip, c.1);
        if c.0 == ip {
            let own = calls_from(d, ip).push(c);
            assert(own.drop_last() =~= calls_from(d, ip));
            assert(own.last() == c);
        }
    }
}

} // verus!
