//! Rate limit of `Connect` requests: at most three attempts in a sliding
//! window of 60 seconds, counted over all clients together, so that three
//! wrong PINs in a row cannot block the YubiKey's PIV applet.
use vstd::prelude::*;

use crate::text::{decimal, push_decimal, push_str, string_from};

verus! {

/// Attempts accepted per window.
pub const CONNECT_MAX_ATTEMPTS: usize = 3;

/// Length of the window, in seconds.
pub const CONNECT_WINDOW_SECS: u64 = 60;

/// Length of the window, in nanoseconds.
pub const CONNECT_WINDOW_NANOS: u64 = 60_000_000_000;

/// Whether an attempt at time `t` is still inside the window at `now`
/// (times in nanoseconds of a monotonic clock; a time after `now` counts
/// as no time elapsed).
pub open spec fn in_window(t: u64, now: u64) -> bool {
    (if now >= t {
        now - t
    } else {
        0
    }) < CONNECT_WINDOW_NANOS
}

/// The attempts still inside the window at `now`, in order.
pub open spec fn recent(attempts: Seq<u64>, now: u64) -> Seq<u64>
    decreases attempts.len(),
{
    if attempts.len() == 0 {
        seq![]
    } else {
        let r = recent(attempts.drop_last(), now);
        if in_window(attempts.last(), now) {
            r.push(attempts.last())
        } else {
            r
        }
    }
}

/// The refusal message, with `n` attempts already in the window.
pub open spec fn rate_limit_message(n: nat) -> Seq<char> {
    "trop de tentatives de connexion ("@ + decimal(n) + "/"@ + decimal(
        CONNECT_MAX_ATTEMPTS as nat,
    ) + "). Attendez "@ + decimal(CONNECT_WINDOW_SECS as nat)
        + " secondes avant de réessayer."@
}

/// The stored attempts after a `Connect` at `now`, and whether it is
/// accepted.
pub open spec fn rate_step(attempts: Seq<u64>, now: u64) -> (bool, Seq<u64>) {
    let kept = recent(attempts, now);
    if kept.len() >= CONNECT_MAX_ATTEMPTS {
        (false, kept)
    } else {
        (true, kept.push(now))
    }
}

/// Checks that a `Connect` at `now` is within the quota: drops the stored
/// attempts that left the window, then refuses if three remain, else
/// records `now`.
pub fn check_connect_rate_limit(attempts: &mut Vec<u64>, now: u64) -> (r: Result<(), String>)
    ensures
        final(attempts)@ == rate_step(old(attempts)@, now).1,
        (r is Ok) == rate_step(old(attempts)@, now).0,
        r is Err ==> r->Err_0@ == rate_limit_message(recent(old(attempts)@, now).len()),
{
    let mut kept: Vec<u64> = Vec::new();
    let mut i: usize = 0;
    while i < attempts.len()
        invariant
            i <= attempts.len(),
            kept@ == recent(attempts@.take(i as int), now),
        decreases attempts.len() - i,
    {
        let t = attempts[i];
        let elapsed: u64 = if now >= t {
            now - t
        } else {
            0
        };
        proof {
            assert(attempts@.take(i + 1).drop_last() == attempts@.take(i as int));
        }
        if elapsed < CONNECT_WINDOW_NANOS {
            kept.push(t);
        }
        i += 1;
    }
    proof {
        assert(attempts@.take(attempts.len() as int) == attempts@);
    }
    if kept.len() >= CONNECT_MAX_ATTEMPTS {
        let n = kept.len();
        *attempts = kept;
        let mut msg = string_from("trop de tentatives de connexion (");
        push_decimal(&mut msg, n as u64);
        push_str(&mut msg, "/");
        push_decimal(&mut msg, CONNECT_MAX_ATTEMPTS as u64);
        push_str(&mut msg, "). Attendez ");
        push_decimal(&mut msg, CONNECT_WINDOW_SECS);
        push_str(&mut msg, " secondes avant de réessayer.");
        return Err(msg);
    }
    kept.push(now);
    *attempts = kept;
    Ok(())
}

proof fn lemma_recent_len(attempts: Seq<u64>, now: u64)
    ensures
        recent(attempts, now).len() <= attempts.len(),
    decreases attempts.len(),
{
    if attempts.len() > 0 {
        lemma_recent_len(attempts.drop_last(), now);
    }
}

/// The stored attempts never exceed the quota: from a store of at most
/// three, a `Connect` leaves at most three.
pub proof fn law_rate_limit_store_bounded(attempts: Seq<u64>, now: u64)
    requires
        attempts.len() <= CONNECT_MAX_ATTEMPTS,
    ensures
        rate_step(attempts, now).1.len() <= CONNECT_MAX_ATTEMPTS,
{
    lemma_recent_len(attempts, now);
}

/// The stored attempts before the `k`-th of a run of `Connect` attempts at
/// `times`, starting with none stored.
pub open spec fn store_before(times: Seq<u64>, k: nat) -> Seq<u64>
    decreases k,
{
    if k == 0 {
        seq![]
    } else {
        rate_step(store_before(times, (k - 1) as nat), times[k - 1]).1
    }
}

/// Whether the `k`-th attempt of the run is accepted.
pub open spec fn accepted_at(times: Seq<u64>, k: nat) -> bool {
    rate_step(store_before(times, k), times[k as int]).0
}

pub open spec fn nondecreasing(times: Seq<u64>) -> bool {
    forall|i: int, j: int| 0 <= i <= j < times.len() ==> times[i] <= times[j]
}

/// The times of the accepted attempts among the first `k`, in order.
spec fn accepted_times(times: Seq<u64>, k: nat) -> Seq<u64>
    decreases k,
{
    if k == 0 {
        seq![]
    } else {
        let p = accepted_times(times, (k - 1) as nat);
        if accepted_at(times, (k - 1) as nat) {
            p.push(times[k - 1])
        } else {
            p
        }
    }
}

/// How many of the first `k` attempts are accepted and still inside the
/// window at `now`.
pub open spec fn accepted_count(times: Seq<u64>, k: nat, now: u64) -> nat
    decreases k,
{
    if k == 0 {
        0
    } else {
        accepted_count(times, (k - 1) as nat, now) + if accepted_at(times, (k - 1) as nat)
            && in_window(times[k - 1], now) {
            1nat
        } else {
            0nat
        }
    }
}

proof fn lemma_recent_twice(x: Seq<u64>, t1: u64, t2: u64)
    requires
        t1 <= t2,
        forall|i: int| 0 <= i < x.len() ==> x[i] <= t1,
    ensures
        recent(recent(x, t1), t2) == recent(x, t2),
    decreases x.len(),
{
    if x.len() > 0 {
        let y = x.drop_last();
        assert forall|i: int| 0 <= i < y.len() implies y[i] <= t1 by {
            assert(y[i] == x[i]);
        }
        lemma_recent_twice(y, t1, t2);
        let r = recent(y, t1);
        if in_window(x.last(), t1) {
            assert(r.push(x.last()).drop_last() == r);
        }
    }
}

proof fn lemma_accepted_times_bounded(times: Seq<u64>, k: nat)
    requires
        nondecreasing(times),
        1 <= k <= times.len(),
    ensures
        forall|i: int| 0 <= i < accepted_times(times, k).len() ==> #[trigger] accepted_times(
            times,
            k,
        )[i] <= times[k - 1],
    decreases k,
{
    let p = accepted_times(times, (k - 1) as nat);
    let q = accepted_times(times, k);
    if k > 1 {
        lemma_accepted_times_bounded(times, (k - 1) as nat);
        assert(times[k - 2] <= times[k - 1]);
    }
    assert forall|i: int| 0 <= i < q.len() implies #[trigger] q[i] <= times[k - 1] by {
        if i < p.len() {
            assert(q[i] == p[i]);
            assert(p[i] <= times[k - 2]);
        } else {
            assert(q[i] == times[k - 1]);
        }
    }
}

proof fn lemma_store_is_recent(times: Seq<u64>, k: nat)
    requires
        nondecreasing(times),
        1 <= k <= times.len(),
    ensures
        store_before(times, k) == recent(accepted_times(times, k), times[k - 1]),
    decreases k,
{
    let t = times[k - 1];
    if k == 1 {
        assert(in_window(t, t));
        assert(seq![t].drop_last() == Seq::<u64>::empty());
        assert(seq![t].last() == t);
        assert(recent(Seq::<u64>::empty(), t).push(t) == seq![t]);
        assert(recent(seq![t], t) == seq![t]);
        assert(accepted_times(times, 1) == Seq::<u64>::empty().push(t));
    } else {
        lemma_store_is_recent(times, (k - 1) as nat);
        lemma_accepted_times_bounded(times, (k - 1) as nat);
        let a = accepted_times(times, (k - 1) as nat);
        assert(times[k - 2] <= t);
        lemma_recent_twice(a, times[k - 2], t);
        if accepted_at(times, (k - 1) as nat) {
            assert(in_window(t, t));
            assert(a.push(t).drop_last() == a);
        }
    }
}

proof fn lemma_count_is_len(times: Seq<u64>, k: nat, now: u64)
    requires
        k <= times.len(),
    ensures
        recent(accepted_times(times, k), now).len() == accepted_count(times, k, now),
    decreases k,
{
    if k > 0 {
        lemma_count_is_len(times, (k - 1) as nat, now);
        let p = accepted_times(times, (k - 1) as nat);
        if accepted_at(times, (k - 1) as nat) {
            assert(p.push(times[k - 1]).drop_last() == p);
        }
    }
}

proof fn lemma_count_grows(times: Seq<u64>, k1: nat, k2: nat, now: u64)
    requires
        k1 <= k2,
    ensures
        accepted_count(times, k1, now) <= accepted_count(times, k2, now),
    decreases k2,
{
    if k1 < k2 {
        lemma_count_grows(times, k1, (k2 - 1) as nat, now);
    }
}

/// Over any run of `Connect` attempts at non-decreasing times, starting
/// with none stored, no four accepted attempts fall within one window: the
/// fourth comes at least 60 seconds after the first.
pub proof fn law_at_most_three_per_window(times: Seq<u64>, a: nat, b: nat, c: nat, d: nat)
    requires
        nondecreasing(times),
        a < b < c < d < times.len(),
        accepted_at(times, a),
        accepted_at(times, b),
        accepted_at(times, c),
        accepted_at(times, d),
    ensures
        times[d as int] - times[a as int] >= CONNECT_WINDOW_NANOS,
{
    let now = times[d as int];
    if now - times[a as int] < CONNECT_WINDOW_NANOS {
        assert(times[a as int] <= times[b as int] <= times[c as int] <= now);
        assert(in_window(times[a as int], now));
        assert(in_window(times[b as int], now));
        assert(in_window(times[c as int], now));
        lemma_count_grows(times, 0, a, now);
        lemma_count_grows(times, a + 1, b, now);
        lemma_count_grows(times, b + 1, c, now);
        lemma_count_grows(times, c + 1, d, now);
        assert(accepted_count(times, d, now) >= 3);
        lemma_store_is_recent(times, d);
        lemma_accepted_times_bounded(times, d);
        assert(times[d - 1] <= now);
        lemma_recent_twice(accepted_times(times, d), times[d - 1], now);
        lemma_count_is_len(times, d, now);
        assert(recent(store_before(times, d), now).len() >= 3);
        assert(!accepted_at(times, d));
    }
}

/// Over any run of `Connect` attempts at non-decreasing times, starting
/// with none stored, an attempt is accepted exactly when fewer than three
/// earlier attempts were accepted less than 60 seconds before it. Refused
/// attempts count for nothing, and the limit is over all clients.
pub proof fn law_accepted_iff_under_quota(times: Seq<u64>, k: nat)
    requires
        nondecreasing(times),
        k < times.len(),
    ensures
        accepted_at(times, k) <==> accepted_count(times, k, times[k as int]) < CONNECT_MAX_ATTEMPTS,
{
    let now = times[k as int];
    if k == 0 {
        assert(recent(Seq::<u64>::empty(), now) == Seq::<u64>::empty());
    } else {
        lemma_store_is_recent(times, k);
        lemma_accepted_times_bounded(times, k);
        assert(times[k - 1] <= now);
        lemma_recent_twice(accepted_times(times, k), times[k - 1], now);
        lemma_count_is_len(times, k, now);
        assert(recent(store_before(times, k), now).len() == accepted_count(times, k, now));
    }
}

} // verus!
