use vstd::prelude::*;

use crate::notification::{CycleOutcome, advance};
use crate::subscription::{SubscriptionView, cycle_step};

verus! {

/// `states` are the subscription before and after each cycle of a run, and
/// `outs` what each cycle produced.
pub open spec fn is_run(
    states: Seq<SubscriptionView>,
    serviced: Seq<bool>,
    times: Seq<u64>,
    outs: Seq<CycleOutcome>,
) -> bool {
    &&& states.len() == outs.len() + 1
    &&& serviced.len() == outs.len()
    &&& times.len() == outs.len()
    &&& forall|k: int|
        0 <= k < outs.len() ==> cycle_step(
            states[k],
            #[trigger] states[k + 1],
            serviced[k],
            times[k],
            outs[k],
        )
}

/// How many of the first `k` outcomes are notifications.
pub open spec fn notifications_before(outs: Seq<CycleOutcome>, k: int) -> nat
    decreases k,
{
    if k <= 0 {
        0
    } else {
        notifications_before(outs, k - 1) + if outs[k - 1] is Notification {
            1nat
        } else {
            0nat
        }
    }
}

proof fn lemma_run_sequence_number(
    states: Seq<SubscriptionView>,
    serviced: Seq<bool>,
    times: Seq<u64>,
    outs: Seq<CycleOutcome>,
    k: int,
)
    requires
        is_run(states, serviced, times, outs),
        0 <= k <= outs.len(),
    ensures
        states[k].sequence_number == advance(states[0].sequence_number, notifications_before(outs, k)),
    decreases k,
{
    if k > 0 {
        lemma_run_sequence_number(states, serviced, times, outs, k - 1);
        let j = k - 1;
        assert(cycle_step(states[j], states[j + 1], serviced[j], times[j], outs[j]));
    }
}

/// Notifications are numbered without gaps: the notification that follows
/// `n` earlier ones in a run carries the number `n` steps after the one the
/// run started with. Keep-alives and idle or expiring cycles use no number.
pub proof fn lemma_sequence_numbers_gap_free(
    states: Seq<SubscriptionView>,
    serviced: Seq<bool>,
    times: Seq<u64>,
    outs: Seq<CycleOutcome>,
)
    requires
        is_run(states, serviced, times, outs),
    ensures
        forall|k: int|
            0 <= k < outs.len() ==> (#[trigger] outs[k] matches CycleOutcome::Notification(m)
                ==> m.sequence_number == advance(
                states[0].sequence_number,
                notifications_before(outs, k),
            )),
{
    assert forall|k: int|
        0 <= k < outs.len() implies (#[trigger] outs[k] matches CycleOutcome::Notification(m)
            ==> m.sequence_number == advance(
            states[0].sequence_number,
            notifications_before(outs, k),
        )) by {
        lemma_run_sequence_number(states, serviced, times, outs, k);
        assert(cycle_step(states[k], states[k + 1], serviced[k], times[k], outs[k]));
    }
}

proof fn lemma_mod_succ(k: int, m: int)
    requires
        k >= 0,
        m > 0,
    ensures
        (k + 1) % m == if k % m == m - 1 {
            0
        } else {
            k % m + 1
        },
{
    let q = k / m;
    let r = k % m;
    vstd::arithmetic::div_mod::lemma_fundamental_div_mod(k, m);
    if r + 1 < m {
        vstd::arithmetic::div_mod::lemma_fundamental_div_mod_converse(k + 1, m, q, r + 1);
    } else {
        assert((q + 1) * m == q * m + m) by (nonlinear_arith);
        vstd::arithmetic::div_mod::lemma_fundamental_div_mod_converse(k + 1, m, q + 1, 0);
    }
}

proof fn lemma_run_keep_alive_counter(
    states: Seq<SubscriptionView>,
    serviced: Seq<bool>,
    times: Seq<u64>,
    outs: Seq<CycleOutcome>,
    k: int,
)
    requires
        is_run(states, serviced, times, outs),
        states[0].keep_alive_counter == 0,
        states[0].max_keep_alive_count > 0,
        forall|j: int| 0 <= j < outs.len() ==> !(#[trigger] outs[j] is Notification) && !(
        outs[j] is Expired),
        0 <= k <= outs.len(),
    ensures
        states[k].max_keep_alive_count == states[0].max_keep_alive_count,
        states[k].keep_alive_counter == k % (states[0].max_keep_alive_count as int),
        k < outs.len() ==> (outs[k] is KeepAlive <==> (k + 1) % (
        states[0].max_keep_alive_count as int) == 0),
    decreases k,
{
    let m = states[0].max_keep_alive_count as int;
    if k > 0 {
        lemma_run_keep_alive_counter(states, serviced, times, outs, k - 1);
        let j = k - 1;
        assert(cycle_step(states[j], states[j + 1], serviced[j], times[j], outs[j]));
        assert(!(outs[k - 1] is Notification) && !(outs[k - 1] is Expired));
        lemma_mod_succ(k - 1, m);
    } else {
        assert(0int % m == 0);
    }
    if k < outs.len() {
        assert(cycle_step(states[k], states[k + 1], serviced[k], times[k], outs[k]));
        assert(!(outs[k] is Notification) && !(outs[k] is Expired));
        lemma_mod_succ(k, m);
        vstd::arithmetic::div_mod::lemma_mod_bound(k, m);
    }
}

/// In a run without data and without expiry that starts with a cleared
/// keep-alive counter, a keep-alive goes out on every `max_keep_alive_count`-th
/// cycle and on no other.
pub proof fn lemma_keep_alive_period(
    states: Seq<SubscriptionView>,
    serviced: Seq<bool>,
    times: Seq<u64>,
    outs: Seq<CycleOutcome>,
)
    requires
        is_run(states, serviced, times, outs),
        states[0].keep_alive_counter == 0,
        states[0].max_keep_alive_count > 0,
        forall|j: int| 0 <= j < outs.len() ==> !(#[trigger] outs[j] is Notification) && !(
        outs[j] is Expired),
    ensures
        forall|k: int|
            0 <= k < outs.len() ==> (#[trigger] outs[k] is KeepAlive <==> (k + 1) % (
            states[0].max_keep_alive_count as int) == 0),
{
    assert forall|k: int| 0 <= k < outs.len() implies (#[trigger] outs[k] is KeepAlive <==> (k
        + 1) % (states[0].max_keep_alive_count as int) == 0) by {
        lemma_run_keep_alive_counter(states, serviced, times, outs, k);
    }
}

} // verus!
