//! The evaluation step of the fetch cycle: which pending subscriptions
//! a reading fires, and what a delivery outcome does to the store. The
//! caller performs the deliveries themselves; everything decided here is
//! a pure function of store state, reading, and outcome, and the laws of
//! the lifecycle — trigger-and-suppress, cooldown reactivation, and
//! retry-by-staying-Active — are proved below.
use vstd::prelude::*;

use crate::alerts::{
    alert_index, alert_keyed, alert_keys_unique, alert_row_wf, lookup_alert, mark_result,
    pending_pred, pending_subs, reactivate_result, reactivated_row, reactivates, sat_sub,
    subscription_fn, subscription_of, triggered_row, AlertRecord, AlertSubscription,
    AlertsStore, ALERT_ACTIVE, ALERT_TRIGGERED, COOLDOWN_MILLIS,
};
use crate::is_known_level;
use crate::seq_util::{
    filter_map, lemma_filter_map_all, lemma_filter_map_membership, lemma_filter_map_take_step,
    lemma_first_match_absent, lemma_first_match_props, lemma_first_match_witness, lemma_take_full,
};

verus! {

/// A reading fires a subscription when it is a real reading (never the
/// unknown sentinel) at or above the subscription's threshold.
pub open spec fn notifies(value: i64, threshold: i64) -> bool {
    is_known_level(value) && value >= threshold
}

/// Whether a reading fires a subscription threshold.
pub fn should_notify(value: i64, threshold: i64) -> (r: bool)
    ensures
        r == notifies(value, threshold),
{
    crate::level_is_known(value) && value >= threshold
}

/// Predicate matching the pending subscriptions a reading fires.
pub open spec fn plan_pred(value: i64) -> spec_fn(AlertSubscription) -> bool {
    |s: AlertSubscription| notifies(value, s.threshold)
}

/// The identity projection on subscriptions.
pub open spec fn sub_fn() -> spec_fn(AlertSubscription) -> AlertSubscription {
    |s: AlertSubscription| s
}

/// The subscriptions a reading fires, out of the pending ones, in order.
pub open spec fn delivery_plan(
    pending: Seq<AlertSubscription>,
    value: i64,
) -> Seq<AlertSubscription> {
    filter_map(pending, plan_pred(value), sub_fn())
}

/// Selects the pending subscriptions whose threshold the reading meets:
/// the deliveries one evaluation pass attempts, in listing order.
pub fn plan_deliveries(pending: &Vec<AlertSubscription>, value: i64) -> (r: Vec<AlertSubscription>)
    ensures
        r@ == delivery_plan(pending@, value),
{
    let ghost p = plan_pred(value);
    let ghost f = sub_fn();
    let mut out: Vec<AlertSubscription> = Vec::new();
    let n = pending.len();
    let mut i: usize = 0;
    while i < n
        invariant
            p == plan_pred(value),
            f == sub_fn(),
            n == pending@.len(),
            0 <= i <= n,
            out@ == filter_map(pending@.take(i as int), p, f),
        decreases n - i,
    {
        proof {
            lemma_filter_map_take_step(pending@, p, f, i as int);
        }
        if should_notify(value, pending[i].threshold) {
            out.push(pending[i]);
        }
        i += 1;
    }
    proof {
        lemma_take_full(pending@);
    }
    out
}

/// Applies one delivery attempt's outcome to the store: a confirmed
/// delivery marks the subscription Triggered; a failed one writes
/// nothing, so the subscription stays Active and the next cycle retries
/// it with no extra bookkeeping.
pub fn apply_delivery_outcome(
    store: &mut AlertsStore,
    station_name: &str,
    chat_id: i64,
    delivered: bool,
    triggered_at: u64,
    value: i64,
)
    requires
        old(store).wf(),
    ensures
        final(store).wf(),
        delivered ==> final(store).rows_seq() == mark_result(
            old(store).rows_seq(),
            station_name@,
            chat_id,
            triggered_at,
            value,
        ),
        !delivered ==> final(store).rows_seq() == old(store).rows_seq(),
{
    if delivered {
        store.mark_alert_triggered(station_name, chat_id, triggered_at, value);
    }
}

/// Pointwise-equal keys give the same row index for every key.
proof fn lemma_alert_index_same_keys(
    rows: Seq<AlertRecord>,
    newrows: Seq<AlertRecord>,
    station: Seq<char>,
    chat_id: i64,
)
    requires
        newrows.len() == rows.len(),
        forall|k: int|
            0 <= k < rows.len() ==> (#[trigger] newrows[k]).station@ == rows[k].station@
                && newrows[k].chat_id == rows[k].chat_id,
    ensures
        alert_index(newrows, station, chat_id) == alert_index(rows, station, chat_id),
{
    let key = alert_keyed(station, chat_id);
    lemma_first_match_props(rows, key);
    let i = alert_index(rows, station, chat_id);
    if i == -1 {
        assert forall|k: int| 0 <= k < newrows.len() implies !key(#[trigger] newrows[k]) by {
            assert(!key(rows[k]));
        }
        lemma_first_match_absent(newrows, key);
    } else {
        assert(key(newrows[i]));
        assert forall|k: int| 0 <= k < i implies !key(#[trigger] newrows[k]) by {
            assert(!key(rows[k]));
        }
        lemma_first_match_witness(newrows, key, i);
    }
}

/// Trigger-and-suppress law. An Active subscription whose threshold the
/// reading meets is part of the delivery plan; and once its delivery is
/// confirmed and marked, it is Triggered — carrying the reading that
/// fired it — and gone from the station's pending listing, so no further
/// delivery is attempted for it within the cooldown window.
pub proof fn lemma_trigger_and_suppress(
    rows: Seq<AlertRecord>,
    station: Seq<char>,
    chat_id: i64,
    value: i64,
    triggered_at: u64,
)
    requires
        alert_keys_unique(rows),
        forall|k: int| 0 <= k < rows.len() ==> alert_row_wf(#[trigger] rows[k]),
        lookup_alert(rows, station, chat_id) is Some,
        lookup_alert(rows, station, chat_id).unwrap().active == ALERT_ACTIVE,
        notifies(value, lookup_alert(rows, station, chat_id).unwrap().threshold),
    ensures
        delivery_plan(pending_subs(rows, station), value).contains(
            subscription_of(lookup_alert(rows, station, chat_id).unwrap()),
        ),
        lookup_alert(mark_result(rows, station, chat_id, triggered_at, value), station, chat_id)
            == Some(
            triggered_row(lookup_alert(rows, station, chat_id).unwrap(), triggered_at, value),
        ),
        forall|j: int|
            0 <= j < pending_subs(
                mark_result(rows, station, chat_id, triggered_at, value),
                station,
            ).len() ==> (#[trigger] pending_subs(
                mark_result(rows, station, chat_id, triggered_at, value),
                station,
            )[j]).chat_id != chat_id,
{
    let key = alert_keyed(station, chat_id);
    lemma_first_match_props(rows, key);
    let i = alert_index(rows, station, chat_id);
    let r = rows[i];

    // The subscription is listed as pending, and the plan keeps it.
    let pend_p = pending_pred(station);
    let pend_f = subscription_fn();
    lemma_filter_map_membership(rows, pend_p, pend_f);
    assert(pending_subs(rows, station).contains(subscription_of(r)));
    let pending = pending_subs(rows, station);
    let plan_p = plan_pred(value);
    let plan_f = sub_fn();
    lemma_filter_map_membership(pending, plan_p, plan_f);
    let pi = choose|pi: int| 0 <= pi < pending.len() && pending[pi] == subscription_of(r);
    assert(pending[pi] == subscription_of(r) && plan_p(pending[pi]));
    assert(delivery_plan(pending, value).contains(subscription_of(r)));

    // After the mark, the row is Triggered and keeps its key.
    let newrows = mark_result(rows, station, chat_id, triggered_at, value);
    assert(newrows == rows.update(i, triggered_row(r, triggered_at, value)));
    assert forall|k: int|
        0 <= k < rows.len() implies (#[trigger] newrows[k]).station@ == rows[k].station@
        && newrows[k].chat_id == rows[k].chat_id by {
        if k != i {
            assert(newrows[k] == rows[k]);
        }
    }
    lemma_alert_index_same_keys(rows, newrows, station, chat_id);
    assert(lookup_alert(newrows, station, chat_id) == Some(triggered_row(r, triggered_at, value)));

    // And the station's pending listing no longer names the chat.
    assert forall|k: int|
        0 <= k < newrows.len() && pend_p(#[trigger] newrows[k]) implies (pend_f(
        newrows[k],
    )).chat_id != chat_id by {
        if k == i {
            assert(newrows[k].active == ALERT_TRIGGERED);
        } else {
            assert(newrows[k] == rows[k]);
            if newrows[k].chat_id == chat_id {
                assert(rows[k].station@ == station && rows[k].chat_id == chat_id);
                assert(key(rows[k]));
                if k < i {
                    assert(!key(rows[k]));
                } else {
                    assert(!(rows[i].station@ == rows[k].station@ && rows[i].chat_id
                        == rows[k].chat_id));
                }
            }
        }
    }
    lemma_filter_map_all(newrows, pend_p, pend_f, |s: AlertSubscription| s.chat_id != chat_id);
}

/// Cooldown reactivation law. A Triggered subscription whose cooldown
/// has elapsed comes back Active with its triggered fields cleared; and
/// when the current reading still meets its threshold, the next
/// evaluation plans a fresh delivery for it.
pub proof fn lemma_cooldown_reactivation(
    rows: Seq<AlertRecord>,
    station: Seq<char>,
    chat_id: i64,
    now_millis: u64,
    value: i64,
)
    requires
        alert_keys_unique(rows),
        forall|k: int| 0 <= k < rows.len() ==> alert_row_wf(#[trigger] rows[k]),
        lookup_alert(rows, station, chat_id) is Some,
        lookup_alert(rows, station, chat_id).unwrap().active == ALERT_TRIGGERED,
        sat_sub(now_millis, lookup_alert(rows, station, chat_id).unwrap().triggered_at.unwrap())
            >= COOLDOWN_MILLIS,
    ensures
        lookup_alert(
            reactivate_result(rows, station, now_millis, COOLDOWN_MILLIS),
            station,
            chat_id,
        ) == Some(reactivated_row(lookup_alert(rows, station, chat_id).unwrap())),
        notifies(value, lookup_alert(rows, station, chat_id).unwrap().threshold)
            ==> delivery_plan(
            pending_subs(reactivate_result(rows, station, now_millis, COOLDOWN_MILLIS), station),
            value,
        ).contains(subscription_of(lookup_alert(rows, station, chat_id).unwrap())),
{
    let key = alert_keyed(station, chat_id);
    lemma_first_match_props(rows, key);
    let i = alert_index(rows, station, chat_id);
    let r = rows[i];
    let newrows = reactivate_result(rows, station, now_millis, COOLDOWN_MILLIS);
    assert(newrows.len() == rows.len());
    assert forall|k: int|
        0 <= k < rows.len() implies (#[trigger] newrows[k]).station@ == rows[k].station@
        && newrows[k].chat_id == rows[k].chat_id by {
        assert(newrows[k] == if reactivates(rows[k], station, now_millis, COOLDOWN_MILLIS) {
            reactivated_row(rows[k])
        } else {
            rows[k]
        });
    }
    lemma_alert_index_same_keys(rows, newrows, station, chat_id);
    assert(reactivates(r, station, now_millis, COOLDOWN_MILLIS));
    assert(newrows[i] == reactivated_row(r));
    assert(lookup_alert(newrows, station, chat_id) == Some(reactivated_row(r)));

    if notifies(value, r.threshold) {
        let pend_p = pending_pred(station);
        let pend_f = subscription_fn();
        lemma_filter_map_membership(newrows, pend_p, pend_f);
        assert(pend_p(newrows[i]));
        assert(pending_subs(newrows, station).contains(subscription_of(reactivated_row(r))));
        assert(subscription_of(reactivated_row(r)) == subscription_of(r));
        let pending = pending_subs(newrows, station);
        let plan_p = plan_pred(value);
        let plan_f = sub_fn();
        lemma_filter_map_membership(pending, plan_p, plan_f);
        let pi = choose|pi: int| 0 <= pi < pending.len() && pending[pi] == subscription_of(r);
        assert(pending[pi] == subscription_of(r) && plan_p(pending[pi]));
    }
}

/// Delivery-failure retry law. A failed delivery writes nothing — see
/// [`apply_delivery_outcome`] — and an Active subscription is always
/// part of its station's pending listing, so the subscription reappears
/// there on the next cycle without any re-subscription.
pub proof fn lemma_delivery_failure_retry(rows: Seq<AlertRecord>, station: Seq<char>, chat_id: i64)
    requires
        alert_keys_unique(rows),
        lookup_alert(rows, station, chat_id) is Some,
        lookup_alert(rows, station, chat_id).unwrap().active == ALERT_ACTIVE,
    ensures
        pending_subs(rows, station).contains(
            subscription_of(lookup_alert(rows, station, chat_id).unwrap()),
        ),
{
    let key = alert_keyed(station, chat_id);
    lemma_first_match_props(rows, key);
    let i = alert_index(rows, station, chat_id);
    let pend_p = pending_pred(station);
    let pend_f = subscription_fn();
    lemma_filter_map_membership(rows, pend_p, pend_f);
    assert(pend_p(rows[i]));
}

} // verus!

