//! Alert subscriptions and their lifecycle: an idempotent subscribe
//! upsert, explicit unsubscribe, per-chat listing and counting, the
//! pending-subscription query the fetch cycle drives deliveries from,
//! time-based reactivation after a cooldown, and the transition to
//! Triggered after a confirmed delivery.
use vstd::prelude::*;

use crate::seq_util::{
    filter_map, first_match, lemma_filter_map_take_step, lemma_first_match_absent,
    lemma_first_match_props, lemma_first_match_witness, lemma_take_full,
};
use crate::text_util::str_eq;

verus! {

/// State marker for a subscription that is watching its station.
pub const ALERT_ACTIVE: i64 = 1;

/// State marker for a subscription that has notified and is suppressed.
pub const ALERT_TRIGGERED: i64 = 0;

/// How long a Triggered subscription stays suppressed before time-based
/// reactivation, in milliseconds (24 hours).
pub const COOLDOWN_MILLIS: u64 = 86400000;

/// How many subscriptions in state Active or Triggered one chat may
/// hold at creation time.
pub const MAX_ALERTS_PER_CHAT: usize = 3;

/// One stored subscription row, keyed by (station, chat).
pub struct AlertRecord {
    /// Station name the subscription watches.
    pub station: String,
    /// The subscribed chat.
    pub chat_id: i64,
    /// User-chosen threshold level, in fixed-point hundredths.
    pub threshold: i64,
    /// Epoch seconds when the subscription was created or replaced.
    pub created_at: i64,
    /// Thread within the chat, for threaded chat contexts.
    pub thread_id: Option<i64>,
    /// [`ALERT_ACTIVE`] or [`ALERT_TRIGGERED`].
    pub active: i64,
    /// Epoch milliseconds of the delivery; present iff Triggered.
    pub triggered_at: Option<u64>,
    /// The reading that triggered the delivery; present iff Triggered.
    pub triggered_value: Option<i64>,
}

/// A listing row for one chat's subscriptions, as shown to the chat.
pub struct AlertEntry {
    /// Station name the subscription watches.
    pub station_name: String,
    /// User-chosen threshold level, in fixed-point hundredths.
    pub threshold: i64,
    /// [`ALERT_ACTIVE`] or [`ALERT_TRIGGERED`].
    pub active: i64,
    /// Epoch milliseconds of the delivery; present iff Triggered.
    pub triggered_at: Option<u64>,
    /// The reading that triggered the delivery; present iff Triggered.
    pub triggered_value: Option<i64>,
}

/// What a delivery attempt needs to know about one pending subscription.
#[derive(Clone, Copy, PartialEq, Eq, Structural)]
pub struct AlertSubscription {
    /// The chat to notify.
    pub chat_id: i64,
    /// User-chosen threshold level, in fixed-point hundredths.
    pub threshold: i64,
    /// Thread within the chat, for threaded chat contexts.
    pub thread_id: Option<i64>,
}

/// Row invariant: the triggered fields are present exactly in state
/// Triggered, and the state marker is one of the two states.
pub open spec fn alert_row_wf(r: AlertRecord) -> bool {
    &&& r.active == ALERT_ACTIVE || r.active == ALERT_TRIGGERED
    &&& r.active == ALERT_TRIGGERED <==> r.triggered_at is Some
    &&& r.active == ALERT_TRIGGERED <==> r.triggered_value is Some
}

/// Predicate matching the row keyed by (station, chat).
pub open spec fn alert_keyed(station: Seq<char>, chat_id: i64) -> spec_fn(AlertRecord) -> bool {
    |r: AlertRecord| r.station@ == station && r.chat_id == chat_id
}

/// Index of the row keyed by (station, chat), or -1 when absent.
pub open spec fn alert_index(rows: Seq<AlertRecord>, station: Seq<char>, chat_id: i64) -> int {
    first_match(rows, alert_keyed(station, chat_id))
}

/// The row keyed by (station, chat), if any.
pub open spec fn lookup_alert(
    rows: Seq<AlertRecord>,
    station: Seq<char>,
    chat_id: i64,
) -> Option<AlertRecord> {
    let i = alert_index(rows, station, chat_id);
    if i == -1 {
        None
    } else {
        Some(rows[i])
    }
}

/// No two rows share a (station, chat) key.
pub open spec fn alert_keys_unique(rows: Seq<AlertRecord>) -> bool {
    forall|i: int, j: int|
        0 <= i < j < rows.len() ==> !((#[trigger] rows[i]).station@ == (#[trigger] rows[j]).station@
            && rows[i].chat_id == rows[j].chat_id)
}

/// The subscription row written by a subscribe request: state Active,
/// the requested threshold and thread, no triggered fields.
pub open spec fn subscribed_row(
    station: Seq<char>,
    old_station: String,
    chat_id: i64,
    threshold: i64,
    created_at: i64,
    thread_id: Option<i64>,
) -> AlertRecord {
    AlertRecord {
        station: old_station,
        chat_id: chat_id,
        threshold: threshold,
        created_at: created_at,
        thread_id: thread_id,
        active: ALERT_ACTIVE,
        triggered_at: None,
        triggered_value: None,
    }
}

/// What a subscribe upsert leaves in the store: the existing row is
/// replaced (re-subscribing resets state to Active and clears any
/// triggered fields), a missing row is created.
pub open spec fn upsert_result(
    rows: Seq<AlertRecord>,
    station: String,
    chat_id: i64,
    threshold: i64,
    created_at: i64,
    thread_id: Option<i64>,
) -> Seq<AlertRecord> {
    let i = alert_index(rows, station@, chat_id);
    let row = subscribed_row(station@, station, chat_id, threshold, created_at, thread_id);
    if i == -1 {
        rows.push(row)
    } else {
        rows.update(i, row)
    }
}

/// What an unsubscribe leaves in the store: the keyed row is removed,
/// a missing row leaves the store untouched.
pub open spec fn delete_result(
    rows: Seq<AlertRecord>,
    station: Seq<char>,
    chat_id: i64,
) -> Seq<AlertRecord> {
    let i = alert_index(rows, station, chat_id);
    if i == -1 {
        rows
    } else {
        rows.remove(i)
    }
}

/// The row after a confirmed delivery: Triggered, carrying when it
/// fired and the reading that fired it.
pub open spec fn triggered_row(r: AlertRecord, triggered_at: u64, value: i64) -> AlertRecord {
    AlertRecord {
        station: r.station,
        chat_id: r.chat_id,
        threshold: r.threshold,
        created_at: r.created_at,
        thread_id: r.thread_id,
        active: ALERT_TRIGGERED,
        triggered_at: Some(triggered_at),
        triggered_value: Some(value),
    }
}

/// What marking one delivery leaves in the store.
pub open spec fn mark_result(
    rows: Seq<AlertRecord>,
    station: Seq<char>,
    chat_id: i64,
    triggered_at: u64,
    value: i64,
) -> Seq<AlertRecord> {
    let i = alert_index(rows, station, chat_id);
    if i == -1 {
        rows
    } else {
        rows.update(i, triggered_row(rows[i], triggered_at, value))
    }
}

/// Whether a Triggered row's cooldown has elapsed at `now_millis`.
/// Timestamps beyond `now_millis` count as an elapsed time of zero.
pub open spec fn cooldown_expired(r: AlertRecord, now_millis: u64, cooldown_millis: u64) -> bool {
    r.triggered_at is Some && sat_sub(now_millis, r.triggered_at.unwrap()) >= cooldown_millis
}

/// Saturating subtraction on unsigned values.
pub open spec fn sat_sub(a: u64, b: u64) -> u64 {
    if a >= b {
        (a - b) as u64
    } else {
        0
    }
}

/// Whether `reactivate_expired_alerts_for_station` returns this row to
/// Active: it watches the station, is Triggered, and its cooldown has
/// elapsed.
pub open spec fn reactivates(
    r: AlertRecord,
    station: Seq<char>,
    now_millis: u64,
    cooldown_millis: u64,
) -> bool {
    &&& r.station@ == station
    &&& r.active == ALERT_TRIGGERED
    &&& cooldown_expired(r, now_millis, cooldown_millis)
}

/// The Active row a reactivated subscription becomes: triggered fields
/// cleared, everything else kept.
pub open spec fn reactivated_row(r: AlertRecord) -> AlertRecord {
    AlertRecord {
        station: r.station,
        chat_id: r.chat_id,
        threshold: r.threshold,
        created_at: r.created_at,
        thread_id: r.thread_id,
        active: ALERT_ACTIVE,
        triggered_at: None,
        triggered_value: None,
    }
}

/// Predicate matching the rows one reactivation pass rewrites.
pub open spec fn reactivation_pred(
    station: Seq<char>,
    now_millis: u64,
    cooldown_millis: u64,
) -> spec_fn(AlertRecord) -> bool {
    |r: AlertRecord| reactivates(r, station, now_millis, cooldown_millis)
}

/// How one reactivation pass rewrites a single row.
pub open spec fn reactivation_map(
    station: Seq<char>,
    now_millis: u64,
    cooldown_millis: u64,
) -> spec_fn(AlertRecord) -> AlertRecord {
    |r: AlertRecord|
        if reactivates(r, station, now_millis, cooldown_millis) {
            reactivated_row(r)
        } else {
            r
        }
}

/// What one reactivation pass leaves in the store.
pub open spec fn reactivate_result(
    rows: Seq<AlertRecord>,
    station: Seq<char>,
    now_millis: u64,
    cooldown_millis: u64,
) -> Seq<AlertRecord> {
    rows.map_values(reactivation_map(station, now_millis, cooldown_millis))
}

/// How many rows one reactivation pass returns to Active.
pub open spec fn reactivate_count(
    rows: Seq<AlertRecord>,
    station: Seq<char>,
    now_millis: u64,
    cooldown_millis: u64,
) -> nat {
    filter_map(
        rows,
        reactivation_pred(station, now_millis, cooldown_millis),
        row_fn(),
    ).len()
}

/// The listing entry a stored row is shown as.
pub open spec fn entry_of(r: AlertRecord) -> AlertEntry {
    AlertEntry {
        station_name: r.station,
        threshold: r.threshold,
        active: r.active,
        triggered_at: r.triggered_at,
        triggered_value: r.triggered_value,
    }
}

/// Predicate matching one chat's rows in one state.
pub open spec fn chat_state_pred(chat_id: i64, state: i64) -> spec_fn(AlertRecord) -> bool {
    |r: AlertRecord| r.chat_id == chat_id && r.active == state
}

/// Predicate matching one chat's rows in any state.
pub open spec fn chat_pred(chat_id: i64) -> spec_fn(AlertRecord) -> bool {
    |r: AlertRecord| r.chat_id == chat_id
}

/// The listing projection of a row.
pub open spec fn entry_fn() -> spec_fn(AlertRecord) -> AlertEntry {
    |r: AlertRecord| entry_of(r)
}

/// The identity projection on rows.
pub open spec fn row_fn() -> spec_fn(AlertRecord) -> AlertRecord {
    |r: AlertRecord| r
}

/// The listing of one chat's subscriptions in one state, in store order.
pub open spec fn chat_entries(rows: Seq<AlertRecord>, chat_id: i64, state: i64) -> Seq<AlertEntry> {
    filter_map(rows, chat_state_pred(chat_id, state), entry_fn())
}

/// How many subscriptions, Active or Triggered, a chat holds.
pub open spec fn chat_alert_count(rows: Seq<AlertRecord>, chat_id: i64) -> nat {
    filter_map(rows, chat_pred(chat_id), row_fn()).len()
}

/// The delivery view of a stored row.
pub open spec fn subscription_of(r: AlertRecord) -> AlertSubscription {
    AlertSubscription { chat_id: r.chat_id, threshold: r.threshold, thread_id: r.thread_id }
}

/// Predicate matching one station's Active rows.
pub open spec fn pending_pred(station: Seq<char>) -> spec_fn(AlertRecord) -> bool {
    |r: AlertRecord| r.station@ == station && r.active == ALERT_ACTIVE
}

/// The delivery projection of a row.
pub open spec fn subscription_fn() -> spec_fn(AlertRecord) -> AlertSubscription {
    |r: AlertRecord| subscription_of(r)
}

/// The Active subscriptions watching one station, in store order: the
/// rows a fetch cycle attempts deliveries for.
pub open spec fn pending_subs(rows: Seq<AlertRecord>, station: Seq<char>) -> Seq<AlertSubscription> {
    filter_map(rows, pending_pred(station), subscription_fn())
}

/// The alert store: one row per (station, chat) pair. It models the
/// shared document store's subscription table.
pub struct AlertsStore {
    rows: Vec<AlertRecord>,
}

impl AlertsStore {
    /// The rows held by the store, in insertion order.
    pub closed spec fn rows_seq(self) -> Seq<AlertRecord> {
        self.rows@
    }

    /// Store invariant: unique keys and well-formed rows.
    pub open spec fn wf(self) -> bool {
        &&& alert_keys_unique(self.rows_seq())
        &&& forall|i: int| 0 <= i < self.rows_seq().len() ==> alert_row_wf(#[trigger] self.rows_seq()[i])
    }

    /// An empty store.
    pub fn new() -> (r: Self)
        ensures
            r.wf(),
            r.rows_seq() == Seq::<AlertRecord>::empty(),
    {
        let r = AlertsStore { rows: Vec::new() };
        proof {
            assert(r.rows@ =~= Seq::<AlertRecord>::empty());
        }
        r
    }

    /// Subscribe, as an idempotent upsert: always leaves the (station,
    /// chat) row Active with the given threshold and thread, replacing
    /// any earlier row and clearing any triggered fields. The per-chat
    /// cap is the caller's duty; see [`AlertsStore::try_subscribe`].
    pub fn upsert_alert(
        &mut self,
        station_name: &String,
        chat_id: i64,
        threshold: i64,
        created_at: i64,
        thread_id: Option<i64>,
    )
        requires
            old(self).wf(),
        ensures
            final(self).wf(),
            final(self).rows_seq() == upsert_result(
                old(self).rows_seq(),
                *station_name,
                chat_id,
                threshold,
                created_at,
                thread_id,
            ),
    {
        let ghost rows0 = self.rows_seq();
        let ghost key = alert_keyed(station_name@, chat_id);
        let row = AlertRecord {
            station: station_name.clone(),
            chat_id: chat_id,
            threshold: threshold,
            created_at: created_at,
            thread_id: thread_id,
            active: ALERT_ACTIVE,
            triggered_at: None,
            triggered_value: None,
        };
        assert(row == subscribed_row(
            station_name@,
            *station_name,
            chat_id,
            threshold,
            created_at,
            thread_id,
        ));
        let n = self.rows.len();
        let mut i: usize = 0;
        while i < n
            invariant
                old(self).wf(),
                rows0 == old(self).rows_seq(),
                self.rows_seq() == rows0,
                key == alert_keyed(station_name@, chat_id),
                row == subscribed_row(
                    station_name@,
                    *station_name,
                    chat_id,
                    threshold,
                    created_at,
                    thread_id,
                ),
                n == rows0.len(),
                0 <= i <= n,
                forall|k: int| 0 <= k < i ==> !key(#[trigger] rows0[k]),
            decreases n - i,
        {
            if self.rows[i].chat_id == chat_id && str_eq(
                self.rows[i].station.as_str(),
                station_name.as_str(),
            ) {
                proof {
                    lemma_first_match_witness(rows0, key, i as int);
                }
                self.rows[i] = row;
                proof {
                    lemma_alert_update_keeps_wf(rows0, i as int, rows0[i as int].station@, chat_id, self.rows_seq()[i as int]);
                }
                return;
            }
            i += 1;
        }
        proof {
            lemma_first_match_absent(rows0, key);
        }
        self.rows.push(row);
        proof {
            lemma_alert_push_keeps_wf(rows0, self.rows_seq().last());
        }
    }

    /// Unsubscribe: deletes the (station, chat) row if present and
    /// reports whether one existed. A second call returns false, not
    /// an error.
    pub fn delete_alert(&mut self, station_name: &str, chat_id: i64) -> (removed: bool)
        requires
            old(self).wf(),
        ensures
            final(self).wf(),
            removed == (alert_index(old(self).rows_seq(), station_name@, chat_id) != -1),
            final(self).rows_seq() == delete_result(old(self).rows_seq(), station_name@, chat_id),
    {
        let ghost rows0 = self.rows_seq();
        let ghost key = alert_keyed(station_name@, chat_id);
        let n = self.rows.len();
        let mut i: usize = 0;
        while i < n
            invariant
                old(self).wf(),
                rows0 == old(self).rows_seq(),
                self.rows_seq() == rows0,
                key == alert_keyed(station_name@, chat_id),
                n == rows0.len(),
                0 <= i <= n,
                forall|k: int| 0 <= k < i ==> !key(#[trigger] rows0[k]),
            decreases n - i,
        {
            if self.rows[i].chat_id == chat_id && str_eq(self.rows[i].station.as_str(), station_name)
            {
                proof {
                    lemma_first_match_witness(rows0, key, i as int);
                }
                self.rows.remove(i);
                proof {
                    lemma_alert_remove_keeps_wf(rows0, i as int);
                }
                return true;
            }
            i += 1;
        }
        proof {
            lemma_first_match_absent(rows0, key);
        }
        false
    }

    /// Whether a subscription row exists for (station, chat), whatever
    /// its state: the pre-check that lets re-subscribing bypass the cap.
    pub fn alert_exists(&self, station_name: &str, chat_id: i64) -> (r: bool)
        ensures
            r == (alert_index(self.rows_seq(), station_name@, chat_id) != -1),
    {
        let ghost key = alert_keyed(station_name@, chat_id);
        let n = self.rows.len();
        let mut i: usize = 0;
        while i < n
            invariant
                key == alert_keyed(station_name@, chat_id),
                n == self.rows_seq().len(),
                0 <= i <= n,
                forall|k: int| 0 <= k < i ==> !key(#[trigger] self.rows_seq()[k]),
            decreases n - i,
        {
            if self.rows[i].chat_id == chat_id && str_eq(self.rows[i].station.as_str(), station_name)
            {
                proof {
                    lemma_first_match_witness(self.rows_seq(), key, i as int);
                }
                return true;
            }
            i += 1;
        }
        proof {
            lemma_first_match_absent(self.rows_seq(), key);
        }
        false
    }

    /// The Active subscriptions of one chat, in store order.
    pub fn list_active_alerts_for_chat(&self, chat_id: i64) -> (r: Vec<AlertEntry>)
        ensures
            r@ == chat_entries(self.rows_seq(), chat_id, ALERT_ACTIVE),
    {
        self.list_chat_entries(chat_id, ALERT_ACTIVE)
    }

    /// All subscriptions of one chat: the Active ones first, then the
    /// Triggered ones, each group in store order. The numbering a chat
    /// sees is this listing's order, stable within one response.
    pub fn list_alerts_for_chat(&self, chat_id: i64) -> (r: Vec<AlertEntry>)
        ensures
            r@ == chat_entries(self.rows_seq(), chat_id, ALERT_ACTIVE) + chat_entries(
                self.rows_seq(),
                chat_id,
                ALERT_TRIGGERED,
            ),
    {
        let mut out = self.list_chat_entries(chat_id, ALERT_ACTIVE);
        let mut triggered = self.list_chat_entries(chat_id, ALERT_TRIGGERED);
        out.append(&mut triggered);
        out
    }

    /// The listing of one chat's subscriptions in one state.
    fn list_chat_entries(&self, chat_id: i64, state: i64) -> (r: Vec<AlertEntry>)
        ensures
            r@ == chat_entries(self.rows_seq(), chat_id, state),
    {
        let ghost p = chat_state_pred(chat_id, state);
        let ghost f = entry_fn();
        let mut out: Vec<AlertEntry> = Vec::new();
        let n = self.rows.len();
        let mut i: usize = 0;
        while i < n
            invariant
                p == chat_state_pred(chat_id, state),
                f == entry_fn(),
                n == self.rows_seq().len(),
                0 <= i <= n,
                out@ == filter_map(self.rows_seq().take(i as int), p, f),
            decreases n - i,
        {
            proof {
                lemma_filter_map_take_step(self.rows_seq(), p, f, i as int);
            }
            if self.rows[i].chat_id == chat_id && self.rows[i].active == state {
                let row = &self.rows[i];
                let entry = AlertEntry {
                    station_name: row.station.clone(),
                    threshold: row.threshold,
                    active: row.active,
                    triggered_at: row.triggered_at,
                    triggered_value: row.triggered_value,
                };
                assert(entry == entry_of(self.rows_seq()[i as int]));
                out.push(entry);
            }
            i += 1;
        }
        proof {
            lemma_take_full(self.rows_seq());
        }
        out
    }

    /// How many subscriptions, Active or Triggered, a chat holds, but
    /// counted no further than `max`: the bounded scan behind the
    /// per-chat cap check.
    pub fn count_active_alerts_for_chat(&self, chat_id: i64, max: usize) -> (r: usize)
        ensures
            r == if chat_alert_count(self.rows_seq(), chat_id) < max {
                chat_alert_count(self.rows_seq(), chat_id)
            } else {
                max as nat
            },
    {
        let ghost p = chat_pred(chat_id);
        let ghost f = row_fn();
        let mut total: usize = 0;
        let n = self.rows.len();
        let mut i: usize = 0;
        while i < n
            invariant
                p == chat_pred(chat_id),
                f == row_fn(),
                n == self.rows_seq().len(),
                0 <= i <= n,
                total <= max,
                total == if filter_map(self.rows_seq().take(i as int), p, f).len() < max {
                    filter_map(self.rows_seq().take(i as int), p, f).len()
                } else {
                    max as nat
                },
            decreases n - i,
        {
            proof {
                lemma_filter_map_take_step(self.rows_seq(), p, f, i as int);
            }
            if self.rows[i].chat_id == chat_id && total < max {
                total += 1;
            }
            i += 1;
        }
        proof {
            lemma_take_full(self.rows_seq());
        }
        total
    }

    /// The Active subscriptions watching one station, with what a
    /// delivery attempt needs: chat, threshold, thread.
    pub fn list_pending_alerts_for_station(&self, station_name: &str) -> (r: Vec<AlertSubscription>)
        ensures
            r@ == pending_subs(self.rows_seq(), station_name@),
    {
        let ghost p = pending_pred(station_name@);
        let ghost f = subscription_fn();
        let mut out: Vec<AlertSubscription> = Vec::new();
        let n = self.rows.len();
        let mut i: usize = 0;
        while i < n
            invariant
                p == pending_pred(station_name@),
                f == subscription_fn(),
                n == self.rows_seq().len(),
                0 <= i <= n,
                out@ == filter_map(self.rows_seq().take(i as int), p, f),
            decreases n - i,
        {
            proof {
                lemma_filter_map_take_step(self.rows_seq(), p, f, i as int);
            }
            if self.rows[i].active == ALERT_ACTIVE && str_eq(
                self.rows[i].station.as_str(),
                station_name,
            ) {
                let row = &self.rows[i];
                let sub = AlertSubscription {
                    chat_id: row.chat_id,
                    threshold: row.threshold,
                    thread_id: row.thread_id,
                };
                assert(sub == subscription_of(self.rows_seq()[i as int]));
                out.push(sub);
            }
            i += 1;
        }
        proof {
            lemma_take_full(self.rows_seq());
        }
        out
    }

    /// Time-based reactivation: every Triggered subscription on the
    /// station whose cooldown has elapsed returns to Active with its
    /// triggered fields cleared; reports how many did. The check is
    /// time-only: the current reading plays no part.
    pub fn reactivate_expired_alerts_for_station(
        &mut self,
        station_name: &str,
        now_millis: u64,
        cooldown_millis: u64,
    ) -> (reactivated: usize)
        requires
            old(self).wf(),
        ensures
            final(self).wf(),
            final(self).rows_seq() == reactivate_result(
                old(self).rows_seq(),
                station_name@,
                now_millis,
                cooldown_millis,
            ),
            reactivated == reactivate_count(
                old(self).rows_seq(),
                station_name@,
                now_millis,
                cooldown_millis,
            ),
    {
        let ghost rows0 = self.rows_seq();
        let ghost p = reactivation_pred(station_name@, now_millis, cooldown_millis);
        let ghost f = row_fn();
        let ghost g = reactivation_map(station_name@, now_millis, cooldown_millis);
        let mut count: usize = 0;
        let n = self.rows.len();
        let mut i: usize = 0;
        while i < n
            invariant
                old(self).wf(),
                rows0 == old(self).rows_seq(),
                p == reactivation_pred(station_name@, now_millis, cooldown_millis),
                f == row_fn(),
                g == reactivation_map(station_name@, now_millis, cooldown_millis),
                n == rows0.len(),
                self.rows_seq().len() == n,
                0 <= i <= n,
                count <= i,
                forall|k: int| 0 <= k < i ==> #[trigger] self.rows_seq()[k] == g(rows0[k]),
                forall|k: int| i <= k < n ==> #[trigger] self.rows_seq()[k] == rows0[k],
                count == filter_map(rows0.take(i as int), p, f).len(),
            decreases n - i,
        {
            proof {
                lemma_filter_map_take_step(rows0, p, f, i as int);
            }
            let expired = self.rows[i].active == ALERT_TRIGGERED && match self.rows[i].triggered_at {
                Some(t) => saturating_sub_u64(now_millis, t) >= cooldown_millis,
                None => false,
            };
            if expired && str_eq(self.rows[i].station.as_str(), station_name) {
                let row = &self.rows[i];
                let cleared = AlertRecord {
                    station: row.station.clone(),
                    chat_id: row.chat_id,
                    threshold: row.threshold,
                    created_at: row.created_at,
                    thread_id: row.thread_id,
                    active: ALERT_ACTIVE,
                    triggered_at: None,
                    triggered_value: None,
                };
                assert(cleared == reactivated_row(rows0[i as int]));
                self.rows[i] = cleared;
                count += 1;
            }
            i += 1;
        }
        proof {
            lemma_take_full(rows0);
            assert(self.rows_seq() =~= reactivate_result(
                rows0,
                station_name@,
                now_millis,
                cooldown_millis,
            ));
            lemma_reactivate_keeps_wf(rows0, station_name@, now_millis, cooldown_millis);
        }
        count
    }

    /// Records a confirmed delivery: the (station, chat) row becomes
    /// Triggered, carrying the delivery time and the reading. A missing
    /// row leaves the store untouched.
    pub fn mark_alert_triggered(
        &mut self,
        station_name: &str,
        chat_id: i64,
        triggered_at: u64,
        value: i64,
    )
        requires
            old(self).wf(),
        ensures
            final(self).wf(),
            final(self).rows_seq() == mark_result(
                old(self).rows_seq(),
                station_name@,
                chat_id,
                triggered_at,
                value,
            ),
    {
        let ghost rows0 = self.rows_seq();
        let ghost key = alert_keyed(station_name@, chat_id);
        let n = self.rows.len();
        let mut i: usize = 0;
        while i < n
            invariant
                old(self).wf(),
                rows0 == old(self).rows_seq(),
                self.rows_seq() == rows0,
                key == alert_keyed(station_name@, chat_id),
                n == rows0.len(),
                0 <= i <= n,
                forall|k: int| 0 <= k < i ==> !key(#[trigger] rows0[k]),
            decreases n - i,
        {
            if self.rows[i].chat_id == chat_id && str_eq(self.rows[i].station.as_str(), station_name)
            {
                proof {
                    lemma_first_match_witness(rows0, key, i as int);
                }
                let row = &self.rows[i];
                let marked = AlertRecord {
                    station: row.station.clone(),
                    chat_id: row.chat_id,
                    threshold: row.threshold,
                    created_at: row.created_at,
                    thread_id: row.thread_id,
                    active: ALERT_TRIGGERED,
                    triggered_at: Some(triggered_at),
                    triggered_value: Some(value),
                };
                assert(marked == triggered_row(rows0[i as int], triggered_at, value));
                self.rows[i] = marked;
                proof {
                    lemma_alert_update_keeps_wf(
                        rows0,
                        i as int,
                        rows0[i as int].station@,
                        chat_id,
                        self.rows_seq()[i as int],
                    );
                }
                return;
            }
            i += 1;
        }
        proof {
            lemma_first_match_absent(rows0, key);
        }
    }

    /// A subscribe request with the per-chat cap applied: an existing
    /// (station, chat) subscription is always replaced, a new one is
    /// accepted only while the chat holds fewer than
    /// [`MAX_ALERTS_PER_CHAT`] subscriptions, Active or Triggered.
    /// Returns whether the subscription was written; a rejection is a
    /// declined request, not an error, and writes nothing.
    pub fn try_subscribe(
        &mut self,
        station_name: &String,
        chat_id: i64,
        threshold: i64,
        created_at: i64,
        thread_id: Option<i64>,
    ) -> (accepted: bool)
        requires
            old(self).wf(),
        ensures
            final(self).wf(),
            accepted == (alert_index(old(self).rows_seq(), station_name@, chat_id) != -1
                || chat_alert_count(old(self).rows_seq(), chat_id) < MAX_ALERTS_PER_CHAT),
            accepted ==> final(self).rows_seq() == upsert_result(
                old(self).rows_seq(),
                *station_name,
                chat_id,
                threshold,
                created_at,
                thread_id,
            ),
            !accepted ==> final(self).rows_seq() == old(self).rows_seq(),
    {
        let exists = self.alert_exists(station_name.as_str(), chat_id);
        if !exists {
            let count = self.count_active_alerts_for_chat(chat_id, MAX_ALERTS_PER_CHAT);
            if count >= MAX_ALERTS_PER_CHAT {
                return false;
            }
        }
        self.upsert_alert(station_name, chat_id, threshold, created_at, thread_id);
        true
    }
}

/// Subtraction that stops at zero instead of wrapping.
fn saturating_sub_u64(a: u64, b: u64) -> (r: u64)
    ensures
        r == sat_sub(a, b),
{
    if a >= b {
        a - b
    } else {
        0
    }
}

/// Reactivation keeps the store invariant: keys are untouched and the
/// rewritten rows are well formed.
proof fn lemma_reactivate_keeps_wf(
    rows: Seq<AlertRecord>,
    station: Seq<char>,
    now_millis: u64,
    cooldown_millis: u64,
)
    requires
        alert_keys_unique(rows),
        forall|k: int| 0 <= k < rows.len() ==> alert_row_wf(#[trigger] rows[k]),
    ensures
        alert_keys_unique(reactivate_result(rows, station, now_millis, cooldown_millis)),
        forall|k: int|
            0 <= k < reactivate_result(rows, station, now_millis, cooldown_millis).len()
                ==> alert_row_wf(
                #[trigger] reactivate_result(rows, station, now_millis, cooldown_millis)[k],
            ),
{
    let newrows = reactivate_result(rows, station, now_millis, cooldown_millis);
    assert(newrows.len() == rows.len());
    assert forall|k: int| 0 <= k < newrows.len() implies alert_row_wf(#[trigger] newrows[k])
        && newrows[k].station@ == rows[k].station@ && newrows[k].chat_id == rows[k].chat_id by {
        assert(newrows[k] == if reactivates(rows[k], station, now_millis, cooldown_millis) {
            reactivated_row(rows[k])
        } else {
            rows[k]
        });
    }
}

/// Replacing a row under its own key keeps the store invariant, as long
/// as the new row is well formed.
proof fn lemma_alert_update_keeps_wf(
    rows: Seq<AlertRecord>,
    i: int,
    station: Seq<char>,
    chat_id: i64,
    row: AlertRecord,
)
    requires
        alert_keys_unique(rows),
        forall|k: int| 0 <= k < rows.len() ==> alert_row_wf(#[trigger] rows[k]),
        0 <= i < rows.len(),
        rows[i].station@ == station,
        rows[i].chat_id == chat_id,
        row.station@ == station,
        row.chat_id == chat_id,
        alert_row_wf(row),
    ensures
        alert_keys_unique(rows.update(i, row)),
        forall|k: int| 0 <= k < rows.update(i, row).len() ==> alert_row_wf(#[trigger] rows.update(i, row)[k]),
{
    let newrows = rows.update(i, row);
    assert forall|a: int, b: int| 0 <= a < b < newrows.len() implies !((#[trigger] newrows[a]).station@
        == (#[trigger] newrows[b]).station@ && newrows[a].chat_id == newrows[b].chat_id) by {
        assert(newrows[a].station@ == rows[a].station@ && newrows[a].chat_id == rows[a].chat_id);
        assert(newrows[b].station@ == rows[b].station@ && newrows[b].chat_id == rows[b].chat_id);
    }
}

/// Appending a row under a fresh key keeps the store invariant.
proof fn lemma_alert_push_keeps_wf(rows: Seq<AlertRecord>, row: AlertRecord)
    requires
        alert_keys_unique(rows),
        forall|k: int| 0 <= k < rows.len() ==> alert_row_wf(#[trigger] rows[k]),
        alert_row_wf(row),
        forall|k: int|
            0 <= k < rows.len() ==> !((#[trigger] rows[k]).station@ == row.station@ && rows[k].chat_id
                == row.chat_id),
    ensures
        alert_keys_unique(rows.push(row)),
        forall|k: int| 0 <= k < rows.push(row).len() ==> alert_row_wf(#[trigger] rows.push(row)[k]),
{
    let newrows = rows.push(row);
    assert forall|a: int, b: int| 0 <= a < b < newrows.len() implies !((#[trigger] newrows[a]).station@
        == (#[trigger] newrows[b]).station@ && newrows[a].chat_id == newrows[b].chat_id) by {
        if b == newrows.len() - 1 {
            assert(newrows[a] == rows[a]);
            assert(newrows[b] == row);
        } else {
            assert(newrows[a] == rows[a] && newrows[b] == rows[b]);
        }
    }
    assert forall|k: int| 0 <= k < newrows.len() implies alert_row_wf(#[trigger] newrows[k]) by {
        if k < newrows.len() - 1 {
            assert(newrows[k] == rows[k]);
        } else {
            assert(newrows[k] == row);
        }
    }
}

/// Removing a row keeps the store invariant.
proof fn lemma_alert_remove_keeps_wf(rows: Seq<AlertRecord>, i: int)
    requires
        alert_keys_unique(rows),
        forall|k: int| 0 <= k < rows.len() ==> alert_row_wf(#[trigger] rows[k]),
        0 <= i < rows.len(),
    ensures
        alert_keys_unique(rows.remove(i)),
        forall|k: int| 0 <= k < rows.remove(i).len() ==> alert_row_wf(#[trigger] rows.remove(i)[k]),
{
    let newrows = rows.remove(i);
    assert forall|a: int, b: int| 0 <= a < b < newrows.len() implies !((#[trigger] newrows[a]).station@
        == (#[trigger] newrows[b]).station@ && newrows[a].chat_id == newrows[b].chat_id) by {
        let a0 = if a < i {
            a
        } else {
            a + 1
        };
        let b0 = if b < i {
            b
        } else {
            b + 1
        };
        assert(newrows[a] == rows[a0] && newrows[b] == rows[b0]);
    }
    assert forall|k: int| 0 <= k < newrows.len() implies alert_row_wf(#[trigger] newrows[k]) by {
        let k0 = if k < i {
            k
        } else {
            k + 1
        };
        assert(newrows[k] == rows[k0]);
    }
}

} // verus!
