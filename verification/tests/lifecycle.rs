//! The alert subscription lifecycle: trigger and suppress, cooldown
//! reactivation, retry on delivery failure, and the per-chat cap.
use erfiume::alerts::{AlertsStore, COOLDOWN_MILLIS, MAX_ALERTS_PER_CHAT};
use erfiume::engine::{apply_delivery_outcome, plan_deliveries, should_notify};
use erfiume::UNKNOWN_THRESHOLD;

#[test]
fn should_notify_requires_a_real_reading_at_threshold() {
    assert!(should_notify(250, 200));
    assert!(should_notify(200, 200));
    assert!(!should_notify(150, 200));
    assert!(!should_notify(UNKNOWN_THRESHOLD, -1000000));
}

#[test]
fn trigger_and_suppress_within_cooldown() {
    let mut alerts = AlertsStore::new();
    alerts.upsert_alert(&"A".to_string(), 1, 200, 1000, None);

    // The reading 2.5 meets the threshold 2.0: a delivery is planned.
    let pending = alerts.list_pending_alerts_for_station("A");
    assert_eq!(pending.len(), 1);
    let plan = plan_deliveries(&pending, 250);
    assert_eq!(plan.len(), 1);
    assert_eq!(plan[0].chat_id, 1);

    // The delivery succeeds: the subscription is Triggered and carries
    // the reading.
    apply_delivery_outcome(&mut alerts, "A", 1, true, 7777, 250);
    let listed = alerts.list_alerts_for_chat(1);
    assert_eq!(listed.len(), 1);
    assert_eq!(listed[0].active, 0);
    assert_eq!(listed[0].triggered_at, Some(7777));
    assert_eq!(listed[0].triggered_value, Some(250));

    // A higher reading within the cooldown window plans nothing: the
    // subscription is absent from the pending listing.
    let pending = alerts.list_pending_alerts_for_station("A");
    assert_eq!(pending.len(), 0);
    let plan = plan_deliveries(&pending, 300);
    assert_eq!(plan.len(), 0);
}

#[test]
fn plan_skips_thresholds_the_reading_misses() {
    let mut alerts = AlertsStore::new();
    alerts.upsert_alert(&"A".to_string(), 1, 200, 1000, None);
    alerts.upsert_alert(&"A".to_string(), 2, 400, 1000, Some(9));
    let pending = alerts.list_pending_alerts_for_station("A");
    assert_eq!(pending.len(), 2);
    let plan = plan_deliveries(&pending, 250);
    assert_eq!(plan.len(), 1);
    assert_eq!(plan[0].chat_id, 1);
    assert_eq!(plan[0].threshold, 200);
}

#[test]
fn cooldown_reactivation_is_time_only() {
    let mut alerts = AlertsStore::new();
    alerts.upsert_alert(&"A".to_string(), 1, 200, 1000, None);
    apply_delivery_outcome(&mut alerts, "A", 1, true, 1000, 250);

    // One millisecond before the cooldown elapses nothing moves.
    let early = alerts.reactivate_expired_alerts_for_station("A", 1000 + COOLDOWN_MILLIS - 1, COOLDOWN_MILLIS);
    assert_eq!(early, 0);
    assert_eq!(alerts.list_pending_alerts_for_station("A").len(), 0);

    // At 24h past the trigger the subscription returns to Active with
    // its triggered fields cleared.
    let reactivated = alerts.reactivate_expired_alerts_for_station("A", 1000 + COOLDOWN_MILLIS + 1, COOLDOWN_MILLIS);
    assert_eq!(reactivated, 1);
    let listed = alerts.list_alerts_for_chat(1);
    assert_eq!(listed[0].active, 1);
    assert_eq!(listed[0].triggered_at, None);
    assert_eq!(listed[0].triggered_value, None);

    // The value still meets the threshold: the next evaluation plans a
    // fresh delivery.
    let pending = alerts.list_pending_alerts_for_station("A");
    let plan = plan_deliveries(&pending, 250);
    assert_eq!(plan.len(), 1);
}

#[test]
fn delivery_failure_leaves_the_subscription_pending() {
    let mut alerts = AlertsStore::new();
    alerts.upsert_alert(&"A".to_string(), 1, 200, 1000, None);
    apply_delivery_outcome(&mut alerts, "A", 1, false, 7777, 250);
    let pending = alerts.list_pending_alerts_for_station("A");
    assert_eq!(pending.len(), 1);
    assert_eq!(pending[0].chat_id, 1);
    let listed = alerts.list_alerts_for_chat(1);
    assert_eq!(listed[0].active, 1);
    assert_eq!(listed[0].triggered_at, None);
}

#[test]
fn cap_rejects_a_fourth_station_but_not_an_update() {
    let mut alerts = AlertsStore::new();
    assert!(alerts.try_subscribe(&"A".to_string(), 1, 100, 0, None));
    assert!(alerts.try_subscribe(&"B".to_string(), 1, 100, 0, None));
    assert!(alerts.try_subscribe(&"C".to_string(), 1, 100, 0, None));
    assert_eq!(alerts.count_active_alerts_for_chat(1, MAX_ALERTS_PER_CHAT), 3);

    // A fourth station is declined before any write.
    assert!(!alerts.try_subscribe(&"D".to_string(), 1, 100, 0, None));
    assert!(!alerts.alert_exists("D", 1));

    // Updating one of the existing three bypasses the cap.
    assert!(alerts.try_subscribe(&"B".to_string(), 1, 500, 9, Some(4)));
    let listed = alerts.list_alerts_for_chat(1);
    assert_eq!(listed.len(), 3);

    // Another chat is not affected by this chat's cap.
    assert!(alerts.try_subscribe(&"D".to_string(), 2, 100, 0, None));
}

#[test]
fn cap_counts_triggered_subscriptions_too() {
    let mut alerts = AlertsStore::new();
    assert!(alerts.try_subscribe(&"A".to_string(), 1, 100, 0, None));
    assert!(alerts.try_subscribe(&"B".to_string(), 1, 100, 0, None));
    assert!(alerts.try_subscribe(&"C".to_string(), 1, 100, 0, None));
    apply_delivery_outcome(&mut alerts, "A", 1, true, 1, 150);
    assert!(!alerts.try_subscribe(&"D".to_string(), 1, 100, 0, None));
}

#[test]
fn resubscribe_resets_state_to_active() {
    let mut alerts = AlertsStore::new();
    alerts.upsert_alert(&"A".to_string(), 1, 200, 1000, None);
    apply_delivery_outcome(&mut alerts, "A", 1, true, 7777, 250);
    alerts.upsert_alert(&"A".to_string(), 1, 300, 2000, Some(5));
    let listed = alerts.list_alerts_for_chat(1);
    assert_eq!(listed.len(), 1);
    assert_eq!(listed[0].active, 1);
    assert_eq!(listed[0].threshold, 300);
    assert_eq!(listed[0].triggered_at, None);
    assert_eq!(listed[0].triggered_value, None);
}

#[test]
fn unsubscribe_is_idempotent() {
    let mut alerts = AlertsStore::new();
    alerts.upsert_alert(&"A".to_string(), 1, 200, 1000, None);
    assert!(alerts.delete_alert("A", 1));
    assert!(!alerts.delete_alert("A", 1));
    assert!(!alerts.alert_exists("A", 1));
}

#[test]
fn listing_shows_active_entries_before_triggered_ones() {
    let mut alerts = AlertsStore::new();
    alerts.upsert_alert(&"A".to_string(), 1, 100, 0, None);
    alerts.upsert_alert(&"B".to_string(), 1, 200, 0, None);
    apply_delivery_outcome(&mut alerts, "A", 1, true, 1, 150);
    let listed = alerts.list_alerts_for_chat(1);
    assert_eq!(listed.len(), 2);
    assert_eq!(listed[0].station_name, "B");
    assert_eq!(listed[0].active, 1);
    assert_eq!(listed[1].station_name, "A");
    assert_eq!(listed[1].active, 0);
    let active_only = alerts.list_active_alerts_for_chat(1);
    assert_eq!(active_only.len(), 1);
    assert_eq!(active_only[0].station_name, "B");
}

#[test]
fn bounded_count_stops_at_the_cap() {
    let mut alerts = AlertsStore::new();
    alerts.upsert_alert(&"A".to_string(), 1, 100, 0, None);
    alerts.upsert_alert(&"B".to_string(), 1, 100, 0, None);
    alerts.upsert_alert(&"C".to_string(), 1, 100, 0, None);
    alerts.upsert_alert(&"D".to_string(), 1, 100, 0, None);
    assert_eq!(alerts.count_active_alerts_for_chat(1, 3), 3);
    assert_eq!(alerts.count_active_alerts_for_chat(1, 10), 4);
    assert_eq!(alerts.count_active_alerts_for_chat(2, 3), 0);
}
