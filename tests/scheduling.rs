use drift_reminders::registry::Registry;
use drift_reminders::reminder::{notification_body, notification_title, reminder_ids, ReminderPayload};
use drift_reminders::timing::{delay_for, delay_from_now, fire_delay, FALLBACK_DELAY_MS};

fn payload(id: &str, at: &str, title: &str, body: &str) -> ReminderPayload {
    ReminderPayload {
        id: id.to_string(),
        note_id: "n1".to_string(),
        at: at.to_string(),
        title: title.to_string(),
        body: body.to_string(),
    }
}

fn arm(reg: &mut Registry<String>, id: &str, handle: &str) -> (u64, Option<String>) {
    let token = reg.reserve_token().expect("token");
    let old = reg.insert_or_replace(id.to_string(), token, handle.to_string());
    (token, old)
}

#[test]
fn empty_title_and_body_get_defaults_at_fire_time() {
    let now: i64 = 1_700_000_000_000;
    let p = payload("r1", "", "", "");
    assert_eq!(fire_delay(Some(now + 50), now), Some(50));
    let mut reg: Registry<String> = Registry::new();
    let (token, old) = arm(&mut reg, "r1", "task");
    assert_eq!(old, None);
    assert!(reg.claim_fire(&"r1".to_string(), token));
    assert_eq!(notification_title(&p), "Drift reminder");
    assert_eq!(notification_body(&p), "Check your note.");
    // The stored record keeps its empty values.
    assert_eq!(p.title, "");
    assert_eq!(p.body, "");
}

#[test]
fn own_title_and_body_are_kept() {
    let p = payload("r1", "", "Call Ann", "About the lease");
    assert_eq!(notification_title(&p), "Call Ann");
    assert_eq!(notification_body(&p), "About the lease");
}

#[test]
fn rescheduling_fires_only_the_second() {
    let now: i64 = 1_700_000_000_000;
    assert_eq!(fire_delay(Some(now + 500), now), Some(500));
    assert_eq!(fire_delay(Some(now + 50), now), Some(50));
    let mut reg: Registry<String> = Registry::new();
    let (first, old1) = arm(&mut reg, "r1", "first payload");
    let (second, old2) = arm(&mut reg, "r1", "second payload");
    assert_eq!(old1, None);
    assert_eq!(old2, Some("first payload".to_string()));
    assert_ne!(first, second);
    // The second task's wait ends first and fires.
    assert!(reg.claim_fire(&"r1".to_string(), second));
    // The first, superseded, never fires.
    assert!(!reg.claim_fire(&"r1".to_string(), first));
}

#[test]
fn cancel_right_after_schedule_fires_nothing() {
    let mut reg: Registry<String> = Registry::new();
    let (token, _) = arm(&mut reg, "r1", "task");
    let aborted = reg.cancel(&vec!["r1".to_string()]);
    assert_eq!(aborted, vec!["task".to_string()]);
    assert!(!reg.claim_fire(&"r1".to_string(), token));
}

#[test]
fn future_reminder_fires_exactly_once() {
    let mut reg: Registry<String> = Registry::new();
    let (token, _) = arm(&mut reg, "r1", "task");
    assert!(reg.claim_fire(&"r1".to_string(), token));
    assert!(!reg.claim_fire(&"r1".to_string(), token));
}

#[test]
fn past_due_reminder_is_dropped() {
    let now: i64 = 1_700_000_000_000;
    assert_eq!(fire_delay(Some(now), now), None);
    assert_eq!(fire_delay(Some(now - 1), now), None);
    assert_eq!(fire_delay(Some(i64::MIN), i64::MAX), None);
    assert_eq!(fire_delay(Some(i64::MAX), i64::MIN), Some(u64::MAX));
}

#[test]
fn unreadable_time_waits_one_minute() {
    assert_eq!(FALLBACK_DELAY_MS, 60_000);
    assert_eq!(fire_delay(None, 5), Some(60_000));
    assert_eq!(delay_for("not a time", 1_700_000_000_000), Some(60_000));
}

#[test]
fn readable_time_is_parsed() {
    // 2024-01-01T00:00:00Z is 1_704_067_200_000 ms after the epoch.
    let at = "2024-01-01T00:00:00Z";
    assert_eq!(delay_for(at, 1_704_067_200_000 - 50), Some(50));
    assert_eq!(delay_for(at, 1_704_067_200_000), None);
    assert_eq!(delay_for("2024-01-01T01:00:00+01:00", 1_704_067_199_000), Some(1_000));
}

#[test]
fn delay_from_the_clock() {
    assert!(matches!(delay_from_now("2999-01-01T00:00:00Z"), Some(w) if w > 0));
    assert_eq!(delay_from_now("2000-01-01T00:00:00Z"), None);
    assert_eq!(delay_from_now("garbage"), Some(60_000));
}

#[test]
fn cancel_unknown_or_fired_is_a_no_op() {
    let mut reg: Registry<String> = Registry::new();
    assert!(reg.cancel(&vec!["never".to_string()]).is_empty());
    let (token, _) = arm(&mut reg, "r1", "task");
    assert!(reg.claim_fire(&"r1".to_string(), token));
    assert!(reg.cancel(&vec!["r1".to_string()]).is_empty());
    assert_eq!(reg.remove(&"r1".to_string()), None);
}

#[test]
fn cancel_many_returns_pending_handles_in_order() {
    let mut reg: Registry<String> = Registry::new();
    let (ta, _) = arm(&mut reg, "a", "ha");
    let (tb, _) = arm(&mut reg, "b", "hb");
    let (tc, _) = arm(&mut reg, "c", "hc");
    let ids = vec!["c".to_string(), "x".to_string(), "a".to_string(), "c".to_string()];
    assert_eq!(reg.cancel(&ids), vec!["hc".to_string(), "ha".to_string()]);
    assert!(!reg.claim_fire(&"a".to_string(), ta));
    assert!(!reg.claim_fire(&"c".to_string(), tc));
    assert!(reg.claim_fire(&"b".to_string(), tb));
}

#[test]
fn remove_takes_out_one_entry() {
    let mut reg: Registry<String> = Registry::new();
    let (ta, _) = arm(&mut reg, "a", "ha");
    let (tb, _) = arm(&mut reg, "b", "hb");
    assert_eq!(reg.remove(&"a".to_string()), Some("ha".to_string()));
    assert!(!reg.claim_fire(&"a".to_string(), ta));
    assert!(reg.claim_fire(&"b".to_string(), tb));
}

#[test]
fn stale_token_does_not_fire() {
    let mut reg: Registry<String> = Registry::new();
    let (ta, _) = arm(&mut reg, "a", "ha");
    assert!(!reg.claim_fire(&"a".to_string(), ta + 1));
    assert!(reg.claim_fire(&"a".to_string(), ta));
}

#[test]
fn tokens_are_fresh() {
    let mut reg: Registry<String> = Registry::new();
    assert_eq!(reg.reserve_token(), Some(0));
    assert_eq!(reg.reserve_token(), Some(1));
}

#[test]
fn ids_of_a_batch() {
    let batch = vec![payload("r1", "", "", ""), payload("r2", "", "", "")];
    assert_eq!(reminder_ids(&batch), vec!["r1".to_string(), "r2".to_string()]);
}
