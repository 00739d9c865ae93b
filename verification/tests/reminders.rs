use chrono::TimeZone;
use desklist::display::resolve_display;
use desklist::display::strip_trailing_z;
use desklist::model::Event;
use desklist::model::QueueEntry;
use desklist::model::Store;
use desklist::scheduler::mark_fired;
use desklist::scheduler::notification_for;
use desklist::scheduler::query_due;
use desklist::scheduler::run_tick;
use desklist::scheduler::tick_now;
use desklist::timecmp::str_eq;
use desklist::timecmp::str_le;

fn event(id: &str, title: &str, event_time: &str, completed: bool) -> Event {
    Event {
        id: id.to_string(),
        title: title.to_string(),
        event_time: event_time.to_string(),
        completed,
    }
}

fn entry(id: i64, event_id: &str, fire_at: &str, fired: bool) -> QueueEntry {
    QueueEntry {
        id,
        event_id: event_id.to_string(),
        fire_at: fire_at.to_string(),
        reminder_type: "default".to_string(),
        fired,
    }
}

fn store(events: Vec<Event>, queue: Vec<QueueEntry>) -> Store {
    Store { ready: true, events, queue }
}

/// The local rendering the scheduler owes for a UTC timestamp string.
fn expected_local(naive_utc: &str) -> String {
    let t = chrono::NaiveDateTime::parse_from_str(naive_utc, "%Y-%m-%dT%H:%M:%S%.f").unwrap();
    chrono::Utc
        .from_utc_datetime(&t)
        .with_timezone(&chrono::Local)
        .format("%Y-%m-%d %H:%M")
        .to_string()
}

#[test]
fn scenario_a_due_entry_fires() {
    let mut st = store(
        vec![event("e1", "Standup", "2024-01-15T09:00:00Z", false)],
        vec![entry(1, "e1", "2024-01-15T08:59:00", false)],
    );
    let notes = run_tick(&mut st, "2024-01-15T09:00:00");
    assert_eq!(notes.len(), 1);
    assert_eq!(notes[0].title, "Standup");
    let local = expected_local("2024-01-15T09:00:00");
    assert_eq!(notes[0].body, format!("Scheduled: {}", local));
    assert!(notes[0].body.contains(&local));
    assert!(st.queue[0].fired);
}

#[test]
fn scenario_b_completed_event_suppressed() {
    let mut st = store(
        vec![event("e1", "Standup", "2024-01-15T09:00:00Z", true)],
        vec![entry(1, "e1", "2024-01-15T08:59:00", false)],
    );
    let rows = query_due(&st.events, &st.queue, "2024-01-15T09:00:00");
    assert_eq!(rows.len(), 0);
    let notes = run_tick(&mut st, "9999-12-31T23:59:59");
    assert_eq!(notes.len(), 0);
    assert!(!st.queue[0].fired);
}

#[test]
fn scenario_c_future_fire_at_not_due() {
    let st = store(
        vec![event("e1", "Standup", "2024-01-15T09:00:00Z", false)],
        vec![entry(1, "e1", "2024-01-15T09:01:00", false)],
    );
    let rows = query_due(&st.events, &st.queue, "2024-01-15T09:00:00");
    assert_eq!(rows.len(), 0);
}

#[test]
fn scenario_d_malformed_event_time_falls_back() {
    assert_eq!(resolve_display("not-a-date"), "not-a-date");
    let mut st = store(
        vec![event("e1", "Standup", "not-a-date", false)],
        vec![entry(1, "e1", "2024-01-15T08:59:00", false)],
    );
    let notes = run_tick(&mut st, "2024-01-15T09:00:00");
    assert_eq!(notes.len(), 1);
    assert_eq!(notes[0].body, "Scheduled: not-a-date");
}

#[test]
fn scenario_e_failed_update_redelivers() {
    let st = store(
        vec![event("e1", "Standup", "2024-01-15T09:00:00Z", false)],
        vec![entry(1, "e1", "2024-01-15T08:59:00", false)],
    );
    let now = "2024-01-15T09:00:00";
    // First tick: the entry is due; the notification is shown, but the
    // store update fails, so the fired flag is never persisted.
    let rows = query_due(&st.events, &st.queue, now);
    assert_eq!(rows.len(), 1);
    assert_eq!(rows[0].entry_id, 1);
    assert!(!st.queue[0].fired);
    // Next tick: the entry is reported again (duplicate notification,
    // by design), and this time the update succeeds.
    let rows_again = query_due(&st.events, &st.queue, now);
    assert_eq!(rows_again.len(), 1);
    assert_eq!(rows_again[0].entry_id, 1);
    let mut queue = st.queue;
    mark_fired(&mut queue, 1);
    assert!(queue[0].fired);
    let rows_after = query_due(&st.events, &queue, now);
    assert_eq!(rows_after.len(), 0);
}

#[test]
fn second_tick_is_empty() {
    let mut st = store(
        vec![
            event("e1", "Standup", "2024-01-15T09:00:00Z", false),
            event("e2", "Review", "2024-01-15T10:00:00Z", false),
        ],
        vec![
            entry(1, "e1", "2024-01-15T08:59:00", false),
            entry(2, "e2", "2024-01-15T09:59:00", false),
        ],
    );
    let now = "2024-01-15T09:30:00";
    let first = run_tick(&mut st, now);
    assert_eq!(first.len(), 1);
    let queue_after_first: Vec<(i64, bool)> = st.queue.iter().map(|e| (e.id, e.fired)).collect();
    let second = run_tick(&mut st, now);
    assert_eq!(second.len(), 0);
    let queue_after_second: Vec<(i64, bool)> = st.queue.iter().map(|e| (e.id, e.fired)).collect();
    assert_eq!(queue_after_first, queue_after_second);
}

#[test]
fn fired_entry_never_due() {
    let st = store(
        vec![event("e1", "Standup", "2024-01-15T09:00:00Z", false)],
        vec![entry(1, "e1", "2024-01-15T08:59:00", true)],
    );
    let rows = query_due(&st.events, &st.queue, "9999-12-31T23:59:59");
    assert_eq!(rows.len(), 0);
}

#[test]
fn due_entry_reported_exactly_once() {
    let st = store(
        vec![
            event("e1", "Standup", "2024-01-15T09:00:00Z", false),
            event("e2", "Review", "2024-01-15T10:00:00Z", false),
        ],
        vec![
            entry(1, "e1", "2024-01-15T08:59:00", false),
            entry(2, "e2", "2024-01-15T09:59:00", false),
            entry(3, "e1", "2024-01-15T08:00:00", true),
        ],
    );
    let rows = query_due(&st.events, &st.queue, "2024-01-15T09:00:00");
    assert_eq!(rows.iter().filter(|r| r.entry_id == 1).count(), 1);
    assert_eq!(rows.len(), 1);
    assert_eq!(rows[0].event_id, "e1");
    assert_eq!(rows[0].fire_at, "2024-01-15T08:59:00");
    assert_eq!(rows[0].title, "Standup");
    assert_eq!(rows[0].event_time, "2024-01-15T09:00:00Z");
    assert_eq!(rows[0].reminder_type, "default");
}

#[test]
fn entry_without_owning_event_not_due() {
    let st = store(vec![], vec![entry(1, "ghostly", "2024-01-15T08:59:00", false)]);
    let rows = query_due(&st.events, &st.queue, "2024-01-15T09:00:00");
    assert_eq!(rows.len(), 0);
}

#[test]
fn not_ready_store_is_a_no_op() {
    let mut st = Store {
        ready: false,
        events: vec![event("e1", "Standup", "2024-01-15T09:00:00Z", false)],
        queue: vec![entry(1, "e1", "2024-01-15T08:59:00", false)],
    };
    let notes = run_tick(&mut st, "2024-01-15T09:00:00");
    assert_eq!(notes.len(), 0);
    assert!(!st.queue[0].fired);
}

#[test]
fn resolution_is_total_on_any_input() {
    assert_eq!(resolve_display(""), "");
    assert_eq!(resolve_display("short"), "short");
    assert_eq!(resolve_display("not-a-date"), "not-a-date");
    // Sixteen characters or more that do not parse: first sixteen, with
    // the separator turned into a space.
    assert_eq!(resolve_display("9999-99-99T99:99:99"), "9999-99-99 99:99");
    // Well-formed, without designator.
    assert_eq!(
        resolve_display("2024-01-15T09:00:00"),
        expected_local("2024-01-15T09:00:00")
    );
    // Well-formed, with UTC designator and fractional seconds.
    assert_eq!(
        resolve_display("2024-01-15T09:00:00.123Z"),
        expected_local("2024-01-15T09:00:00.123")
    );
    assert_eq!(resolve_display("2024-01-15T09:00:00Z").len(), 16);
}

#[test]
fn strip_trailing_z_cases() {
    assert_eq!(strip_trailing_z("2024-01-15T09:00:00Z"), "2024-01-15T09:00:00");
    assert_eq!(strip_trailing_z("2024-01-15T09:00:00"), "2024-01-15T09:00:00");
    assert_eq!(strip_trailing_z("Z"), "");
    assert_eq!(strip_trailing_z(""), "");
}

#[test]
fn timestamp_comparison_is_lexicographic() {
    assert!(str_le("2024-01-15T08:59:00", "2024-01-15T09:00:00"));
    assert!(str_le("2024-01-15T09:00:00", "2024-01-15T09:00:00"));
    assert!(!str_le("2024-01-15T09:00:01", "2024-01-15T09:00:00"));
    assert!(str_le("", "2024"));
    assert!(str_le("2024", "2024-01"));
    assert!(!str_le("2024-01", "2024"));
}

#[test]
fn string_equality_cases() {
    assert!(str_eq("e1", "e1"));
    assert!(!str_eq("e1", "e2"));
    assert!(!str_eq("e1", "e11"));
    assert!(str_eq("", ""));
}

#[test]
fn notification_content_is_title_and_prefixed_body() {
    let n = notification_for("Standup", "2024-01-15 09:00");
    assert_eq!(n.title, "Standup");
    assert_eq!(n.body, "Scheduled: 2024-01-15 09:00");
}

#[test]
fn mark_fired_touches_only_the_given_entry() {
    let mut queue = vec![
        entry(1, "e1", "2024-01-15T08:59:00", false),
        entry(2, "e2", "2024-01-15T09:59:00", false),
    ];
    mark_fired(&mut queue, 2);
    assert!(!queue[0].fired);
    assert!(queue[1].fired);
    assert_eq!(queue.len(), 2);
    assert_eq!(queue[1].event_id, "e2");
    assert_eq!(queue[1].fire_at, "2024-01-15T09:59:00");
}

#[test]
fn tick_now_fires_past_and_keeps_future() {
    let mut st = store(
        vec![event("e1", "Standup", "1970-01-01T09:00:00Z", false)],
        vec![
            entry(1, "e1", "1970-01-02T00:00:00", false),
            entry(2, "e1", "9999-12-31T23:59:59", false),
        ],
    );
    let notes = tick_now(&mut st);
    assert_eq!(notes.len(), 1);
    assert_eq!(notes[0].title, "Standup");
    assert!(st.queue[0].fired);
    assert!(!st.queue[1].fired);
}
