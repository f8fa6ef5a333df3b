use remindy::api::{
    add_reminder, alter_reminder_description, confirm_reminder_finish_event, cut_reminder_duration,
    delete_reminder, force_restart_reminder, pause_reminder, pop_reminder_history,
    pop_reminder_redo_history, push_reminder_duration, rename_reminder, reset_reminder_flags,
    restart_reminder, retime_reminder, snooze_reminder, toggle_reminder_repeat,
};
use remindy::clock::{Now, MAX_TIME, MIN_TIME, NANOS_PER_SECOND, SNOOZE_NANOS};
use remindy::past_event::PastEvent;
use remindy::reminder::{ApiReminder, Reminder, ReminderType, TimeObject};
use remindy::store::{get_reminder_by_id, DbFile, LoadError, Store, StoreError};
use remindy::sweep::sweep;

fn at(seconds: i128) -> Now {
    Now { unix_nanos: seconds * NANOS_PER_SECOND, offset_seconds: 0 }
}

fn api(name: &str, finish_seconds: i128, kind: ReminderType) -> ApiReminder {
    ApiReminder {
        name: name.to_string(),
        description: format!("{name} notes"),
        finish_time: finish_seconds * NANOS_PER_SECOND,
        reminder_type: kind,
    }
}

fn find<'a>(store: &'a Store, id: usize) -> Option<&'a Reminder> {
    store.reminders.iter().find(|r| r.id == id)
}

fn ids(rs: &[Reminder]) -> Vec<usize> {
    rs.iter().map(|r| r.id).collect()
}

fn names(rs: &[Reminder]) -> Vec<String> {
    rs.iter().map(|r| r.name.clone()).collect()
}

#[test]
fn add_assigns_one_more_than_largest_id() {
    let mut store = Store::new();
    assert_eq!(add_reminder(&mut store, api("a", 100, ReminderType::Duration), at(0)), Ok(1));
    assert_eq!(add_reminder(&mut store, api("b", 100, ReminderType::Duration), at(0)), Ok(2));
    store.reminders[0].id = 10;
    assert_eq!(add_reminder(&mut store, api("c", 100, ReminderType::Duration), at(0)), Ok(11));
    assert!(matches!(store.last_event, PastEvent::ReminderCreated(ref r) if r.name == "c" && r.id == 11));
    assert_eq!(store.history.len(), 3);
}

#[test]
fn add_refuses_when_ids_are_exhausted() {
    let mut store = Store::new();
    add_reminder(&mut store, api("a", 100, ReminderType::Duration), at(0)).unwrap();
    store.reminders[0].id = usize::MAX;
    assert_eq!(add_reminder(&mut store, api("b", 100, ReminderType::Duration), at(0)), Err(StoreError::IdsExhausted));
    assert_eq!(store.reminders.len(), 1);
}

#[test]
fn missing_id_is_not_found() {
    let mut store = Store::new();
    add_reminder(&mut store, api("a", 100, ReminderType::Duration), at(0)).unwrap();
    assert_eq!(get_reminder_by_id(&store.reminders, 9), None);
    assert_eq!(get_reminder_by_id(&store.reminders, 1), Some(0));
    assert_eq!(snooze_reminder(&mut store, 9, at(0)), Err(StoreError::NotFound));
    assert_eq!(delete_reminder(&mut store, 9), Err(StoreError::NotFound));
    assert_eq!(restart_reminder(&mut store, 9, at(0)), Err(StoreError::NotFound));
    assert_eq!(rename_reminder(&mut store, 9, "x".to_string()), Err(StoreError::NotFound));
    assert_eq!(pause_reminder(&mut store, 9), Err(StoreError::NotFound));
    assert_eq!(confirm_reminder_finish_event(&mut store, 9, at(0)), Err(StoreError::NotFound));
}

#[test]
fn delete_twice_removes() {
    let mut store = Store::new();
    add_reminder(&mut store, api("a", 100, ReminderType::Duration), at(0)).unwrap();
    add_reminder(&mut store, api("b", 100, ReminderType::Duration), at(0)).unwrap();
    assert_eq!(delete_reminder(&mut store, 1), Ok(()));
    assert!(find(&store, 1).unwrap().delete_flag);
    assert_eq!(delete_reminder(&mut store, 1), Ok(()));
    assert!(find(&store, 1).is_none());
    assert_eq!(ids(&store.reminders), vec![2]);
    assert!(matches!(store.last_event, PastEvent::ReminderDeleted(ref r) if r.name == "a"));
}

#[test]
fn reset_between_deletes_keeps_reminder() {
    let mut store = Store::new();
    add_reminder(&mut store, api("a", 100, ReminderType::Duration), at(0)).unwrap();
    delete_reminder(&mut store, 1).unwrap();
    restart_reminder(&mut store, 1, at(0)).unwrap();
    reset_reminder_flags(&mut store);
    let r = find(&store, 1).unwrap();
    assert!(!r.delete_flag && !r.restart_flag);
    delete_reminder(&mut store, 1).unwrap();
    assert!(find(&store, 1).unwrap().delete_flag);
}

#[test]
fn restart_is_two_phase() {
    let mut store = Store::new();
    add_reminder(&mut store, api("a", 100, ReminderType::Duration), at(0)).unwrap();
    restart_reminder(&mut store, 1, at(50)).unwrap();
    let r = find(&store, 1).unwrap();
    assert!(r.restart_flag);
    assert_eq!(r.finish_time, 100 * NANOS_PER_SECOND);
    restart_reminder(&mut store, 1, at(50)).unwrap();
    let r = find(&store, 1).unwrap();
    assert!(!r.restart_flag);
    assert_eq!(r.finish_time, 150 * NANOS_PER_SECOND);
    assert!(matches!(store.last_event, PastEvent::ReminderEdited(_)));
}

#[test]
fn force_restart_of_date_reports_refusal() {
    let mut store = Store::new();
    add_reminder(&mut store, api("d", 100, ReminderType::Date), at(0)).unwrap();
    force_restart_reminder(&mut store, 1, at(200)).unwrap();
    assert_eq!(find(&store, 1).unwrap().finish_time, 100 * NANOS_PER_SECOND);
    assert!(matches!(store.last_event, PastEvent::TryResetDateReminder(ref r) if r.name == "d"));
}

#[test]
fn edits_change_the_named_reminder() {
    let mut store = Store::new();
    add_reminder(&mut store, api("a", 100, ReminderType::Duration), at(0)).unwrap();
    add_reminder(&mut store, api("b", 100, ReminderType::Duration), at(0)).unwrap();
    rename_reminder(&mut store, 2, "bee".to_string()).unwrap();
    assert!(matches!(store.last_event, PastEvent::ReminderEdited(ref r) if r.name == "bee"));
    alter_reminder_description(&mut store, 2, "new".to_string()).unwrap();
    pause_reminder(&mut store, 2).unwrap();
    assert!(matches!(store.last_event, PastEvent::ReminderPause(ref r) if r.paused));
    retime_reminder(&mut store, 1, TimeObject { reminder_type: ReminderType::Time, finish_time: 500 * NANOS_PER_SECOND, duration: 400 * NANOS_PER_SECOND }).unwrap();
    let a = find(&store, 1).unwrap();
    assert_eq!((a.finish_time, a.whole_duration, a.reminder_type), (500 * NANOS_PER_SECOND, 400 * NANOS_PER_SECOND, ReminderType::Time));
    let b = find(&store, 2).unwrap();
    assert_eq!((b.name.as_str(), b.description.as_str(), b.paused), ("bee", "new", true));
    assert_eq!(find(&store, 1).unwrap().name, "a");
}

#[test]
fn push_and_cut_move_finish_time_with_saturation() {
    let mut store = Store::new();
    add_reminder(&mut store, api("a", 100, ReminderType::Duration), at(0)).unwrap();
    push_reminder_duration(&mut store, 1, 60 * NANOS_PER_SECOND).unwrap();
    assert_eq!(find(&store, 1).unwrap().finish_time, 160 * NANOS_PER_SECOND);
    cut_reminder_duration(&mut store, 1, 100 * NANOS_PER_SECOND).unwrap();
    assert_eq!(find(&store, 1).unwrap().finish_time, 60 * NANOS_PER_SECOND);
    push_reminder_duration(&mut store, 1, MAX_TIME).unwrap();
    assert_eq!(find(&store, 1).unwrap().finish_time, MAX_TIME);
    cut_reminder_duration(&mut store, 1, MAX_TIME - MIN_TIME + 1).unwrap();
    assert_eq!(find(&store, 1).unwrap().finish_time, MIN_TIME);
}

#[test]
fn snooze_and_toggle_repeat_through_store() {
    let mut store = Store::new();
    add_reminder(&mut store, api("a", 100, ReminderType::Duration), at(0)).unwrap();
    toggle_reminder_repeat(&mut store, 1, at(10)).unwrap();
    assert!(find(&store, 1).unwrap().repeating);
    assert!(matches!(store.last_event, PastEvent::ReminderRepeatToggle(_)));
    toggle_reminder_repeat(&mut store, 1, at(200)).unwrap();
    assert!(find(&store, 1).unwrap().repeating);
    snooze_reminder(&mut store, 1, at(50)).unwrap();
    assert_eq!(find(&store, 1).unwrap().finish_time, 100 * NANOS_PER_SECOND);
    snooze_reminder(&mut store, 1, at(100)).unwrap();
    assert_eq!(find(&store, 1).unwrap().finish_time, 100 * NANOS_PER_SECOND + SNOOZE_NANOS);
    assert!(matches!(store.last_event, PastEvent::ReminderSnooze(_)));
}

#[test]
fn undo_and_redo_walk_the_history() {
    let mut store = Store::new();
    add_reminder(&mut store, api("base", 100, ReminderType::Duration), at(0)).unwrap();
    let start = names(&store.reminders);
    let start_ids = ids(&store.reminders);
    add_reminder(&mut store, api("a", 100, ReminderType::Duration), at(0)).unwrap();
    rename_reminder(&mut store, 1, "renamed".to_string()).unwrap();
    delete_reminder(&mut store, 2).unwrap();
    delete_reminder(&mut store, 2).unwrap();
    let end = names(&store.reminders);
    for _ in 0..4 {
        pop_reminder_history(&mut store).unwrap();
    }
    assert_eq!(names(&store.reminders), start);
    assert_eq!(ids(&store.reminders), start_ids);
    for _ in 0..4 {
        pop_reminder_redo_history(&mut store).unwrap();
    }
    assert_eq!(names(&store.reminders), end);
    assert_eq!(end, vec!["renamed".to_string()]);
}

#[test]
fn undo_with_empty_history_fails() {
    let mut store = Store::new();
    assert_eq!(pop_reminder_history(&mut store), Err(StoreError::EmptyHistory));
    assert_eq!(pop_reminder_redo_history(&mut store), Err(StoreError::EmptyHistory));
    assert!(store.redoable_history.is_empty());
    assert!(store.history.is_empty());
}

#[test]
fn mutation_after_undo_starts_fresh_history() {
    let mut store = Store::new();
    add_reminder(&mut store, api("a", 100, ReminderType::Duration), at(0)).unwrap();
    add_reminder(&mut store, api("b", 100, ReminderType::Duration), at(0)).unwrap();
    pop_reminder_history(&mut store).unwrap();
    assert!(store.reset_history_on_change);
    pause_reminder(&mut store, 1).unwrap();
    assert!(!store.reset_history_on_change);
    assert_eq!(store.history.len(), 1);
}

#[test]
fn save_then_load_round_trips() {
    let mut store = Store::new();
    add_reminder(&mut store, api("a", 100, ReminderType::Duration), at(0)).unwrap();
    add_reminder(&mut store, api("b", 200, ReminderType::Time), at(0)).unwrap();
    pop_reminder_history(&mut store).unwrap();
    let saved = store.save();
    let loaded = Store::load(saved).ok().unwrap();
    assert!(matches!(loaded.last_event, PastEvent::NoEvent));
    let again = loaded.save();
    let first = store.save();
    assert_eq!(names(&again.reminders), names(&first.reminders));
    assert_eq!(again.history.len(), first.history.len());
    assert_eq!(again.redoable_history.len(), first.redoable_history.len());
    assert_eq!(names(&again.redoable_history[0]), vec!["a".to_string(), "b".to_string()]);
    assert_eq!(again.reset_history_on_change, first.reset_history_on_change);
}

#[test]
fn load_rejects_malformed_forms() {
    let mut store = Store::new();
    add_reminder(&mut store, api("a", 100, ReminderType::Duration), at(0)).unwrap();
    add_reminder(&mut store, api("b", 100, ReminderType::Duration), at(0)).unwrap();
    let mut twin: DbFile = store.save();
    twin.reminders[1].id = 1;
    assert_eq!(Store::load(twin).err(), Some(LoadError::Malformed));
    let mut late: DbFile = store.save();
    late.history[0].push(late.reminders[0].clone());
    late.history[0][0].finish_time = MAX_TIME + 1;
    assert_eq!(Store::load(late).err(), Some(LoadError::Malformed));
    assert!(Store::load(store.save()).is_ok());
}

#[test]
fn sweep_orders_latest_first_and_pushes_paused() {
    let mut store = Store::new();
    add_reminder(&mut store, api("soon", 100, ReminderType::Duration), at(0)).unwrap();
    add_reminder(&mut store, api("late", 900, ReminderType::Duration), at(0)).unwrap();
    add_reminder(&mut store, api("mid", 500, ReminderType::Duration), at(0)).unwrap();
    let outcome = sweep(&mut store, at(10));
    assert_eq!(names(&store.reminders), vec!["late", "mid", "soon"]);
    assert!(outcome.alerts.is_empty());
    assert!(!outcome.dirty);
    pause_reminder(&mut store, 3).unwrap();
    let outcome = sweep(&mut store, at(11));
    assert!(outcome.dirty);
    assert_eq!(find(&store, 3).unwrap().finish_time, 501 * NANOS_PER_SECOND);
}

#[test]
fn due_reminder_is_alerted_once_until_confirmed() {
    let now = at(1_000);
    let mut store = Store::new();
    add_reminder(&mut store, api("standup", 1_000, ReminderType::Duration), now).unwrap();
    assert_eq!(find(&store, 1).unwrap().whole_duration, 0);
    let first = sweep(&mut store, now);
    assert_eq!(first.alerts.len(), 1);
    assert_eq!(first.alerts[0].name, "standup");
    assert_eq!(first.alerts[0].description, "standup notes");
    assert!(find(&store, 1).unwrap().needs_confirmation);
    assert!(matches!(store.last_event, PastEvent::ReminderEnded(ref r) if r.name == "standup"));
    confirm_reminder_finish_event(&mut store, 1, at(1_001)).unwrap();
    let r = find(&store, 1).unwrap();
    assert!(!r.needs_confirmation && r.already_confirmed);
    let second = sweep(&mut store, at(1_002));
    assert!(second.alerts.is_empty());
}

#[test]
fn repeating_due_reminder_restarts_without_alert() {
    let start = at(1_000);
    let mut store = Store::new();
    add_reminder(&mut store, api("water", 1_060, ReminderType::Time), start).unwrap();
    toggle_reminder_repeat(&mut store, 1, start).unwrap();
    store.last_event = PastEvent::NoEvent;
    let later = at(1_120);
    let outcome = sweep(&mut store, later);
    let r = find(&store, 1).unwrap();
    assert!(r.finish_time > later.unix_nanos);
    assert_eq!(r.finish_time, 1_060 * NANOS_PER_SECOND + 86_400 * NANOS_PER_SECOND);
    assert!(!r.already_confirmed && !r.needs_confirmation);
    assert!(outcome.alerts.is_empty());
    assert!(outcome.dirty);
    assert!(matches!(store.last_event, PastEvent::NoEvent));
}
