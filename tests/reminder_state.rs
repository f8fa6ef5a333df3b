use remindy::clock::{Now, MAX_TIME, NANOS_PER_DAY, NANOS_PER_SECOND, SNOOZE_NANOS};
use remindy::past_event::PastEvent;
use remindy::reminder::{ApiReminder, Reminder, ReminderType};

const HOUR: i128 = 3600 * NANOS_PER_SECOND;

fn at(seconds: i128) -> Now {
    Now { unix_nanos: seconds * NANOS_PER_SECOND, offset_seconds: 3600 }
}

fn countdown(finish_seconds: i128, now: Now) -> Reminder {
    Reminder::from_api_reminder(
        1,
        ApiReminder {
            name: "tea".to_string(),
            description: "steep".to_string(),
            finish_time: finish_seconds * NANOS_PER_SECOND,
            reminder_type: ReminderType::Duration,
        },
        now,
    )
}

#[test]
fn new_reminder_starts_clean() {
    let now = at(1_000);
    let r = Reminder::new(7, "call".to_string(), ReminderType::Duration, 60 * NANOS_PER_SECOND, now.unix_nanos + 60 * NANOS_PER_SECOND, now);
    assert_eq!(r.id(), 7);
    assert_eq!(r.name(), "call");
    assert_eq!(r.description(), " ".repeat(25));
    assert_eq!(r.start_time, now.unix_nanos);
    assert!(!r.needs_confirmation() && !r.already_confirmed() && !r.delete_flag() && !r.restart_flag());
    assert!(!r.paused() && !r.repeating() && r.send_e_message());
}

#[test]
fn from_api_reminder_spans_until_finish() {
    let now = at(1_000);
    let r = countdown(1_600, now);
    assert_eq!(r.whole_duration, 600 * NANOS_PER_SECOND);
    assert_eq!(r.finish_time(), 1_600 * NANOS_PER_SECOND);
    assert_eq!(r.start_time, now.unix_nanos);
}

#[test]
fn remaining_duration_is_none_once_due() {
    let r = countdown(1_600, at(1_000));
    assert_eq!(r.remaining_duration(at(1_000)), Some(600 * NANOS_PER_SECOND));
    assert_eq!(r.remaining_duration(at(1_600)), None);
    assert_eq!(r.remaining_duration(at(2_000)), None);
}

#[test]
fn snooze_before_due_changes_nothing() {
    let mut r = countdown(1_600, at(1_000));
    let before = r.clone();
    r.snooze(at(1_200));
    assert_eq!(r.finish_time, before.finish_time);
    assert_eq!(r.start_time, before.start_time);
}

#[test]
fn snooze_when_due_moves_five_minutes() {
    let mut r = countdown(1_600, at(1_000));
    r.needs_confirmation = true;
    r.snooze(at(1_600));
    assert_eq!(r.finish_time, 1_600 * NANOS_PER_SECOND + SNOOZE_NANOS);
    assert_eq!(r.finish_time, 1_900 * NANOS_PER_SECOND);
    assert_eq!(r.start_time, 1_300 * NANOS_PER_SECOND);
    assert!(!r.needs_confirmation());
    assert!(!r.already_confirmed());
}

#[test]
fn snooze_saturates_at_the_last_instant() {
    let now = Now { unix_nanos: MAX_TIME, offset_seconds: 0 };
    let mut r = Reminder::from_api_reminder(
        1,
        ApiReminder { name: "x".to_string(), description: String::new(), finish_time: MAX_TIME, reminder_type: ReminderType::Date },
        now,
    );
    r.snooze(now);
    assert_eq!(r.finish_time, MAX_TIME);
}

#[test]
fn toggle_repeat_only_before_due() {
    let mut r = countdown(1_600, at(1_000));
    assert_eq!(r.toggle_repeat(at(1_100)), Some(true));
    assert!(r.repeating());
    assert_eq!(r.toggle_repeat(at(1_100)), Some(false));
    assert!(!r.repeating());
    assert_eq!(r.toggle_repeat(at(1_600)), None);
    assert!(!r.repeating());
}

#[test]
fn restart_duration_runs_whole_span_again() {
    let mut r = countdown(1_600, at(1_000));
    r.delete_flag = true;
    r.restart_flag = true;
    r.already_confirmed = true;
    let mut event = PastEvent::NoEvent;
    r.restart(at(5_000), &mut event);
    assert_eq!(r.finish_time, 5_600 * NANOS_PER_SECOND);
    assert_eq!(r.start_time, 5_000 * NANOS_PER_SECOND);
    assert!(!r.delete_flag && !r.restart_flag && !r.already_confirmed);
    assert!(matches!(event, PastEvent::NoEvent));
}

#[test]
fn restart_date_is_refused() {
    let now = at(1_000);
    let mut r = Reminder::from_api_reminder(
        3,
        ApiReminder { name: "visa".to_string(), description: String::new(), finish_time: 900 * NANOS_PER_SECOND, reminder_type: ReminderType::Date },
        now,
    );
    r.delete_flag = true;
    r.already_confirmed = true;
    let mut event = PastEvent::NoEvent;
    r.restart(at(2_000), &mut event);
    assert_eq!(r.finish_time, 900 * NANOS_PER_SECOND);
    assert_eq!(r.start_time, 1_000 * NANOS_PER_SECOND);
    assert!(r.delete_flag && r.already_confirmed && !r.restart_flag);
    match event {
        PastEvent::TryResetDateReminder(x) => assert_eq!(x.name, "visa"),
        _ => panic!("expected a refused restart"),
    }
}

#[test]
fn restart_time_moves_to_next_occurrence() {
    // 2024-01-01T07:00:00Z is 08:00 at UTC+1.
    let eight_local = 1_704_092_400;
    let start = at(eight_local - 3_600);
    let mut r = Reminder::from_api_reminder(
        4,
        ApiReminder { name: "standup".to_string(), description: String::new(), finish_time: eight_local * NANOS_PER_SECOND, reminder_type: ReminderType::Time },
        start,
    );
    // Four days later at 10:00 local: 08:00 has passed, so tomorrow 08:00.
    let now = Now { unix_nanos: (eight_local * NANOS_PER_SECOND) + 4 * NANOS_PER_DAY + 2 * HOUR, offset_seconds: 3600 };
    let mut event = PastEvent::NoEvent;
    r.restart(now, &mut event);
    assert_eq!(r.finish_time, eight_local * NANOS_PER_SECOND + 5 * NANOS_PER_DAY);
    assert_eq!(r.whole_duration, 22 * HOUR);
    // Four days later at 06:00 local: 08:00 is still ahead today.
    let early = Now { unix_nanos: (eight_local * NANOS_PER_SECOND) + 4 * NANOS_PER_DAY - 2 * HOUR, offset_seconds: 3600 };
    r.restart(early, &mut event);
    assert_eq!(r.finish_time, eight_local * NANOS_PER_SECOND + 4 * NANOS_PER_DAY);
    assert_eq!(r.whole_duration, 2 * HOUR);
}

#[test]
fn confirm_sticks_only_while_due() {
    let mut r = countdown(1_600, at(1_000));
    r.needs_confirmation = true;
    r.confirm_finish_event(at(1_200));
    assert!(!r.needs_confirmation() && !r.already_confirmed());
    r.needs_confirmation = true;
    r.confirm_finish_event(at(1_700));
    assert!(!r.needs_confirmation() && r.already_confirmed());
}

#[test]
fn request_confirmation_records_end_once() {
    let mut r = countdown(1_600, at(1_000));
    let mut event = PastEvent::NoEvent;
    r.request_confirmation(&mut event);
    assert!(r.needs_confirmation());
    assert!(matches!(event, PastEvent::ReminderEnded(ref x) if x.name == "tea"));
    r.already_confirmed = true;
    r.needs_confirmation = false;
    let mut second = PastEvent::WrongInput;
    r.request_confirmation(&mut second);
    assert!(!r.needs_confirmation());
    assert!(matches!(second, PastEvent::WrongInput));
}

#[test]
fn paused_reminder_is_pushed_back() {
    let mut r = countdown(1_600, at(1_000));
    r.push_back_end_time_if_paused(NANOS_PER_SECOND);
    assert_eq!(r.finish_time, 1_600 * NANOS_PER_SECOND);
    r.toggle_pause();
    r.push_back_end_time_if_paused(NANOS_PER_SECOND);
    assert_eq!(r.finish_time, 1_601 * NANOS_PER_SECOND);
}

#[test]
fn setters_withdraw_confirmation() {
    let mut r = countdown(1_600, at(1_000));
    r.already_confirmed = true;
    r.set_finish_time(42);
    assert_eq!(r.finish_time(), 42);
    assert!(!r.already_confirmed());
    r.already_confirmed = true;
    r.set_whole_duration(7);
    assert_eq!(r.whole_duration, 7);
    assert!(!r.already_confirmed());
    r.set_name("x".to_string());
    r.set_description("y".to_string());
    r.set_reminder_type(ReminderType::Time);
    r.toggle_send_e_message();
    assert_eq!((r.name(), r.description(), r.reminder_type, r.send_e_message()), ("x", "y", ReminderType::Time, false));
    r.set_delete_flag(true);
    r.set_restart_flag(true);
    assert!(r.delete_flag() && r.restart_flag());
}

#[test]
fn duplicate_is_equal_field_by_field() {
    let r = countdown(1_600, at(1_000));
    let d = r.duplicate();
    assert_eq!((d.id, d.name.as_str(), d.description.as_str(), d.finish_time, d.start_time), (r.id, "tea", "steep", r.finish_time, r.start_time));
}
