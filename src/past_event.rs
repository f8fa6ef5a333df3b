//! The most recent notable event, shown as a one-line status by clients.
use vstd::prelude::*;

use crate::reminder::Reminder;

verus! {

/// A single most-recent event; each notable change overwrites it.
#[derive(Debug, Clone)]
pub enum PastEvent {
    ReminderEnded(Reminder),
    ReminderRepeatToggle(Reminder),
    WrongInput,
    TryResetDateReminder(Reminder),
    ReminderCreated(Reminder),
    ReminderEdited(Reminder),
    ReminderDeleted(Reminder),
    ReminderSnooze(Reminder),
    ReminderPause(Reminder),
    NoEvent,
}

} // verus!
