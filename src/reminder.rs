//! A reminder and its state machine.
use vstd::prelude::*;

use crate::clock::{
    clamp_time, next_occurrence, next_occurrence_of, saturating_add, valid_span, valid_time, Now,
    SNOOZE_NANOS,
};
use crate::past_event::PastEvent;

verus! {

/// How a reminder's deadline was given, which decides how it restarts.
#[derive(Clone, Copy, Debug, PartialEq, Eq, Structural)]
pub enum ReminderType {
    /// A countdown: a restart runs the whole span again from now.
    Duration,
    /// A time of day: a restart moves it to the next such time.
    Time,
    /// A fixed date: it cannot restart.
    Date,
}

/// The fields of a new reminder as a client sends them.
#[derive(Clone, Debug)]
pub struct ApiReminder {
    pub name: String,
    pub description: String,
    pub finish_time: i128,
    pub reminder_type: ReminderType,
}

/// A new deadline for a reminder.
#[derive(Clone, Copy, Debug, PartialEq, Eq, Structural)]
pub struct TimeObject {
    pub reminder_type: ReminderType,
    pub finish_time: i128,
    pub duration: i128,
}

impl TimeObject {
    pub open spec fn valid(self) -> bool {
        valid_time(self.finish_time as int) && valid_span(self.duration as int)
    }
}

/// A reminder. Times are nanoseconds since the Unix epoch, spans nanoseconds.
#[derive(Clone, Debug)]
pub struct Reminder {
    pub id: usize,
    pub name: String,
    pub description: String,
    pub start_time: i128,
    pub reminder_type: ReminderType,
    pub whole_duration: i128,
    pub finish_time: i128,
    pub needs_confirmation: bool,
    pub already_confirmed: bool,
    pub delete_flag: bool,
    pub restart_flag: bool,
    pub paused: bool,
    pub repeating: bool,
    pub send_e_message: bool,
}

/// The description a reminder starts with: twenty-five spaces.
pub open spec fn blank_description() -> Seq<char> {
    Seq::new(25, |_i: int| ' ')
}

fn new_blank_description() -> (r: String)
    ensures
        r@ == blank_description(),
{
    proof {
        reveal_strlit("                         ");
    }
    let r = "                         ".to_owned();
    assert(r@ =~= blank_description());
    r
}

/// A reminder is due once its finish time is not after `now`.
pub open spec fn due_at(finish_time: int, now: Now) -> bool {
    finish_time <= now.unix_nanos
}

impl Reminder {
    /// Its times lie in the valid range and its span fits.
    pub open spec fn wf(self) -> bool {
        &&& valid_time(self.start_time as int)
        &&& valid_time(self.finish_time as int)
        &&& valid_span(self.whole_duration as int)
    }

    pub open spec fn is_due(self, now: Now) -> bool {
        due_at(self.finish_time as int, now)
    }

    /// The reminder as `restart` leaves it.
    pub open spec fn restarted(self, now: Now) -> Reminder {
        match self.reminder_type {
            ReminderType::Time => {
                let finish = next_occurrence(self.finish_time as int, now);
                Reminder {
                    start_time: now.unix_nanos,
                    finish_time: finish as i128,
                    whole_duration: (finish - now.unix_nanos) as i128,
                    delete_flag: false,
                    restart_flag: false,
                    already_confirmed: false,
                    ..self
                }
            },
            ReminderType::Duration => Reminder {
                start_time: now.unix_nanos,
                finish_time: clamp_time(now.unix_nanos + self.whole_duration) as i128,
                delete_flag: false,
                restart_flag: false,
                already_confirmed: false,
                ..self
            },
            ReminderType::Date => self,
        }
    }

    /// The reminder as `snooze` leaves it.
    pub open spec fn snoozed(self, now: Now) -> Reminder {
        if self.is_due(now) {
            Reminder {
                finish_time: clamp_time(self.finish_time + SNOOZE_NANOS) as i128,
                start_time: clamp_time(self.start_time + SNOOZE_NANOS) as i128,
                needs_confirmation: false,
                already_confirmed: false,
                ..self
            }
        } else {
            self
        }
    }

    /// The reminder as `confirm_finish_event` leaves it.
    pub open spec fn confirmed(self, now: Now) -> Reminder {
        Reminder {
            needs_confirmation: false,
            already_confirmed: if self.is_due(now) {
                true
            } else {
                self.already_confirmed
            },
            ..self
        }
    }

    /// The reminder as `toggle_repeat` leaves it.
    pub open spec fn repeat_toggled(self, now: Now) -> Reminder {
        if self.is_due(now) {
            self
        } else {
            Reminder { repeating: !self.repeating, ..self }
        }
    }

    /// The reminder as `push_back_end_time_if_paused` leaves it.
    pub open spec fn pushed_back(self, amount: int) -> Reminder {
        if self.paused {
            Reminder { finish_time: clamp_time(self.finish_time + amount) as i128, ..self }
        } else {
            self
        }
    }

    /// The reminder as `request_confirmation` leaves it.
    pub open spec fn confirmation_requested(self) -> Reminder {
        if self.already_confirmed {
            self
        } else {
            Reminder { needs_confirmation: true, ..self }
        }
    }

    /// A new reminder, started now, with a blank description.
    pub fn new(
        id: usize,
        name: String,
        reminder_type: ReminderType,
        duration: i128,
        finish_time: i128,
        now: Now,
    ) -> (r: Reminder)
        requires
            now.valid(),
            valid_span(duration as int),
            valid_time(finish_time as int),
        ensures
            r.wf(),
            r.id == id,
            r.name == name,
            r.description@ == blank_description(),
            r.start_time == now.unix_nanos,
            r.reminder_type == reminder_type,
            r.whole_duration == duration,
            r.finish_time == finish_time,
            !r.needs_confirmation,
            !r.already_confirmed,
            !r.delete_flag,
            !r.restart_flag,
            !r.paused,
            !r.repeating,
            r.send_e_message,
    {
        Reminder {
            id,
            name,
            description: new_blank_description(),
            start_time: now.unix_nanos,
            reminder_type,
            whole_duration: duration,
            finish_time,
            needs_confirmation: false,
            already_confirmed: false,
            delete_flag: false,
            restart_flag: false,
            paused: false,
            repeating: false,
            send_e_message: true,
        }
    }

    /// A new reminder from a client's fields: it starts now, and its span runs
    /// from now to the given finish time.
    pub fn from_api_reminder(id: usize, value: ApiReminder, now: Now) -> (r: Reminder)
        requires
            now.valid(),
            valid_time(value.finish_time as int),
        ensures
            r == Reminder::from_api_spec(id, value, now),
            r.wf(),
    {
        Reminder {
            id,
            name: value.name,
            description: value.description,
            start_time: now.unix_nanos,
            whole_duration: value.finish_time - now.unix_nanos,
            finish_time: value.finish_time,
            needs_confirmation: false,
            already_confirmed: false,
            delete_flag: false,
            restart_flag: false,
            reminder_type: value.reminder_type,
            paused: false,
            repeating: false,
            send_e_message: true,
        }
    }

    pub open spec fn from_api_spec(id: usize, value: ApiReminder, now: Now) -> Reminder {
        Reminder {
            id,
            name: value.name,
            description: value.description,
            start_time: now.unix_nanos,
            whole_duration: (value.finish_time - now.unix_nanos) as i128,
            finish_time: value.finish_time,
            needs_confirmation: false,
            already_confirmed: false,
            delete_flag: false,
            restart_flag: false,
            reminder_type: value.reminder_type,
            paused: false,
            repeating: false,
            send_e_message: true,
        }
    }

    /// A copy equal to this reminder in every field.
    pub fn duplicate(&self) -> (r: Reminder)
        ensures
            r == *self,
    {
        Reminder {
            id: self.id,
            name: self.name.clone(),
            description: self.description.clone(),
            start_time: self.start_time,
            reminder_type: self.reminder_type,
            whole_duration: self.whole_duration,
            finish_time: self.finish_time,
            needs_confirmation: self.needs_confirmation,
            already_confirmed: self.already_confirmed,
            delete_flag: self.delete_flag,
            restart_flag: self.restart_flag,
            paused: self.paused,
            repeating: self.repeating,
            send_e_message: self.send_e_message,
        }
    }

    pub fn id(&self) -> (r: usize)
        ensures
            r == self.id,
    {
        self.id
    }

    pub fn name(&self) -> (r: &str)
        ensures
            r@ == self.name@,
    {
        self.name.as_str()
    }

    pub fn set_name(&mut self, name: String)
        ensures
            *final(self) == (Reminder { name, ..*old(self) }),
    {
        self.name = name;
    }

    pub fn description(&self) -> (r: &str)
        ensures
            r@ == self.description@,
    {
        self.description.as_str()
    }

    pub fn set_description(&mut self, description: String)
        ensures
            *final(self) == (Reminder { description, ..*old(self) }),
    {
        self.description = description;
    }

    pub fn set_reminder_type(&mut self, reminder_type: ReminderType)
        ensures
            *final(self) == (Reminder { reminder_type, ..*old(self) }),
    {
        self.reminder_type = reminder_type;
    }

    pub fn send_e_message(&self) -> (r: bool)
        ensures
            r == self.send_e_message,
    {
        self.send_e_message
    }

    pub fn toggle_send_e_message(&mut self)
        ensures
            *final(self) == (Reminder { send_e_message: !old(self).send_e_message, ..*old(self) }),
    {
        self.send_e_message = !self.send_e_message;
    }

    /// The time left until the finish time, if any is left.
    pub fn remaining_duration(&self, now: Now) -> (r: Option<i128>)
        requires
            self.wf(),
            now.valid(),
        ensures
            r == (if self.is_due(now) {
                None
            } else {
                Some((self.finish_time - now.unix_nanos) as i128)
            }),
    {
        let difference = self.finish_time - now.unix_nanos;
        if difference > 0 {
            Some(difference)
        } else {
            None
        }
    }

    /// Sets the whole span; a confirmation given before no longer stands.
    pub fn set_whole_duration(&mut self, whole_duration: i128)
        ensures
            *final(self) == (Reminder { whole_duration, already_confirmed: false, ..*old(self) }),
    {
        self.whole_duration = whole_duration;
        self.already_confirmed = false;
    }

    pub fn already_confirmed(&self) -> (r: bool)
        ensures
            r == self.already_confirmed,
    {
        self.already_confirmed
    }

    pub fn finish_time(&self) -> (r: i128)
        ensures
            r == self.finish_time,
    {
        self.finish_time
    }

    /// Sets the finish time; a confirmation given before no longer stands.
    pub fn set_finish_time(&mut self, finish_time: i128)
        ensures
            *final(self) == (Reminder { finish_time, already_confirmed: false, ..*old(self) }),
    {
        self.already_confirmed = false;
        self.finish_time = finish_time;
    }

    pub fn needs_confirmation(&self) -> (r: bool)
        ensures
            r == self.needs_confirmation,
    {
        self.needs_confirmation
    }

    /// Acknowledges the end of the reminder. It counts as confirmed only while
    /// it is still due, so a confirm that races with a restart does not stick.
    pub fn confirm_finish_event(&mut self, now: Now)
        requires
            old(self).wf(),
            now.valid(),
        ensures
            *final(self) == old(self).confirmed(now),
    {
        self.needs_confirmation = false;
        if self.remaining_duration(now).is_none() {
            self.already_confirmed = true;
        }
    }

    /// Asks for a confirmation of the end, unless one was given already; the
    /// event then records that the reminder ended.
    pub fn request_confirmation(&mut self, last_event: &mut PastEvent)
        ensures
            *final(self) == old(self).confirmation_requested(),
            old(self).already_confirmed ==> *final(last_event) == *old(last_event),
            !old(self).already_confirmed ==> *final(last_event) == PastEvent::ReminderEnded(
                *old(self),
            ),
    {
        if !self.already_confirmed {
            *last_event = PastEvent::ReminderEnded(self.duplicate());
            self.needs_confirmation = true;
        }
    }

    pub fn delete_flag(&self) -> (r: bool)
        ensures
            r == self.delete_flag,
    {
        self.delete_flag
    }

    pub fn set_delete_flag(&mut self, flag: bool)
        ensures
            *final(self) == (Reminder { delete_flag: flag, ..*old(self) }),
    {
        self.delete_flag = flag;
    }

    pub fn restart_flag(&self) -> (r: bool)
        ensures
            r == self.restart_flag,
    {
        self.restart_flag
    }

    pub fn paused(&self) -> (r: bool)
        ensures
            r == self.paused,
    {
        self.paused
    }

    pub fn set_restart_flag(&mut self, flag: bool)
        ensures
            *final(self) == (Reminder { restart_flag: flag, ..*old(self) }),
    {
        self.restart_flag = flag;
    }

    pub fn repeating(&self) -> (r: bool)
        ensures
            r == self.repeating,
    {
        self.repeating
    }

    /// Flips whether the reminder repeats, which is allowed only while it is
    /// not yet due. Returns the new value, or `None` when nothing changed.
    pub fn toggle_repeat(&mut self, now: Now) -> (r: Option<bool>)
        requires
            old(self).wf(),
            now.valid(),
        ensures
            *final(self) == old(self).repeat_toggled(now),
            r == (if old(self).is_due(now) {
                None
            } else {
                Some(!old(self).repeating)
            }),
    {
        let time_left = self.finish_time - now.unix_nanos;
        if time_left > 0 {
            self.repeating = !self.repeating;
            return Some(self.repeating);
        }
        None
    }

    /// Pushes the finish time back by `push_back_amount` while paused, so that
    /// the time left appears frozen.
    pub fn push_back_end_time_if_paused(&mut self, push_back_amount: i128)
        requires
            old(self).wf(),
            valid_span(push_back_amount as int),
        ensures
            *final(self) == old(self).pushed_back(push_back_amount as int),
            final(self).wf(),
    {
        if self.paused {
            self.finish_time = saturating_add(self.finish_time, push_back_amount);
        }
    }

    pub fn toggle_pause(&mut self)
        ensures
            *final(self) == (Reminder { paused: !old(self).paused, ..*old(self) }),
    {
        self.paused = !self.paused;
    }

    /// Starts the reminder over from now. A time-of-day reminder moves to the
    /// next such time and a countdown runs its whole span again; both clear
    /// the arming flags and the confirmation. A date reminder cannot restart:
    /// it stays as it is and the event says so.
    pub fn restart(&mut self, now: Now, last_event: &mut PastEvent)
        requires
            old(self).wf(),
            now.valid(),
        ensures
            *final(self) == old(self).restarted(now),
            final(self).wf(),
            old(self).reminder_type == ReminderType::Date ==> *final(last_event)
                == PastEvent::TryResetDateReminder(*old(self)),
            old(self).reminder_type != ReminderType::Date ==> *final(last_event) == *old(
                last_event,
            ),
    {
        match self.reminder_type {
            ReminderType::Time => {
                self.start_time = now.unix_nanos;
                self.finish_time = next_occurrence_of(self.finish_time, now);
                self.whole_duration = self.finish_time - now.unix_nanos;
            },
            ReminderType::Duration => {
                self.start_time = now.unix_nanos;
                self.finish_time = saturating_add(now.unix_nanos, self.whole_duration);
            },
            ReminderType::Date => {
                *last_event = PastEvent::TryResetDateReminder(self.duplicate());
                return ;
            },
        }
        self.delete_flag = false;
        self.restart_flag = false;
        self.already_confirmed = false;
    }

    /// Pushes a reminder that is already due five minutes on, and withdraws
    /// its confirmation state; a reminder that has not fired stays as it is.
    pub fn snooze(&mut self, now: Now)
        requires
            old(self).wf(),
            now.valid(),
        ensures
            *final(self) == old(self).snoozed(now),
            final(self).wf(),
    {
        if self.finish_time <= now.unix_nanos {
            self.finish_time = saturating_add(self.finish_time, SNOOZE_NANOS);
            self.start_time = saturating_add(self.start_time, SNOOZE_NANOS);
            self.needs_confirmation = false;
            self.already_confirmed = false;
        }
    }
}

} // verus!
