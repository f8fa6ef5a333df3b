//! The operations that requests perform on the store. Each one takes the
//! history snapshot first and then applies exactly one change; a missing id
//! is reported as `NotFound` and changes nothing but the snapshot.
use vstd::prelude::*;

use crate::clock::{clamp_time, saturating_add, saturating_sub, valid_time, Now, MAX_SPAN};
use crate::past_event::PastEvent;
use crate::reminder::{ApiReminder, Reminder, ReminderType, TimeObject};
use crate::store::{
    copy_reminders, get_reminder_by_id, holds_id, index_of, lemma_index_of, lemma_max_id,
    lemma_remove_wf, lemma_update_wf, max_id, snapshots, wf_list, Store, StoreError, StoreModel,
};

verus! {

/// The reminder with `id`, when `holds_id(rs, id)`.
pub open spec fn with_id(rs: Seq<Reminder>, id: usize) -> Reminder {
    rs[index_of(rs, id)]
}

/// The store after `add_reminder` succeeded with `id`.
pub open spec fn added(m: StoreModel, id: usize, value: ApiReminder, now: Now) -> StoreModel {
    let rec = m.recorded();
    StoreModel {
        reminders: rec.reminders.push(Reminder::from_api_spec(id, value, now)),
        ..rec
    }
}

/// Adds a reminder made from a client's fields. Its id is one more than the
/// largest id in use (or 1 in an empty store), which keeps ids unique.
pub fn add_reminder(store: &mut Store, api_reminder: ApiReminder, now: Now) -> (r: Result<
    usize,
    StoreError,
>)
    requires
        old(store).wf(),
        now.valid(),
        valid_time(api_reminder.finish_time as int),
    ensures
        final(store).wf(),
        max_id(old(store)@.reminders) < usize::MAX ==> {
            let id = (max_id(old(store)@.reminders) + 1) as usize;
            &&& r == Ok::<usize, StoreError>(id)
            &&& final(store)@ == added(old(store)@, id, api_reminder, now)
            &&& final(store).last_event == PastEvent::ReminderCreated(
                Reminder::from_api_spec(id, api_reminder, now),
            )
        },
        max_id(old(store)@.reminders) == usize::MAX ==> {
            &&& r == Err::<usize, StoreError>(StoreError::IdsExhausted)
            &&& final(store)@ == old(store)@.recorded()
            &&& final(store).last_event == old(store).last_event
        },
{
    store.record_history();
    let mut max: usize = 0;
    let mut i: usize = 0;
    while i < store.reminders.len()
        invariant
            i <= store.reminders.len(),
            max == max_id(store.reminders@.subrange(0, i as int)),
        decreases store.reminders.len() - i,
    {
        proof {
            let s = store.reminders@.subrange(0, i as int + 1);
            assert(s.drop_last() =~= store.reminders@.subrange(0, i as int));
        }
        if store.reminders[i].id > max {
            max = store.reminders[i].id;
        }
        i = i + 1;
    }
    assert(store.reminders@.subrange(0, i as int) =~= store.reminders@);
    if max == usize::MAX {
        return Err(StoreError::IdsExhausted);
    }
    let new_id = max + 1;
    let new_reminder = Reminder::from_api_reminder(new_id, api_reminder, now);
    store.last_event = PastEvent::ReminderCreated(new_reminder.duplicate());
    let ghost before = store.reminders@;
    store.reminders.push(new_reminder);
    proof {
        lemma_max_id(before);
        let rs = store.reminders@;
        assert forall|a: int, b: int|
            0 <= a < rs.len() && 0 <= b < rs.len() && a != b implies #[trigger] rs[a].id
            != #[trigger] rs[b].id by {
            if a < before.len() {
                assert(rs[a] == before[a]);
            }
            if b < before.len() {
                assert(rs[b] == before[b]);
            }
        }
        assert forall|a: int| 0 <= a < rs.len() implies #[trigger] rs[a].wf() by {
            if a < before.len() {
                assert(rs[a] == before[a]);
            }
        }
    }
    Ok(new_id)
}

/// The two-phase restart: the first request arms the restart flag, a second
/// while armed restarts the reminder (and records it as edited).
pub fn restart_reminder(store: &mut Store, id: usize, now: Now) -> (r: Result<(), StoreError>)
    requires
        old(store).wf(),
        now.valid(),
    ensures
        final(store).wf(),
        final(store)@ == old(store)@.restart_requested(id, now),
        r is Ok <==> holds_id(old(store)@.reminders, id),
        r is Err ==> r == Err::<(), StoreError>(StoreError::NotFound),
        r is Err || !with_id(old(store)@.reminders, id).restart_flag ==> final(store).last_event
            == old(store).last_event,
        r is Ok && with_id(old(store)@.reminders, id).restart_flag ==> {
            let before = with_id(old(store)@.reminders, id);
            final(store).last_event == if before.reminder_type == ReminderType::Date {
                PastEvent::TryResetDateReminder(before)
            } else {
                PastEvent::ReminderEdited(before)
            }
        },
{
    store.record_history();
    match get_reminder_by_id(&store.reminders, id) {
        None => Err(StoreError::NotFound),
        Some(i) => {
            let ghost before = store.reminders@;
            assert(before[i as int].wf());
            if store.reminders[i].restart_flag {
                let mut event = PastEvent::ReminderEdited(store.reminders[i].duplicate());
                store.reminders[i].restart(now, &mut event);
                store.last_event = event;
            } else {
                store.reminders[i].set_restart_flag(true);
            }
            proof {
                lemma_update_wf(before, i as int, store.reminders@[i as int]);
                assert(store.reminders@ =~= before.update(i as int, store.reminders@[i as int]));
            }
            Ok(())
        },
    }
}

/// Restarts the reminder at once, without the arming step.
pub fn force_restart_reminder(store: &mut Store, id: usize, now: Now) -> (r: Result<
    (),
    StoreError,
>)
    requires
        old(store).wf(),
        now.valid(),
    ensures
        final(store).wf(),
        final(store)@ == old(store)@.recorded().edited(id, |x: Reminder| x.restarted(now)),
        r is Ok <==> holds_id(old(store)@.reminders, id),
        r is Err ==> r == Err::<(), StoreError>(StoreError::NotFound),
        r is Ok && with_id(old(store)@.reminders, id).reminder_type
            == ReminderType::Date ==> final(store).last_event
            == PastEvent::TryResetDateReminder(with_id(old(store)@.reminders, id)),
        r is Err || with_id(old(store)@.reminders, id).reminder_type
            != ReminderType::Date ==> final(store).last_event == old(
            store,
        ).last_event,
{
    store.record_history();
    match get_reminder_by_id(&store.reminders, id) {
        None => Err(StoreError::NotFound),
        Some(i) => {
            let ghost before = store.reminders@;
            let mut event = PastEvent::NoEvent;
            std::mem::swap(&mut event, &mut store.last_event);
            store.reminders[i].restart(now, &mut event);
            store.last_event = event;
            proof {
                lemma_update_wf(before, i as int, store.reminders@[i as int]);
            }
            Ok(())
        },
    }
}

/// Renames the reminder and records it as edited.
pub fn rename_reminder(store: &mut Store, id: usize, name: String) -> (r: Result<(), StoreError>)
    requires
        old(store).wf(),
    ensures
        final(store).wf(),
        final(store)@ == old(store)@.recorded().edited(id, |x: Reminder| Reminder { name, ..x }),
        r is Ok <==> holds_id(old(store)@.reminders, id),
        r is Err ==> r == Err::<(), StoreError>(StoreError::NotFound),
        r is Ok ==> final(store).last_event == PastEvent::ReminderEdited(
            with_id(final(store)@.reminders, id),
        ),
        r is Err ==> final(store).last_event == old(store).last_event,
{
    store.record_history();
    match get_reminder_by_id(&store.reminders, id) {
        None => Err(StoreError::NotFound),
        Some(i) => {
            let ghost before = store.reminders@;
            assert(before[i as int].wf());
            store.reminders[i].set_name(name);
            store.last_event = PastEvent::ReminderEdited(store.reminders[i].duplicate());
            proof {
                lemma_update_wf(before, i as int, store.reminders@[i as int]);
                lemma_index_of(store.reminders@, id, i as int);
            }
            Ok(())
        },
    }
}

/// Disarms the delete and restart flags of every reminder.
pub fn reset_reminder_flags(store: &mut Store)
    requires
        old(store).wf(),
    ensures
        final(store).wf(),
        final(store)@ == old(store)@.flags_reset(),
        final(store).last_event == old(store).last_event,
{
    store.record_history();
    let ghost before = store.reminders@;
    let mut i: usize = 0;
    while i < store.reminders.len()
        invariant
            store@.history == old(store)@.recorded().history,
            store@.redoable_history == old(store)@.recorded().redoable_history,
            store@.reset_history_on_change == false,
            store.last_event == old(store).last_event,
            before == old(store)@.reminders,
            wf_list(before),
            i <= store.reminders.len(),
            store.reminders.len() == before.len(),
            forall|j: int|
                0 <= j < i ==> #[trigger] store.reminders@[j] == (Reminder {
                    delete_flag: false,
                    restart_flag: false,
                    ..before[j]
                }),
            forall|j: int| i <= j < before.len() ==> #[trigger] store.reminders@[j] == before[j],
        decreases before.len() - i,
    {
        store.reminders[i].set_restart_flag(false);
        store.reminders[i].set_delete_flag(false);
        i = i + 1;
    }
    proof {
        let rs = store.reminders@;
        assert(rs =~= before.map_values(
            |r: Reminder| Reminder { delete_flag: false, restart_flag: false, ..r },
        ));
        assert forall|a: int, b: int|
            0 <= a < rs.len() && 0 <= b < rs.len() && a != b implies #[trigger] rs[a].id
            != #[trigger] rs[b].id by {
            assert(rs[a].id == before[a].id);
            assert(rs[b].id == before[b].id);
        }
        assert forall|a: int| 0 <= a < rs.len() implies #[trigger] rs[a].wf() by {
            assert(before[a].wf());
        }
    }
}

/// Snoozes the reminder and records the snooze.
pub fn snooze_reminder(store: &mut Store, id: usize, now: Now) -> (r: Result<(), StoreError>)
    requires
        old(store).wf(),
        now.valid(),
    ensures
        final(store).wf(),
        final(store)@ == old(store)@.recorded().edited(id, |x: Reminder| x.snoozed(now)),
        r is Ok <==> holds_id(old(store)@.reminders, id),
        r is Err ==> r == Err::<(), StoreError>(StoreError::NotFound),
        r is Ok ==> final(store).last_event == PastEvent::ReminderSnooze(
            with_id(final(store)@.reminders, id),
        ),
        r is Err ==> final(store).last_event == old(store).last_event,
{
    store.record_history();
    match get_reminder_by_id(&store.reminders, id) {
        None => Err(StoreError::NotFound),
        Some(i) => {
            let ghost before = store.reminders@;
            assert(before[i as int].wf());
            store.reminders[i].snooze(now);
            store.last_event = PastEvent::ReminderSnooze(store.reminders[i].duplicate());
            proof {
                lemma_update_wf(before, i as int, store.reminders@[i as int]);
                lemma_index_of(store.reminders@, id, i as int);
            }
            Ok(())
        },
    }
}

/// The two-phase delete: the first request arms the delete flag, a second
/// while armed removes the reminder and records the deletion.
pub fn delete_reminder(store: &mut Store, id: usize) -> (r: Result<(), StoreError>)
    requires
        old(store).wf(),
    ensures
        final(store).wf(),
        final(store)@ == old(store)@.delete_requested(id),
        r is Ok <==> holds_id(old(store)@.reminders, id),
        r is Err ==> r == Err::<(), StoreError>(StoreError::NotFound),
        r is Ok && with_id(old(store)@.reminders, id).delete_flag ==> final(store).last_event
            == PastEvent::ReminderDeleted(with_id(old(store)@.reminders, id)),
        r is Err || !with_id(old(store)@.reminders, id).delete_flag ==> final(store).last_event
            == old(store).last_event,
{
    store.record_history();
    match get_reminder_by_id(&store.reminders, id) {
        None => Err(StoreError::NotFound),
        Some(i) => {
            let ghost before = store.reminders@;
            assert(before[i as int].wf());
            if store.reminders[i].delete_flag {
                store.last_event = PastEvent::ReminderDeleted(store.reminders[i].duplicate());
                store.reminders.remove(i);
                proof {
                    lemma_remove_wf(before, i as int);
                }
            } else {
                store.reminders[i].set_delete_flag(true);
                proof {
                    lemma_update_wf(before, i as int, store.reminders@[i as int]);
                }
            }
            Ok(())
        },
    }
}

/// Gives the reminder a new deadline, span and type, and records it as edited.
pub fn retime_reminder(store: &mut Store, id: usize, retime_object: TimeObject) -> (r: Result<
    (),
    StoreError,
>)
    requires
        old(store).wf(),
        retime_object.valid(),
    ensures
        final(store).wf(),
        final(store)@ == old(store)@.recorded().edited(
            id,
            |x: Reminder|
                Reminder {
                    finish_time: retime_object.finish_time,
                    whole_duration: retime_object.duration,
                    reminder_type: retime_object.reminder_type,
                    already_confirmed: false,
                    ..x
                },
        ),
        r is Ok <==> holds_id(old(store)@.reminders, id),
        r is Err ==> r == Err::<(), StoreError>(StoreError::NotFound),
        r is Ok ==> final(store).last_event == PastEvent::ReminderEdited(
            with_id(final(store)@.reminders, id),
        ),
        r is Err ==> final(store).last_event == old(store).last_event,
{
    store.record_history();
    match get_reminder_by_id(&store.reminders, id) {
        None => Err(StoreError::NotFound),
        Some(i) => {
            let ghost before = store.reminders@;
            assert(before[i as int].wf());
            store.reminders[i].set_finish_time(retime_object.finish_time);
            store.reminders[i].set_whole_duration(retime_object.duration);
            store.reminders[i].set_reminder_type(retime_object.reminder_type);
            store.last_event = PastEvent::ReminderEdited(store.reminders[i].duplicate());
            proof {
                let edited = Reminder {
                    finish_time: retime_object.finish_time,
                    whole_duration: retime_object.duration,
                    reminder_type: retime_object.reminder_type,
                    already_confirmed: false,
                    ..before[i as int]
                };
                assert(store.reminders@[i as int] == edited);
                assert(store.reminders@ =~= before.update(i as int, edited));
                lemma_update_wf(before, i as int, store.reminders@[i as int]);
                lemma_index_of(store.reminders@, id, i as int);
            }
            Ok(())
        },
    }
}

/// Pauses or resumes the reminder and records it.
pub fn pause_reminder(store: &mut Store, id: usize) -> (r: Result<(), StoreError>)
    requires
        old(store).wf(),
    ensures
        final(store).wf(),
        final(store)@ == old(store)@.recorded().edited(
            id,
            |x: Reminder| Reminder { paused: !x.paused, ..x },
        ),
        r is Ok <==> holds_id(old(store)@.reminders, id),
        r is Err ==> r == Err::<(), StoreError>(StoreError::NotFound),
        r is Ok ==> final(store).last_event == PastEvent::ReminderPause(
            with_id(final(store)@.reminders, id),
        ),
        r is Err ==> final(store).last_event == old(store).last_event,
{
    store.record_history();
    match get_reminder_by_id(&store.reminders, id) {
        None => Err(StoreError::NotFound),
        Some(i) => {
            let ghost before = store.reminders@;
            assert(before[i as int].wf());
            store.reminders[i].toggle_pause();
            store.last_event = PastEvent::ReminderPause(store.reminders[i].duplicate());
            proof {
                lemma_update_wf(before, i as int, store.reminders@[i as int]);
                lemma_index_of(store.reminders@, id, i as int);
            }
            Ok(())
        },
    }
}

/// Flips whether the reminder repeats, while it is not yet due; the event
/// records a switch to repeating.
pub fn toggle_reminder_repeat(store: &mut Store, id: usize, now: Now) -> (r: Result<
    (),
    StoreError,
>)
    requires
        old(store).wf(),
        now.valid(),
    ensures
        final(store).wf(),
        final(store)@ == old(store)@.recorded().edited(id, |x: Reminder| x.repeat_toggled(now)),
        r is Ok <==> holds_id(old(store)@.reminders, id),
        r is Err ==> r == Err::<(), StoreError>(StoreError::NotFound),
        r is Ok && with_id(final(store)@.reminders, id).repeating && !with_id(
            old(store)@.reminders,
            id,
        ).repeating ==> final(store).last_event == PastEvent::ReminderRepeatToggle(
            with_id(final(store)@.reminders, id),
        ),
        r is Err || !(with_id(final(store)@.reminders, id).repeating && !with_id(
            old(store)@.reminders,
            id,
        ).repeating) ==> final(store).last_event == old(store).last_event,
{
    store.record_history();
    match get_reminder_by_id(&store.reminders, id) {
        None => Err(StoreError::NotFound),
        Some(i) => {
            let ghost before = store.reminders@;
            assert(before[i as int].wf());
            let toggled = store.reminders[i].toggle_repeat(now);
            if let Some(true) = toggled {
                store.last_event = PastEvent::ReminderRepeatToggle(store.reminders[i].duplicate());
            }
            proof {
                lemma_update_wf(before, i as int, store.reminders@[i as int]);
                lemma_index_of(store.reminders@, id, i as int);
            }
            Ok(())
        },
    }
}

/// Moves the finish time later by `amount` nanoseconds, saturating at the end
/// of the valid range.
pub fn push_reminder_duration(store: &mut Store, id: usize, amount: i128) -> (r: Result<
    (),
    StoreError,
>)
    requires
        old(store).wf(),
        0 <= amount <= MAX_SPAN,
    ensures
        final(store).wf(),
        final(store)@ == old(store)@.recorded().edited(
            id,
            |x: Reminder|
                Reminder {
                    finish_time: clamp_time(x.finish_time + amount) as i128,
                    already_confirmed: false,
                    ..x
                },
        ),
        r is Ok <==> holds_id(old(store)@.reminders, id),
        r is Err ==> r == Err::<(), StoreError>(StoreError::NotFound),
        final(store).last_event == old(store).last_event,
{
    store.record_history();
    match get_reminder_by_id(&store.reminders, id) {
        None => Err(StoreError::NotFound),
        Some(i) => {
            let ghost before = store.reminders@;
            assert(before[i as int].wf());
            let finish = saturating_add(store.reminders[i].finish_time, amount);
            store.reminders[i].set_finish_time(finish);
            proof {
                lemma_update_wf(before, i as int, store.reminders@[i as int]);
            }
            Ok(())
        },
    }
}

/// Moves the finish time earlier by `amount` nanoseconds, saturating at the
/// start of the valid range.
pub fn cut_reminder_duration(store: &mut Store, id: usize, amount: i128) -> (r: Result<
    (),
    StoreError,
>)
    requires
        old(store).wf(),
        0 <= amount <= MAX_SPAN,
    ensures
        final(store).wf(),
        final(store)@ == old(store)@.recorded().edited(
            id,
            |x: Reminder|
                Reminder {
                    finish_time: clamp_time(x.finish_time - amount) as i128,
                    already_confirmed: false,
                    ..x
                },
        ),
        r is Ok <==> holds_id(old(store)@.reminders, id),
        r is Err ==> r == Err::<(), StoreError>(StoreError::NotFound),
        final(store).last_event == old(store).last_event,
{
    store.record_history();
    match get_reminder_by_id(&store.reminders, id) {
        None => Err(StoreError::NotFound),
        Some(i) => {
            let ghost before = store.reminders@;
            assert(before[i as int].wf());
            let finish = saturating_sub(store.reminders[i].finish_time, amount);
            store.reminders[i].set_finish_time(finish);
            proof {
                lemma_update_wf(before, i as int, store.reminders@[i as int]);
            }
            Ok(())
        },
    }
}

/// Replaces the reminder's description.
pub fn alter_reminder_description(store: &mut Store, id: usize, new_description: String) -> (r:
    Result<(), StoreError>)
    requires
        old(store).wf(),
    ensures
        final(store).wf(),
        final(store)@ == old(store)@.recorded().edited(
            id,
            |x: Reminder| Reminder { description: new_description, ..x },
        ),
        r is Ok <==> holds_id(old(store)@.reminders, id),
        r is Err ==> r == Err::<(), StoreError>(StoreError::NotFound),
        final(store).last_event == old(store).last_event,
{
    store.record_history();
    match get_reminder_by_id(&store.reminders, id) {
        None => Err(StoreError::NotFound),
        Some(i) => {
            let ghost before = store.reminders@;
            assert(before[i as int].wf());
            store.reminders[i].set_description(new_description);
            proof {
                lemma_update_wf(before, i as int, store.reminders@[i as int]);
            }
            Ok(())
        },
    }
}

/// Acknowledges the end of the reminder.
pub fn confirm_reminder_finish_event(store: &mut Store, id: usize, now: Now) -> (r: Result<
    (),
    StoreError,
>)
    requires
        old(store).wf(),
        now.valid(),
    ensures
        final(store).wf(),
        final(store)@ == old(store)@.recorded().edited(id, |x: Reminder| x.confirmed(now)),
        r is Ok <==> holds_id(old(store)@.reminders, id),
        r is Err ==> r == Err::<(), StoreError>(StoreError::NotFound),
        final(store).last_event == old(store).last_event,
{
    store.record_history();
    match get_reminder_by_id(&store.reminders, id) {
        None => Err(StoreError::NotFound),
        Some(i) => {
            let ghost before = store.reminders@;
            assert(before[i as int].wf());
            store.reminders[i].confirm_finish_event(now);
            proof {
                lemma_update_wf(before, i as int, store.reminders@[i as int]);
            }
            Ok(())
        },
    }
}

/// Undo: brings back the latest snapshot and keeps the current collection for
/// redo. Fails, changing nothing, when there is no snapshot.
pub fn pop_reminder_history(store: &mut Store) -> (r: Result<(), StoreError>)
    requires
        old(store).wf(),
    ensures
        final(store).wf(),
        final(store)@ == old(store)@.undone(),
        r is Ok <==> old(store)@.history.len() > 0,
        r is Err ==> r == Err::<(), StoreError>(StoreError::EmptyHistory),
        final(store).last_event == old(store).last_event,
{
    let ghost before = store@;
    match store.history.pop() {
        None => Err(StoreError::EmptyHistory),
        Some(snapshot) => {
            let current = copy_reminders(&store.reminders);
            store.reminders = snapshot;
            store.redoable_history.push(current);
            store.reset_history_on_change = true;
            proof {
                assert(snapshots(store.history@) =~= before.history.drop_last());
                assert(snapshots(store.redoable_history@) =~= before.redoable_history.push(
                    before.reminders,
                ));
                assert(before.history[before.history.len() - 1] == store.reminders@);
            }
            Ok(())
        },
    }
}

/// Redo: the mirror image of undo.
pub fn pop_reminder_redo_history(store: &mut Store) -> (r: Result<(), StoreError>)
    requires
        old(store).wf(),
    ensures
        final(store).wf(),
        final(store)@ == old(store)@.redone(),
        r is Ok <==> old(store)@.redoable_history.len() > 0,
        r is Err ==> r == Err::<(), StoreError>(StoreError::EmptyHistory),
        final(store).last_event == old(store).last_event,
{
    let ghost before = store@;
    match store.redoable_history.pop() {
        None => Err(StoreError::EmptyHistory),
        Some(snapshot) => {
            let current = copy_reminders(&store.reminders);
            store.reminders = snapshot;
            store.history.push(current);
            store.reset_history_on_change = true;
            proof {
                assert(snapshots(store.redoable_history@) =~= before.redoable_history.drop_last());
                assert(snapshots(store.history@) =~= before.history.push(before.reminders));
                assert(before.redoable_history[before.redoable_history.len() - 1]
                    == store.reminders@);
            }
            Ok(())
        },
    }
}

} // verus!
