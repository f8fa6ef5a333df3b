//! Laws that relate the operations of the reminder state machine and the
//! store, proved over the spec functions that the operations' contracts use.
use vstd::prelude::*;

use crate::api::with_id;
use crate::clock::{valid_time, Now, MAX_TIME, SNOOZE_NANOS};
use crate::reminder::{Reminder, ReminderType};
use crate::store::{holds_id, index_of, lemma_index_of, lemma_update_wf, loaded, StoreModel};

verus! {

/// A restart keeps a reminder well formed and keeps its id.
pub proof fn lemma_restarted_wf(r: Reminder, now: Now)
    requires
        r.wf(),
        now.valid(),
    ensures
        r.restarted(now).wf(),
        r.restarted(now).id == r.id,
{
}

/// Two-phase delete: one delete request arms the flag and keeps the reminder;
/// a second one in a row removes it; a flag reset in between disarms it, and
/// the reminder stays through the next request.
pub proof fn lemma_two_phase_delete(m: StoreModel, id: usize)
    requires
        m.wf(),
        holds_id(m.reminders, id),
        !with_id(m.reminders, id).delete_flag,
    ensures
        holds_id(m.delete_requested(id).reminders, id),
        with_id(m.delete_requested(id).reminders, id).delete_flag,
        !holds_id(m.delete_requested(id).delete_requested(id).reminders, id),
        holds_id(m.delete_requested(id).flags_reset().reminders, id),
        !with_id(m.delete_requested(id).flags_reset().reminders, id).delete_flag,
        holds_id(m.delete_requested(id).flags_reset().delete_requested(id).reminders, id),
{
    let rs = m.reminders;
    let i = index_of(rs, id);
    assert(rs[i].wf());
    let m1 = m.delete_requested(id);
    let armed = Reminder { delete_flag: true, ..rs[i] };
    assert(m1.reminders == rs.update(i, armed));
    lemma_update_wf(rs, i, armed);
    lemma_index_of(m1.reminders, id, i);
    // A second request removes the one reminder with that id.
    let m2 = m1.delete_requested(id);
    assert(m2.reminders == m1.reminders.remove(i));
    if holds_id(m2.reminders, id) {
        let k = choose|k: int| 0 <= k < m2.reminders.len() && #[trigger] m2.reminders[k].id == id;
        let kk = if k < i { k } else { k + 1 };
        assert(m2.reminders[k] == m1.reminders[kk]);
    }
    // A reset in between disarms it.
    let m3 = m1.flags_reset();
    let t = m3.reminders;
    assert(t[i].id == id);
    assert forall|a: int, b: int|
        0 <= a < t.len() && 0 <= b < t.len() && a != b implies #[trigger] t[a].id
        != #[trigger] t[b].id by {
        assert(t[a].id == m1.reminders[a].id);
        assert(t[b].id == m1.reminders[b].id);
    }
    lemma_index_of(t, id, i);
    let m4 = m3.delete_requested(id);
    assert(m4.reminders == t.update(i, Reminder { delete_flag: true, ..t[i] }));
    assert(m4.reminders[i].id == id);
}

/// Snoozing a reminder that is not yet due changes nothing; snoozing a due
/// one moves its finish time five minutes on and clears `needs_confirmation`.
pub proof fn lemma_snooze(r: Reminder, now: Now)
    requires
        r.wf(),
        now.valid(),
    ensures
        r.finish_time > now.unix_nanos ==> r.snoozed(now) == r,
        r.finish_time <= now.unix_nanos && r.finish_time + SNOOZE_NANOS <= MAX_TIME ==> {
            &&& r.snoozed(now).finish_time == r.finish_time + SNOOZE_NANOS
            &&& !r.snoozed(now).needs_confirmation
        },
{
}

/// Toggling repeat flips the flag while the reminder is not yet due and
/// changes nothing once it is.
pub proof fn lemma_toggle_repeat(r: Reminder, now: Now)
    ensures
        r.finish_time > now.unix_nanos ==> r.repeat_toggled(now) == (Reminder {
            repeating: !r.repeating,
            ..r
        }),
        r.finish_time <= now.unix_nanos ==> r.repeat_toggled(now) == r,
{
}

/// Restarting a countdown of span `d` sets its finish time to `now + d` and
/// clears the arming flags and the confirmation.
pub proof fn lemma_restart_duration(r: Reminder, now: Now)
    requires
        r.wf(),
        now.valid(),
        r.reminder_type == ReminderType::Duration,
        valid_time(now.unix_nanos + r.whole_duration),
    ensures
        r.restarted(now).finish_time == now.unix_nanos + r.whole_duration,
        !r.restarted(now).delete_flag,
        !r.restarted(now).restart_flag,
        !r.restarted(now).already_confirmed,
{
}

/// Restarting a date reminder leaves it exactly as it was.
pub proof fn lemma_restart_date(r: Reminder, now: Now)
    requires
        r.reminder_type == ReminderType::Date,
    ensures
        r.restarted(now) == r,
{
}

/// The store after a run of mutations whose resulting collections are
/// `posts`, in order: each one takes the history snapshot and then sets the
/// collection, which is the shape of every mutating operation's contract.
pub open spec fn after_mutations(m: StoreModel, posts: Seq<Seq<Reminder>>) -> StoreModel
    decreases posts.len(),
{
    if posts.len() == 0 {
        m
    } else {
        StoreModel { reminders: posts.last(), ..after_mutations(m, posts.drop_last()).recorded() }
    }
}

/// `n` undos in a row.
pub open spec fn undone_times(m: StoreModel, n: nat) -> StoreModel
    decreases n,
{
    if n == 0 {
        m
    } else {
        undone_times(m, (n - 1) as nat).undone()
    }
}

/// `n` redos in a row.
pub open spec fn redone_times(m: StoreModel, n: nat) -> StoreModel
    decreases n,
{
    if n == 0 {
        m
    } else {
        redone_times(m, (n - 1) as nat).redone()
    }
}

/// The collections a run of mutations passes through, the first one included.
pub open spec fn states(m: StoreModel, posts: Seq<Seq<Reminder>>) -> Seq<Seq<Reminder>> {
    seq![m.reminders] + posts
}

pub open spec fn history_base(m: StoreModel) -> Seq<Seq<Reminder>> {
    if m.reset_history_on_change {
        Seq::empty()
    } else {
        m.history
    }
}

proof fn lemma_after_mutations_shape(m: StoreModel, posts: Seq<Seq<Reminder>>, k: nat)
    requires
        1 <= k <= posts.len(),
    ensures
        after_mutations(m, posts.subrange(0, k as int)) == (StoreModel {
            reminders: states(m, posts)[k as int],
            history: history_base(m) + states(m, posts).subrange(0, k as int),
            redoable_history: m.redoable_history,
            reset_history_on_change: false,
        }),
    decreases k,
{
    let st = states(m, posts);
    let pk = posts.subrange(0, k as int);
    assert(pk.drop_last() =~= posts.subrange(0, k - 1));
    if k == 1 {
        assert(posts.subrange(0, 0) =~= Seq::<Seq<Reminder>>::empty());
        assert(after_mutations(m, posts.subrange(0, 0)) == m);
        assert(st.subrange(0, 1) =~= seq![m.reminders]);
        assert(history_base(m) + st.subrange(0, 1) =~= m.recorded().history);
    } else {
        lemma_after_mutations_shape(m, posts, (k - 1) as nat);
        assert(history_base(m) + st.subrange(0, k as int) =~= (history_base(m) + st.subrange(
            0,
            k - 1,
        )).push(st[k - 1]));
    }
}

proof fn lemma_undone_shape(m: StoreModel, posts: Seq<Seq<Reminder>>, j: nat)
    requires
        1 <= posts.len(),
        j <= posts.len(),
    ensures
        ({
            let n = posts.len() as int;
            let st = states(m, posts);
            let u = undone_times(after_mutations(m, posts), j);
            &&& u.reminders == st[n - j]
            &&& u.history == history_base(m) + st.subrange(0, n - j)
            &&& u.redoable_history == m.redoable_history + Seq::new(j, |t: int| st[n - t])
        }),
    decreases j,
{
    let n = posts.len() as int;
    let st = states(m, posts);
    if j == 0 {
        lemma_after_mutations_shape(m, posts, posts.len());
        assert(posts.subrange(0, n) =~= posts);
        assert(m.redoable_history + Seq::new(0, |t: int| st[n - t]) =~= m.redoable_history);
    } else {
        lemma_undone_shape(m, posts, (j - 1) as nat);
        let prev = undone_times(after_mutations(m, posts), (j - 1) as nat);
        let h = history_base(m) + st.subrange(0, n - (j - 1));
        assert(prev.history.len() > 0);
        assert(h.last() == st[n - j]);
        assert(h.drop_last() =~= history_base(m) + st.subrange(0, n - j));
        assert(m.redoable_history + Seq::new(j, |t: int| st[n - t]) =~= (m.redoable_history
            + Seq::new((j - 1) as nat, |t: int| st[n - t])).push(st[n - (j - 1)]));
    }
}

proof fn lemma_redone_shape(m: StoreModel, posts: Seq<Seq<Reminder>>, j: nat)
    requires
        1 <= posts.len(),
        j <= posts.len(),
    ensures
        ({
            let n = posts.len() as int;
            let st = states(m, posts);
            let u = redone_times(undone_times(after_mutations(m, posts), posts.len()), j);
            &&& u.reminders == st[j as int]
            &&& u.history == history_base(m) + st.subrange(0, j as int)
            &&& u.redoable_history == m.redoable_history + Seq::new(
                (n - j) as nat,
                |t: int| st[n - t],
            )
        }),
    decreases j,
{
    let n = posts.len() as int;
    let st = states(m, posts);
    if j == 0 {
        lemma_undone_shape(m, posts, posts.len());
    } else {
        lemma_redone_shape(m, posts, (j - 1) as nat);
        let r = m.redoable_history + Seq::new((n - (j - 1)) as nat, |t: int| st[n - t]);
        assert(r.len() > 0);
        assert(r.last() == st[j as int]);
        assert(r.drop_last() =~= m.redoable_history + Seq::new(
            (n - j) as nat,
            |t: int| st[n - t],
        ));
        assert(history_base(m) + st.subrange(0, j as int) =~= (history_base(m) + st.subrange(
            0,
            j - 1,
        )).push(st[j - 1]));
    }
}

/// Undo and redo: after `n` mutations, `n` undos bring back the collection as
/// it was before the first of them, and `n` redos after that bring back the
/// collection as the last one left it.
pub proof fn lemma_undo_redo(m: StoreModel, posts: Seq<Seq<Reminder>>)
    requires
        posts.len() >= 1,
    ensures
        undone_times(after_mutations(m, posts), posts.len()).reminders == m.reminders,
        redone_times(
            undone_times(after_mutations(m, posts), posts.len()),
            posts.len(),
        ).reminders == posts.last(),
{
    lemma_undone_shape(m, posts, posts.len());
    lemma_redone_shape(m, posts, posts.len());
}

/// Every mutating operation has the shape that `after_mutations` assumes: the
/// history snapshot, then a new collection, with the stacks left as the
/// snapshot left them.
pub proof fn lemma_operations_are_mutations(
    m: StoreModel,
    id: usize,
    now: Now,
    f: spec_fn(Reminder) -> Reminder,
)
    ensures
        m.recorded().edited(id, f) == (StoreModel {
            reminders: m.recorded().edited(id, f).reminders,
            ..m.recorded()
        }),
        m.delete_requested(id) == (StoreModel {
            reminders: m.delete_requested(id).reminders,
            ..m.recorded()
        }),
        m.restart_requested(id, now) == (StoreModel {
            reminders: m.restart_requested(id, now).reminders,
            ..m.recorded()
        }),
        m.flags_reset() == (StoreModel { reminders: m.flags_reset().reminders, ..m.recorded() }),
{
}

/// Persistence round trip: a well-formed store is always accepted back, as
/// itself, so saving what was loaded from a save gives that save again.
pub proof fn lemma_save_load_round_trip(m: StoreModel)
    requires
        m.wf(),
    ensures
        loaded(m) == Some(m),
{
}

} // verus!
