//! The periodic sweep: it orders the reminders by finish time, asks for the
//! confirmation of those that have ended, restarts the repeating ones that are
//! due, and pushes paused ones back by one tick.
use vstd::prelude::*;

use crate::clock::{Now, TICK_NANOS};
use crate::past_event::PastEvent;
use crate::reminder::{Reminder, ReminderType};
use crate::store::{ids_unique, wf_list, Store};

verus! {

broadcast use vstd::seq_lib::group_to_multiset_ensures;

/// What the alert sink is handed for a reminder that has ended.
pub struct Alert {
    pub id: usize,
    pub name: String,
    pub description: String,
}

/// What one sweep did: the alerts to send, and whether the store changed in
/// a way that must be written out.
pub struct SweepOutcome {
    pub alerts: Vec<Alert>,
    pub dirty: bool,
}

/// Latest finish time first, so that the soonest due comes last.
pub open spec fn sorted_by_finish_desc(s: Seq<Reminder>) -> bool {
    forall|a: int, b: int| 0 <= a < b < s.len() ==> s[a].finish_time >= s[b].finish_time
}

/// A due reminder that has not been alerted, confirmed or set to repeat: the
/// sweep alerts it and asks for a confirmation.
pub open spec fn needs_alert(r: Reminder, now: Now) -> bool {
    r.is_due(now) && !r.needs_confirmation && !r.repeating && !r.already_confirmed
}

/// A due repeating reminder: the sweep restarts it, bypassing confirmation.
pub open spec fn needs_restart(r: Reminder, now: Now) -> bool {
    r.is_due(now) && r.repeating
}

/// The reminder as one sweep leaves it.
pub open spec fn swept(r: Reminder, now: Now) -> Reminder {
    let asked = if needs_alert(r, now) {
        r.confirmation_requested()
    } else {
        r
    };
    let restarted = if needs_restart(r, now) {
        asked.restarted(now)
    } else {
        asked
    };
    restarted.pushed_back(TICK_NANOS as int)
}

pub open spec fn alert_for(r: Reminder) -> Alert {
    Alert { id: r.id, name: r.name, description: r.description }
}

/// The alerts a sweep sends for the reminders `s`, in their order.
pub open spec fn alerts_of(s: Seq<Reminder>, now: Now) -> Seq<Alert>
    decreases s.len(),
{
    if s.len() == 0 {
        Seq::empty()
    } else {
        let rest = alerts_of(s.drop_last(), now);
        if needs_alert(s.last(), now) {
            rest.push(alert_for(s.last()))
        } else {
            rest
        }
    }
}

/// The most recent event after a sweep over `s`, starting from `e`.
pub open spec fn event_after(s: Seq<Reminder>, now: Now, e: PastEvent) -> PastEvent
    decreases s.len(),
{
    if s.len() == 0 {
        e
    } else {
        let r = s.last();
        if needs_alert(r, now) {
            PastEvent::ReminderEnded(r)
        } else if needs_restart(r, now) && r.reminder_type == ReminderType::Date {
            PastEvent::TryResetDateReminder(r)
        } else {
            event_after(s.drop_last(), now, e)
        }
    }
}

/// Whether a sweep over `s` changes what must be written out: a repeating
/// reminder restarted, or a paused one pushed back.
pub open spec fn sweep_dirty(s: Seq<Reminder>, now: Now) -> bool
    decreases s.len(),
{
    if s.len() == 0 {
        false
    } else {
        sweep_dirty(s.drop_last(), now) || needs_restart(s.last(), now) || s.last().paused
    }
}

/// Inserting into a sequence adds the element to its multiset.
proof fn lemma_insert_multiset(s: Seq<Reminder>, j: int, x: Reminder)
    requires
        0 <= j <= s.len(),
    ensures
        s.insert(j, x).to_multiset() == s.to_multiset().insert(x),
{
    let t = s.insert(j, x);
    assert(t.remove(j) =~= s);
    assert(t[j] == x);
    assert(t.contains(x));
    assert(t.to_multiset() =~= s.to_multiset().insert(x));
}

/// Orders the reminders by finish time, latest first; reminders with equal
/// finish times keep their order.
pub fn sort_by_finish_desc(v: &Vec<Reminder>) -> (r: Vec<Reminder>)
    ensures
        r@.to_multiset() == v@.to_multiset(),
        sorted_by_finish_desc(r@),
{
    let mut r: Vec<Reminder> = Vec::new();
    let mut i: usize = 0;
    while i < v.len()
        invariant
            i <= v.len(),
            r@.to_multiset() == v@.subrange(0, i as int).to_multiset(),
            sorted_by_finish_desc(r@),
        decreases v.len() - i,
    {
        let x = v[i].duplicate();
        let mut j: usize = 0;
        while j < r.len() && r[j].finish_time >= x.finish_time
            invariant
                j <= r.len(),
                forall|k: int| 0 <= k < j ==> #[trigger] r@[k].finish_time >= x.finish_time,
            decreases r.len() - j,
        {
            j = j + 1;
        }
        let ghost before = r@;
        r.insert(j, x);
        proof {
            lemma_insert_multiset(before, j as int, v@[i as int]);
            assert(v@.subrange(0, i as int + 1) =~= v@.subrange(0, i as int).push(v@[i as int]));
            assert forall|a: int, b: int| 0 <= a < b < r@.len() implies r@[a].finish_time
                >= r@[b].finish_time by {
                if b < j {
                } else if b == j {
                } else if a < j {
                    assert(r@[b] == before[b - 1]);
                } else if a == j {
                    assert(r@[b] == before[b - 1]);
                    assert(before[j as int].finish_time < x.finish_time);
                } else {
                    assert(r@[a] == before[a - 1]);
                    assert(r@[b] == before[b - 1]);
                }
            }
        }
        i = i + 1;
    }
    assert(v@.subrange(0, i as int) =~= v@);
    r
}

/// One pass of the sweep at `now`: the reminders are ordered by finish time,
/// latest first; then each due reminder that has not been alerted, confirmed
/// or set to repeat is alerted and asked for confirmation, each due repeating
/// one restarts, and each paused one is pushed back by one tick. The alerts
/// come back in that order for the caller to deliver.
pub fn sweep(store: &mut Store, now: Now) -> (r: SweepOutcome)
    requires
        old(store).wf(),
        now.valid(),
    ensures
        final(store).wf(),
        final(store)@.history == old(store)@.history,
        final(store)@.redoable_history == old(store)@.redoable_history,
        final(store)@.reset_history_on_change == old(store)@.reset_history_on_change,
        exists|s: Seq<Reminder>|
            {
                &&& #[trigger] s.to_multiset() == old(store)@.reminders.to_multiset()
                &&& sorted_by_finish_desc(s)
                &&& final(store)@.reminders == s.map_values(|x: Reminder| swept(x, now))
                &&& r.alerts@ == alerts_of(s, now)
                &&& final(store).last_event == event_after(s, now, old(store).last_event)
                &&& r.dirty == sweep_dirty(s, now)
            },
{
    let sorted = sort_by_finish_desc(&store.reminders);
    let ghost s = sorted@;
    proof {
        lemma_sorted_wf(old(store)@.reminders, s);
    }
    store.reminders = sorted;
    let mut alerts: Vec<Alert> = Vec::new();
    let mut dirty = false;
    let mut i: usize = 0;
    while i < store.reminders.len()
        invariant
            wf_list(s),
            store@.history == old(store)@.history,
            store@.redoable_history == old(store)@.redoable_history,
            store@.reset_history_on_change == old(store)@.reset_history_on_change,
            i <= store.reminders.len(),
            store.reminders.len() == s.len(),
            forall|j: int| 0 <= j < i ==> #[trigger] store.reminders@[j] == swept(s[j], now),
            forall|j: int| i <= j < s.len() ==> #[trigger] store.reminders@[j] == s[j],
            alerts@ == alerts_of(s.subrange(0, i as int), now),
            store.last_event == event_after(s.subrange(0, i as int), now, old(store).last_event),
            dirty == sweep_dirty(s.subrange(0, i as int), now),
            now.valid(),
        decreases s.len() - i,
    {
        let ghost prefix = s.subrange(0, i as int + 1);
        proof {
            assert(prefix.drop_last() =~= s.subrange(0, i as int));
            assert(prefix.last() == s[i as int]);
            assert(s[i as int].wf());
        }
        let due = store.reminders[i].finish_time <= now.unix_nanos;
        if due && !store.reminders[i].needs_confirmation && !store.reminders[i].repeating
            && !store.reminders[i].already_confirmed {
            alerts.push(
                Alert {
                    id: store.reminders[i].id,
                    name: store.reminders[i].name.clone(),
                    description: store.reminders[i].description.clone(),
                },
            );
            let mut event = PastEvent::NoEvent;
            std::mem::swap(&mut event, &mut store.last_event);
            store.reminders[i].request_confirmation(&mut event);
            store.last_event = event;
        }
        if due && store.reminders[i].repeating {
            let mut event = PastEvent::NoEvent;
            std::mem::swap(&mut event, &mut store.last_event);
            store.reminders[i].restart(now, &mut event);
            store.last_event = event;
            dirty = true;
        }
        store.reminders[i].push_back_end_time_if_paused(TICK_NANOS);
        if store.reminders[i].paused {
            dirty = true;
        }
        i = i + 1;
    }
    proof {
        assert(s.subrange(0, i as int) =~= s);
        assert(store.reminders@ =~= s.map_values(|x: Reminder| swept(x, now)));
        lemma_swept_wf(s, now);
    }
    SweepOutcome { alerts, dirty }
}

/// A member of a reordering is a member of the sequence it reorders.
proof fn lemma_member(s: Seq<Reminder>, orig: Seq<Reminder>, a: int)
    requires
        s.to_multiset() == orig.to_multiset(),
        0 <= a < s.len(),
    ensures
        orig.contains(s[a]),
{
    assert(s.contains(s[a]));
    assert(s.to_multiset().count(s[a]) > 0);
    assert(orig.to_multiset().count(s[a]) > 0);
}

/// A reordering of a well-formed collection is well formed.
proof fn lemma_sorted_wf(old_rs: Seq<Reminder>, s: Seq<Reminder>)
    requires
        wf_list(old_rs),
        s.to_multiset() == old_rs.to_multiset(),
    ensures
        wf_list(s),
{
    assert forall|a: int| 0 <= a < s.len() implies #[trigger] s[a].wf() by {
        lemma_member(s, old_rs, a);
    }
    assert forall|a: int, b: int|
        0 <= a < s.len() && 0 <= b < s.len() && a != b implies #[trigger] s[a].id
        != #[trigger] s[b].id by {
        if s[a].id == s[b].id {
            lemma_member(s, old_rs, a);
            lemma_member(s, old_rs, b);
            let ia = choose|k: int| 0 <= k < old_rs.len() && old_rs[k] == s[a];
            let ib = choose|k: int| 0 <= k < old_rs.len() && old_rs[k] == s[b];
            if s[a] == s[b] {
                lemma_count_two(s, a, b);
                lemma_unique_count_one(old_rs, ia);
            } else {
                assert(old_rs[ia].id == old_rs[ib].id);
            }
        }
    }
}

/// A value at two positions counts at least twice.
proof fn lemma_count_two(s: Seq<Reminder>, a: int, b: int)
    requires
        0 <= a < s.len(),
        0 <= b < s.len(),
        a != b,
        s[a] == s[b],
    ensures
        s.to_multiset().count(s[a]) >= 2,
{
    let hi = if a < b { b } else { a };
    let lo = if a < b { a } else { b };
    let t = s.remove(hi);
    assert(t[lo] == s[a]);
    assert(t.contains(s[a]));
    assert(t.to_multiset().count(s[a]) > 0);
    assert(s.to_multiset().remove(s[hi]) == t.to_multiset());
    assert(s.to_multiset().remove(s[a]).count(s[a]) > 0);
}

/// In a collection with unique ids each reminder counts once.
proof fn lemma_unique_count_one(s: Seq<Reminder>, i: int)
    requires
        ids_unique(s),
        0 <= i < s.len(),
    ensures
        s.to_multiset().count(s[i]) == 1,
{
    let t = s.remove(i);
    assert(s.to_multiset().remove(s[i]) == t.to_multiset());
    assert(!t.contains(s[i])) by {
        if t.contains(s[i]) {
            let k = choose|k: int| 0 <= k < t.len() && t[k] == s[i];
            let ks = if k < i { k } else { k + 1 };
            assert(t[k] == s[ks]);
            assert(s[ks].id == s[i].id);
        }
    }
    assert(t.to_multiset().count(s[i]) == 0);
    assert(s.contains(s[i]));
    assert(s.to_multiset().count(s[i]) > 0);
}

/// A sweep keeps a well-formed collection well formed.
proof fn lemma_swept_wf(s: Seq<Reminder>, now: Now)
    requires
        wf_list(s),
        now.valid(),
    ensures
        wf_list(s.map_values(|x: Reminder| swept(x, now))),
{
    let t = s.map_values(|x: Reminder| swept(x, now));
    assert forall|a: int| 0 <= a < t.len() implies #[trigger] t[a].wf() by {
        assert(s[a].wf());
        crate::laws::lemma_restarted_wf(s[a], now);
        crate::laws::lemma_restarted_wf(s[a].confirmation_requested(), now);
    }
    assert forall|a: int, b: int|
        0 <= a < t.len() && 0 <= b < t.len() && a != b implies #[trigger] t[a].id
        != #[trigger] t[b].id by {
        assert(t[a].id == s[a].id);
        assert(t[b].id == s[b].id);
    }
}

} // verus!
