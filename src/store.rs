//! The reminder store: the collection, its undo and redo history, and the
//! operations that requests perform on it.
use vstd::prelude::*;

use crate::clock::{Now, MAX_SPAN, MAX_TIME, MIN_TIME};
use crate::past_event::PastEvent;
use crate::reminder::Reminder;

verus! {

/// Every id occurs at most once.
pub open spec fn ids_unique(rs: Seq<Reminder>) -> bool {
    forall|i: int, j: int|
        0 <= i < rs.len() && 0 <= j < rs.len() && i != j ==> #[trigger] rs[i].id != #[trigger] rs[j].id
}

/// A well-formed collection: unique ids and well-formed reminders.
pub open spec fn wf_list(rs: Seq<Reminder>) -> bool {
    &&& ids_unique(rs)
    &&& forall|i: int| 0 <= i < rs.len() ==> #[trigger] rs[i].wf()
}

pub open spec fn holds_id(rs: Seq<Reminder>, id: usize) -> bool {
    exists|i: int| 0 <= i < rs.len() && #[trigger] rs[i].id == id
}

/// Where the reminder with `id` stands, when `holds_id(rs, id)`.
pub open spec fn index_of(rs: Seq<Reminder>, id: usize) -> int {
    choose|i: int| 0 <= i < rs.len() && #[trigger] rs[i].id == id
}

/// The largest id in the collection, or 0 when it is empty.
pub open spec fn max_id(rs: Seq<Reminder>) -> nat
    decreases rs.len(),
{
    if rs.len() == 0 {
        0
    } else {
        let rest = max_id(rs.drop_last());
        if rs.last().id > rest {
            rs.last().id as nat
        } else {
            rest
        }
    }
}

/// The store's state as values: what is persisted.
pub struct StoreModel {
    pub reminders: Seq<Reminder>,
    pub history: Seq<Seq<Reminder>>,
    pub redoable_history: Seq<Seq<Reminder>>,
    pub reset_history_on_change: bool,
}

impl StoreModel {
    pub open spec fn wf(self) -> bool {
        &&& wf_list(self.reminders)
        &&& forall|k: int| 0 <= k < self.history.len() ==> wf_list(#[trigger] self.history[k])
        &&& forall|k: int|
            0 <= k < self.redoable_history.len() ==> wf_list(#[trigger] self.redoable_history[k])
    }

    /// The store after the snapshot taken before every mutation: after an undo
    /// or redo the old chain is dropped first, then the current collection is
    /// pushed.
    pub open spec fn recorded(self) -> StoreModel {
        StoreModel {
            history: if self.reset_history_on_change {
                Seq::empty().push(self.reminders)
            } else {
                self.history.push(self.reminders)
            },
            reset_history_on_change: false,
            ..self
        }
    }

    /// The store with the reminder of `id` replaced by `f` of it; unchanged when
    /// no reminder has that id.
    pub open spec fn edited(self, id: usize, f: spec_fn(Reminder) -> Reminder) -> StoreModel {
        if holds_id(self.reminders, id) {
            let i = index_of(self.reminders, id);
            StoreModel { reminders: self.reminders.update(i, f(self.reminders[i])), ..self }
        } else {
            self
        }
    }

    /// The two-phase delete: an armed reminder is removed, any other is armed.
    pub open spec fn delete_requested(self, id: usize) -> StoreModel {
        let m = self.recorded();
        if holds_id(m.reminders, id) && m.reminders[index_of(m.reminders, id)].delete_flag {
            StoreModel { reminders: m.reminders.remove(index_of(m.reminders, id)), ..m }
        } else {
            m.edited(id, |r: Reminder| Reminder { delete_flag: true, ..r })
        }
    }

    /// The two-phase restart: an armed reminder restarts, any other is armed.
    pub open spec fn restart_requested(self, id: usize, now: Now) -> StoreModel {
        self.recorded().edited(
            id,
            |r: Reminder|
                if r.restart_flag {
                    r.restarted(now)
                } else {
                    Reminder { restart_flag: true, ..r }
                },
        )
    }

    /// Both arming flags cleared on every reminder.
    pub open spec fn flags_reset(self) -> StoreModel {
        let m = self.recorded();
        StoreModel {
            reminders: m.reminders.map_values(
                |r: Reminder| Reminder { delete_flag: false, restart_flag: false, ..r },
            ),
            ..m
        }
    }

    /// Undo: the current collection goes onto the redo stack and the latest
    /// snapshot comes back. Nothing changes when there is no snapshot.
    pub open spec fn undone(self) -> StoreModel {
        if self.history.len() == 0 {
            self
        } else {
            StoreModel {
                reminders: self.history.last(),
                history: self.history.drop_last(),
                redoable_history: self.redoable_history.push(self.reminders),
                reset_history_on_change: true,
            }
        }
    }

    /// Redo: the mirror image of undo.
    pub open spec fn redone(self) -> StoreModel {
        if self.redoable_history.len() == 0 {
            self
        } else {
            StoreModel {
                reminders: self.redoable_history.last(),
                history: self.history.push(self.reminders),
                redoable_history: self.redoable_history.drop_last(),
                reset_history_on_change: true,
            }
        }
    }
}

/// Why a store operation did not happen.
#[derive(Clone, Copy, Debug, PartialEq, Eq, Structural)]
pub enum StoreError {
    /// No reminder has the given id.
    NotFound,
    /// There is no snapshot to undo or redo to.
    EmptyHistory,
    /// Every id is taken: the largest one in use is `usize::MAX`.
    IdsExhausted,
}

/// The store: the reminders, the undo and redo stacks of snapshots, and the
/// most recent notable event.
pub struct Store {
    pub reminders: Vec<Reminder>,
    pub history: Vec<Vec<Reminder>>,
    pub redoable_history: Vec<Vec<Reminder>>,
    pub reset_history_on_change: bool,
    pub last_event: PastEvent,
}

pub open spec fn snapshots(v: Seq<Vec<Reminder>>) -> Seq<Seq<Reminder>> {
    v.map_values(|s: Vec<Reminder>| s@)
}

impl View for Store {
    type V = StoreModel;

    open spec fn view(&self) -> StoreModel {
        StoreModel {
            reminders: self.reminders@,
            history: snapshots(self.history@),
            redoable_history: snapshots(self.redoable_history@),
            reset_history_on_change: self.reset_history_on_change,
        }
    }
}

/// A copy of the collection, equal to it element by element.
pub fn copy_reminders(rs: &Vec<Reminder>) -> (r: Vec<Reminder>)
    ensures
        r@ == rs@,
{
    let mut r: Vec<Reminder> = Vec::new();
    let mut i: usize = 0;
    while i < rs.len()
        invariant
            i <= rs.len(),
            r@ == rs@.subrange(0, i as int),
        decreases rs.len() - i,
    {
        r.push(rs[i].duplicate());
        i = i + 1;
        assert(r@ =~= rs@.subrange(0, i as int));
    }
    assert(rs@.subrange(0, rs.len() as int) =~= rs@);
    r
}

/// A copy of a stack of snapshots.
fn copy_snapshots(v: &Vec<Vec<Reminder>>) -> (r: Vec<Vec<Reminder>>)
    ensures
        snapshots(r@) == snapshots(v@),
{
    let mut r: Vec<Vec<Reminder>> = Vec::new();
    let mut i: usize = 0;
    while i < v.len()
        invariant
            i <= v.len(),
            snapshots(r@) == snapshots(v@).subrange(0, i as int),
        decreases v.len() - i,
    {
        let s = copy_reminders(&v[i]);
        let ghost prev = r@;
        r.push(s);
        i = i + 1;
        assert(snapshots(r@) =~= snapshots(prev).push(v@[i - 1]@));
        assert(snapshots(r@) =~= snapshots(v@).subrange(0, i as int));
    }
    assert(snapshots(v@).subrange(0, v.len() as int) =~= snapshots(v@));
    r
}

/// Finds the position of the reminder with `id`.
pub fn get_reminder_by_id(reminders: &Vec<Reminder>, id: usize) -> (r: Option<usize>)
    ensures
        r is None <==> !holds_id(reminders@, id),
        r matches Some(i) ==> i < reminders@.len() && reminders@[i as int].id == id,
        ids_unique(reminders@) && r is Some ==> r->0 == index_of(reminders@, id),
{
    let mut i: usize = 0;
    while i < reminders.len()
        invariant
            i <= reminders.len(),
            forall|j: int| 0 <= j < i ==> #[trigger] reminders@[j].id != id,
        decreases reminders.len() - i,
    {
        if reminders[i].id == id {
            proof {
                lemma_index_of(reminders@, id, i as int);
            }
            return Some(i);
        }
        i = i + 1;
    }
    None
}

/// Under unique ids, `index_of` names the one position that holds the id.
pub proof fn lemma_index_of(rs: Seq<Reminder>, id: usize, k: int)
    requires
        0 <= k < rs.len(),
        rs[k].id == id,
    ensures
        holds_id(rs, id),
        ids_unique(rs) ==> index_of(rs, id) == k,
{
    assert(holds_id(rs, id));
}

/// Every id is at most `max_id`.
pub proof fn lemma_max_id(rs: Seq<Reminder>)
    ensures
        forall|i: int| 0 <= i < rs.len() ==> #[trigger] rs[i].id <= max_id(rs),
    decreases rs.len(),
{
    if rs.len() > 0 {
        lemma_max_id(rs.drop_last());
        assert forall|i: int| 0 <= i < rs.len() implies #[trigger] rs[i].id <= max_id(rs) by {
            if i < rs.len() - 1 {
                assert(rs.drop_last()[i] == rs[i]);
            }
        }
    }
}

/// Replacing a reminder by one of the same id that is well formed keeps the
/// collection well formed.
pub proof fn lemma_update_wf(rs: Seq<Reminder>, i: int, r: Reminder)
    requires
        wf_list(rs),
        0 <= i < rs.len(),
        r.wf(),
        r.id == rs[i].id,
    ensures
        wf_list(rs.update(i, r)),
{
    let u = rs.update(i, r);
    assert forall|a: int, b: int|
        0 <= a < u.len() && 0 <= b < u.len() && a != b implies #[trigger] u[a].id
        != #[trigger] u[b].id by {
        assert(u[a].id == rs[a].id);
        assert(u[b].id == rs[b].id);
    }
}

/// Removing a reminder keeps the collection well formed.
pub proof fn lemma_remove_wf(rs: Seq<Reminder>, i: int)
    requires
        wf_list(rs),
        0 <= i < rs.len(),
    ensures
        wf_list(rs.remove(i)),
{
    let u = rs.remove(i);
    assert forall|a: int| 0 <= a < u.len() implies #[trigger] u[a].wf() by {
        if a < i {
            assert(u[a] == rs[a]);
        } else {
            assert(u[a] == rs[a + 1]);
        }
    }
    assert forall|a: int, b: int|
        0 <= a < u.len() && 0 <= b < u.len() && a != b implies #[trigger] u[a].id
        != #[trigger] u[b].id by {
        let ia = if a < i { a } else { a + 1 };
        let ib = if b < i { b } else { b + 1 };
        assert(u[a] == rs[ia]);
        assert(u[b] == rs[ib]);
    }
}

impl Store {
    pub open spec fn wf(&self) -> bool {
        self@.wf()
    }

    /// An empty store.
    pub fn new() -> (r: Store)
        ensures
            r.wf(),
            r@.reminders.len() == 0,
            r@.history.len() == 0,
            r@.redoable_history.len() == 0,
            !r@.reset_history_on_change,
            r.last_event == PastEvent::NoEvent,
    {
        let r = Store {
            reminders: Vec::new(),
            history: Vec::new(),
            redoable_history: Vec::new(),
            reset_history_on_change: false,
            last_event: PastEvent::NoEvent,
        };
        assert(snapshots(r.history@) =~= Seq::empty());
        assert(snapshots(r.redoable_history@) =~= Seq::empty());
        r
    }

    /// Takes the snapshot that precedes every mutation.
    pub(crate) fn record_history(&mut self)
        requires
            old(self).wf(),
        ensures
            final(self)@ == old(self)@.recorded(),
            final(self).wf(),
            final(self).last_event == old(self).last_event,
    {
        if self.reset_history_on_change {
            self.history = Vec::new();
            self.reset_history_on_change = false;
        }
        let ghost before = self.history@;
        let snapshot = copy_reminders(&self.reminders);
        self.history.push(snapshot);
        assert(snapshots(self.history@) =~= snapshots(before).push(self.reminders@));
        proof {
            if old(self).reset_history_on_change {
                assert(snapshots(before) =~= Seq::empty());
            }
        }
    }
}

/// The store's persisted form: everything but the most recent event.
pub struct DbFile {
    pub reminders: Vec<Reminder>,
    pub history: Vec<Vec<Reminder>>,
    pub redoable_history: Vec<Vec<Reminder>>,
    pub reset_history_on_change: bool,
}

impl View for DbFile {
    type V = StoreModel;

    open spec fn view(&self) -> StoreModel {
        StoreModel {
            reminders: self.reminders@,
            history: snapshots(self.history@),
            redoable_history: snapshots(self.redoable_history@),
            reset_history_on_change: self.reset_history_on_change,
        }
    }
}

/// Why a persisted form was not accepted.
#[derive(Clone, Copy, Debug, PartialEq, Eq, Structural)]
pub enum LoadError {
    /// A time lies outside the valid range, a span does not fit, or two
    /// reminders of one collection share an id.
    Malformed,
}

/// What loading a persisted form yields: the form itself when well formed.
pub open spec fn loaded(db: StoreModel) -> Option<StoreModel> {
    if db.wf() {
        Some(db)
    } else {
        None
    }
}

/// Whether a reminder's times and span lie in the valid ranges.
pub fn reminder_is_wf(r: &Reminder) -> (b: bool)
    ensures
        b == r.wf(),
{
    MIN_TIME <= r.start_time && r.start_time <= MAX_TIME && MIN_TIME <= r.finish_time
        && r.finish_time <= MAX_TIME && -MAX_SPAN <= r.whole_duration && r.whole_duration
        <= MAX_SPAN
}

/// Whether a collection is well formed.
pub fn list_is_wf(rs: &Vec<Reminder>) -> (b: bool)
    ensures
        b == wf_list(rs@),
{
    let mut i: usize = 0;
    while i < rs.len()
        invariant
            i <= rs.len(),
            forall|a: int| 0 <= a < i ==> #[trigger] rs@[a].wf(),
            forall|a: int, b: int|
                0 <= a < i && 0 <= b < i && a != b ==> #[trigger] rs@[a].id != #[trigger] rs@[b].id,
        decreases rs.len() - i,
    {
        if !reminder_is_wf(&rs[i]) {
            return false;
        }
        let mut j: usize = 0;
        while j < i
            invariant
                j <= i < rs.len(),
                forall|b: int| 0 <= b < j ==> #[trigger] rs@[b].id != rs@[i as int].id,
            decreases i - j,
        {
            if rs[j].id == rs[i].id {
                return false;
            }
            j = j + 1;
        }
        i = i + 1;
    }
    true
}

/// Whether every collection of a stack of snapshots is well formed.
fn snapshots_are_wf(v: &Vec<Vec<Reminder>>) -> (b: bool)
    ensures
        b == forall|k: int| 0 <= k < snapshots(v@).len() ==> wf_list(#[trigger] snapshots(v@)[k]),
{
    let mut k: usize = 0;
    while k < v.len()
        invariant
            k <= v.len(),
            forall|a: int| 0 <= a < k ==> wf_list(#[trigger] snapshots(v@)[a]),
        decreases v.len() - k,
    {
        if !list_is_wf(&v[k]) {
            assert(!wf_list(snapshots(v@)[k as int]));
            return false;
        }
        k = k + 1;
    }
    true
}

impl Store {
    /// The persisted form of the store.
    pub fn save(&self) -> (r: DbFile)
        ensures
            r@ == self@,
    {
        DbFile {
            reminders: copy_reminders(&self.reminders),
            history: copy_snapshots(&self.history),
            redoable_history: copy_snapshots(&self.redoable_history),
            reset_history_on_change: self.reset_history_on_change,
        }
    }

    /// A store from its persisted form, which is accepted exactly when it is
    /// well formed. The most recent event is not persisted and starts empty.
    pub fn load(db: DbFile) -> (r: Result<Store, LoadError>)
        ensures
            r is Err <==> loaded(db@) is None,
            r is Err ==> r == Err::<Store, LoadError>(LoadError::Malformed),
            r matches Ok(s) ==> Some(s@) == loaded(db@) && s.wf() && s.last_event
                == PastEvent::NoEvent,
    {
        let reminders_ok = list_is_wf(&db.reminders);
        let history_ok = snapshots_are_wf(&db.history);
        let redo_ok = snapshots_are_wf(&db.redoable_history);
        if !(reminders_ok && history_ok && redo_ok) {
            proof {
                if !history_ok {
                    let k = choose|k: int|
                        0 <= k < snapshots(db.history@).len() && !wf_list(
                            #[trigger] snapshots(db.history@)[k],
                        );
                    assert(!wf_list(db@.history[k]));
                }
                if !redo_ok {
                    let k = choose|k: int|
                        0 <= k < snapshots(db.redoable_history@).len() && !wf_list(
                            #[trigger] snapshots(db.redoable_history@)[k],
                        );
                    assert(!wf_list(db@.redoable_history[k]));
                }
            }
            return Err(LoadError::Malformed);
        }
        Ok(
            Store {
                reminders: db.reminders,
                history: db.history,
                redoable_history: db.redoable_history,
                reset_history_on_change: db.reset_history_on_change,
                last_event: PastEvent::NoEvent,
            },
        )
    }
}

} // verus!
