use vstd::prelude::*;
use crate::fresh::{current_timestamp, new_record_id};
use crate::model::{created_record, new_record, uuid_shaped, CompletedAction, Process, ProcessData, ProcessUpdates, StoreError};
use crate::order::{lemma_text_le_total, lemma_text_le_trans, text_le, text_le_exec};
use crate::update::{
    applied, apply_statement, build_update, has_fields, lemma_statement_applies_update, supplied,
    Assignment, Column,
};

verus! {

/// The two tables of the store: processes in the order they were added,
/// and completion marks in the order they were made.
pub struct ProcessStore {
    pub processes: Vec<Process>,
    pub completed: Vec<CompletedAction>,
}

/// Whether some row of `s` has the identifier `id`.
pub open spec fn id_taken(s: Seq<Process>, id: Seq<char>) -> bool {
    exists|i: int| 0 <= i < s.len() && (#[trigger] s[i]).id@ == id
}

/// The rows of `s`, newest first.
pub open spec fn listed(s: Seq<Process>) -> Seq<Process> {
    Seq::new(s.len(), |i: int| s[s.len() - 1 - i])
}

/// The rows of `s` but those with identifier `id`, in order.
pub open spec fn without_id(s: Seq<Process>, id: Seq<char>) -> Seq<Process>
    decreases s.len(),
{
    if s.len() == 0 {
        s
    } else if s.last().id@ == id {
        without_id(s.drop_last(), id)
    } else {
        without_id(s.drop_last(), id).push(s.last())
    }
}

/// `s` with `u` applied at time `now` to every row with identifier `id`.
pub open spec fn updated_rows(s: Seq<Process>, id: Seq<char>, u: ProcessUpdates, now: String) -> Seq<
    Process,
> {
    Seq::new(s.len(), |i: int| if s[i].id@ == id { applied(s[i], u, now) } else { s[i] })
}

/// Whether `c` holds a completion mark for action `text` of process `pid`.
pub open spec fn has_pair(c: Seq<CompletedAction>, pid: Seq<char>, text: Seq<char>) -> bool {
    exists|i: int|
        0 <= i < c.len() && (#[trigger] c[i]).process_id@ == pid && c[i].action_text@ == text
}

/// Whether some mark of `c` has the identifier `id`.
pub open spec fn mark_id_taken(c: Seq<CompletedAction>, id: Seq<char>) -> bool {
    exists|i: int| 0 <= i < c.len() && (#[trigger] c[i]).id@ == id
}

pub open spec fn is_pair(a: CompletedAction, pid: Seq<char>, text: Seq<char>) -> bool {
    a.process_id@ == pid && a.action_text@ == text
}

/// The marks of `c` but those for action `text` of process `pid`, in order.
pub open spec fn without_pair(c: Seq<CompletedAction>, pid: Seq<char>, text: Seq<char>) -> Seq<
    CompletedAction,
>
    decreases c.len(),
{
    if c.len() == 0 {
        c
    } else if is_pair(c.last(), pid, text) {
        without_pair(c.drop_last(), pid, text)
    } else {
        without_pair(c.drop_last(), pid, text).push(c.last())
    }
}

/// The completion marks after toggling action `text` of process `pid`;
/// a new mark gets identifier `id` and time `now`.
pub open spec fn toggled(
    c: Seq<CompletedAction>,
    pid: String,
    text: String,
    id: String,
    now: String,
) -> Seq<CompletedAction> {
    if has_pair(c, pid@, text@) {
        without_pair(c, pid@, text@)
    } else {
        c.push(CompletedAction { id: id, process_id: pid, action_text: text, completed_at: now })
    }
}

/// The completed actions of one process, as the listing gives them.
#[derive(Debug)]
pub struct ActionGroup {
    pub process_id: String,
    pub actions: Vec<String>,
}

/// The characters of each string of `v`.
pub open spec fn texts(v: Seq<String>) -> Seq<Seq<char>> {
    v.map_values(|s: String| s@)
}

/// The action labels of the marks of `c` for process `pid`, in order.
pub open spec fn actions_for(c: Seq<CompletedAction>, pid: Seq<char>) -> Seq<Seq<char>>
    decreases c.len(),
{
    if c.len() == 0 {
        Seq::empty()
    } else if c.last().process_id@ == pid {
        actions_for(c.drop_last(), pid).push(c.last().action_text@)
    } else {
        actions_for(c.drop_last(), pid)
    }
}

/// `g` groups the marks of `c` by process: one group per process that has
/// a mark, holding its action labels in order.
pub open spec fn groups_marks(g: Seq<ActionGroup>, c: Seq<CompletedAction>) -> bool {
    &&& forall|i: int|
        0 <= i < g.len() ==> texts((#[trigger] g[i]).actions@) == actions_for(c, g[i].process_id@)
            && g[i].actions@.len() > 0
    &&& forall|i: int, j: int|
        0 <= i < j < g.len() ==> (#[trigger] g[i]).process_id@ != (#[trigger] g[j]).process_id@
    &&& forall|k: Seq<char>|
        (#[trigger] actions_for(c, k)).len() > 0 ==> exists|i: int|
            0 <= i < g.len() && (#[trigger] g[i]).process_id@ == k
}

proof fn lemma_actions_step(c: Seq<CompletedAction>, i: int, k: Seq<char>)
    requires
        0 <= i < c.len(),
    ensures
        actions_for(c.take(i + 1), k) == if c[i].process_id@ == k {
            actions_for(c.take(i), k).push(c[i].action_text@)
        } else {
            actions_for(c.take(i), k)
        },
{
    assert(c.take(i + 1).drop_last() =~= c.take(i));
}

/// Position `k` of `s` lies after every row created no later than `now`
/// and before every other row.
pub open spec fn placed(s: Seq<Process>, k: int, now: Seq<char>) -> bool {
    &&& 0 <= k <= s.len()
    &&& forall|j: int| 0 <= j < k ==> text_le((#[trigger] s[j]).created_at@, now)
    &&& forall|j: int| k <= j < s.len() ==> !text_le((#[trigger] s[j]).created_at@, now)
}

/// The rows of `s` are in order of creation time.
pub open spec fn by_creation(s: Seq<Process>) -> bool {
    forall|i: int, j: int|
        0 <= i < j < s.len() ==> text_le((#[trigger] s[i]).created_at@, (#[trigger] s[j]).created_at@)
}

/// No two rows of `s` share an identifier.
pub open spec fn ids_distinct(s: Seq<Process>) -> bool {
    forall|i: int, j: int| 0 <= i < j < s.len() ==> (#[trigger] s[i]).id@ != (#[trigger] s[j]).id@
}

/// No two marks of `c` share an identifier, nor a process and action.
pub open spec fn marks_distinct(c: Seq<CompletedAction>) -> bool {
    forall|i: int, j: int|
        0 <= i < j < c.len() ==> (#[trigger] c[i]).id@ != (#[trigger] c[j]).id@ && !is_pair(
            c[j],
            c[i].process_id@,
            c[i].action_text@,
        )
}

proof fn lemma_without_id_wf(s: Seq<Process>, id: Seq<char>)
    requires
        by_creation(s),
        ids_distinct(s),
    ensures
        by_creation(without_id(s, id)),
        ids_distinct(without_id(s, id)),
        forall|i: int|
            0 <= i < without_id(s, id).len() ==> exists|j: int|
                0 <= j < s.len() && #[trigger] without_id(s, id)[i] == s[j],
    decreases s.len(),
{
    if s.len() > 0 {
        let d = s.drop_last();
        lemma_without_id_wf(d, id);
        let v = without_id(d, id);
        if s.last().id@ != id {
            let w = v.push(s.last());
            assert forall|i: int| 0 <= i < w.len() implies exists|j: int|
                0 <= j < s.len() && #[trigger] w[i] == s[j] by {
                if i < v.len() {
                    let j = choose|j: int| 0 <= j < d.len() && #[trigger] v[i] == d[j];
                    assert(w[i] == s[j]);
                } else {
                    assert(w[i] == s[s.len() - 1]);
                }
            }
            assert forall|i: int, j: int| 0 <= i < j < w.len() implies text_le(
                (#[trigger] w[i]).created_at@,
                (#[trigger] w[j]).created_at@,
            ) && w[i].id@ != w[j].id@ by {
                if j == w.len() - 1 {
                    let k = choose|k: int| 0 <= k < d.len() && #[trigger] v[i] == d[k];
                    assert(w[i] == s[k] && w[j] == s[s.len() - 1]);
                } else {
                    assert(w[i] == v[i] && w[j] == v[j]);
                }
            }
        }
    }
}

proof fn lemma_without_pair_wf(c: Seq<CompletedAction>, pid: Seq<char>, text: Seq<char>)
    requires
        marks_distinct(c),
    ensures
        marks_distinct(without_pair(c, pid, text)),
        forall|i: int|
            0 <= i < without_pair(c, pid, text).len() ==> exists|j: int|
                0 <= j < c.len() && #[trigger] without_pair(c, pid, text)[i] == c[j],
    decreases c.len(),
{
    if c.len() > 0 {
        let d = c.drop_last();
        lemma_without_pair_wf(d, pid, text);
        let v = without_pair(d, pid, text);
        if !is_pair(c.last(), pid, text) {
            let w = v.push(c.last());
            assert forall|i: int| 0 <= i < w.len() implies exists|j: int|
                0 <= j < c.len() && #[trigger] w[i] == c[j] by {
                if i < v.len() {
                    let j = choose|j: int| 0 <= j < d.len() && #[trigger] v[i] == d[j];
                    assert(w[i] == c[j]);
                } else {
                    assert(w[i] == c[c.len() - 1]);
                }
            }
            assert forall|i: int, j: int| 0 <= i < j < w.len() implies (#[trigger] w[i]).id@
                != (#[trigger] w[j]).id@ && !is_pair(w[j], w[i].process_id@, w[i].action_text@) by {
                if j == w.len() - 1 {
                    let k = choose|k: int| 0 <= k < d.len() && #[trigger] v[i] == d[k];
                    assert(w[i] == c[k] && w[j] == c[c.len() - 1]);
                } else {
                    assert(w[i] == v[i] && w[j] == v[j]);
                }
            }
        }
    }
}

impl ProcessStore {
    /// The store's invariant: processes in order of creation time with
    /// distinct identifiers, and marks with distinct identifiers and
    /// distinct (process, action) pairs.
    pub open spec fn wf(&self) -> bool {
        by_creation(self.processes@) && ids_distinct(self.processes@) && marks_distinct(
            self.completed@,
        )
    }

    /// An empty store.
    pub fn new() -> (r: ProcessStore)
        ensures
            r.processes@.len() == 0,
            r.completed@.len() == 0,
            r.wf(),
    {
        ProcessStore { processes: Vec::new(), completed: Vec::new() }
    }

    /// Every process, newest first: by creation time, latest first.
    pub fn get_all_processes(&self) -> (r: Vec<Process>)
        requires
            self.wf(),
        ensures
            r@ == listed(self.processes@),
            forall|i: int, j: int|
                0 <= i < j < r@.len() ==> text_le(
                    (#[trigger] r@[j]).created_at@,
                    (#[trigger] r@[i]).created_at@,
                ),
    {
        let n = self.processes.len();
        let mut r: Vec<Process> = Vec::new();
        let mut i: usize = 0;
        while i < n
            invariant
                n == self.processes@.len(),
                i <= n,
                r@.len() == i,
                forall|j: int| 0 <= j < i ==> r@[j] == self.processes@[n - 1 - j],
            decreases n - i,
        {
            r.push(self.processes[n - 1 - i].duplicate());
            i += 1;
        }
        assert(r@ =~= listed(self.processes@));
        assert forall|i: int, j: int| 0 <= i < j < r@.len() implies text_le(
            (#[trigger] r@[j]).created_at@,
            (#[trigger] r@[i]).created_at@,
        ) by {
            assert(r@[j] == self.processes@[n - 1 - j] && r@[i] == self.processes@[n - 1 - i]);
        }
        r
    }

    fn id_in_use(&self, id: &String) -> (r: bool)
        ensures
            r == id_taken(self.processes@, id@),
    {
        let mut i: usize = 0;
        while i < self.processes.len()
            invariant
                i <= self.processes@.len(),
                forall|j: int| 0 <= j < i ==> self.processes@[j].id@ != id@,
            decreases self.processes@.len() - i,
        {
            if self.processes[i].id == *id {
                return true;
            }
            i += 1;
        }
        false
    }

    /// Adds a process built from `data` with identifier `id`, created and
    /// updated at `now`, after every process created no later than `now`
    /// and before the others. An identifier already in use is refused.
    pub fn add_process_with(&mut self, data: ProcessData, id: String, now: String) -> (r: Result<
        Process,
        StoreError,
    >)
        requires
            old(self).wf(),
        ensures
            final(self).wf(),
            id_taken(old(self).processes@, id@) ==> r == Err::<Process, StoreError>(
                StoreError::DuplicateId,
            ) && final(self).processes@ == old(self).processes@,
            !id_taken(old(self).processes@, id@) ==> r == Ok::<Process, StoreError>(
                created_record(data, id, now),
            ) && exists|k: int|
                placed(old(self).processes@, k, now@) && final(self).processes@ == old(
                    self,
                ).processes@.insert(k, created_record(data, id, now)),
            final(self).completed@ == old(self).completed@,
    {
        if self.id_in_use(&id) {
            return Err(StoreError::DuplicateId);
        }
        let ghost s = self.processes@;
        let n = self.processes.len();
        let mut k: usize = n;
        let mut stop = false;
        while k > 0 && !stop
            invariant
                s == self.processes@,
                n == s.len(),
                k <= n,
                stop ==> k > 0 && text_le(s[k - 1].created_at@, now@),
                forall|j: int|
                    k <= j < n ==> !text_le((#[trigger] s[j]).created_at@, now@) && text_le(
                        now@,
                        s[j].created_at@,
                    ),
            decreases k + (if stop { 0int } else { 1int }),
        {
            if text_le_exec(self.processes[k - 1].created_at.as_str(), now.as_str()) {
                stop = true;
            } else {
                proof {
                    lemma_text_le_total(s[k - 1].created_at@, now@);
                }
                k -= 1;
            }
        }
        assert forall|j: int| 0 <= j < k implies text_le((#[trigger] s[j]).created_at@, now@) by {
            if j < k - 1 {
                lemma_text_le_trans(s[j].created_at@, s[k - 1].created_at@, now@);
            }
        }
        let p = new_record(data, id, now);
        let out = p.duplicate();
        self.processes.insert(k, p);
        proof {
            let t = self.processes@;
            assert(t == s.insert(k as int, p));
            assert forall|i: int, j: int| 0 <= i < j < t.len() implies text_le(
                (#[trigger] t[i]).created_at@,
                (#[trigger] t[j]).created_at@,
            ) && t[i].id@ != t[j].id@ by {
                if j < k {
                    assert(t[i] == s[i] && t[j] == s[j]);
                } else if j == k {
                    assert(t[i] == s[i]);
                } else if i == k {
                    assert(t[j] == s[j - 1]);
                } else if i < k {
                    assert(t[i] == s[i] && t[j] == s[j - 1]);
                } else {
                    assert(t[i] == s[i - 1] && t[j] == s[j - 1]);
                }
            }
            assert(placed(s, k as int, now@));
        }
        Ok(out)
    }

    /// Adds a process built from `data` under a fresh random identifier,
    /// with both timestamps set to the current time.
    pub fn add_process(&mut self, data: ProcessData) -> (r: Result<Process, StoreError>)
        requires
            old(self).wf(),
        ensures
            final(self).wf(),
            r matches Ok(p) ==> p.number == data.number && p.process_type == data.process_type
                && p.status == data.status && p.due_date == data.due_date && p.forwarding
                == data.forwarding && p.pending_actions == data.pending_actions && p.summary
                == data.summary && p.created_at == p.updated_at && uuid_shaped(p.id@) && !id_taken(
                old(self).processes@,
                p.id@,
            ) && exists|k: int|
                placed(old(self).processes@, k, p.created_at@) && final(self).processes@ == old(
                    self,
                ).processes@.insert(k, p),
            r matches Err(e) ==> e == StoreError::DuplicateId && final(self).processes@ == old(
                self,
            ).processes@,
            r is Err ==> exists|i: int|
                0 <= i < old(self).processes@.len() && uuid_shaped(
                    (#[trigger] old(self).processes@[i]).id@,
                ),
            final(self).completed@ == old(self).completed@,
    {
        let id = new_record_id();
        let now = current_timestamp();
        let ghost taken = id_taken(self.processes@, id@);
        let ghost before = self.processes@;
        let ghost drawn = id@;
        let r = self.add_process_with(data, id, now);
        proof {
            if taken {
                let i = choose|i: int| 0 <= i < before.len() && (#[trigger] before[i]).id@ == drawn;
                assert(uuid_shaped(before[i].id@));
            }
        }
        r
    }

    /// Applies `updates` at time `now` to the process `process_id` and
    /// returns the record as it then stands. A payload that sets no field
    /// fails with `NothingToUpdate` and an unknown identifier with
    /// `NotFound`; neither changes the store.
    pub fn update_process_with(
        &mut self,
        process_id: &String,
        updates: &ProcessUpdates,
        now: String,
    ) -> (r: Result<Process, StoreError>)
        requires
            old(self).wf(),
        ensures
            final(self).wf(),
            !has_fields(*updates) ==> r == Err::<Process, StoreError>(StoreError::NothingToUpdate)
                && final(self).processes@ == old(self).processes@,
            has_fields(*updates) && !id_taken(old(self).processes@, process_id@) ==> r == Err::<
                Process,
                StoreError,
            >(StoreError::NotFound) && final(self).processes@ == old(self).processes@,
            has_fields(*updates) && id_taken(old(self).processes@, process_id@) ==> {
                &&& final(self).processes@ == updated_rows(
                    old(self).processes@,
                    process_id@,
                    *updates,
                    now,
                )
                &&& exists|k: int|
                    0 <= k < old(self).processes@.len() && old(self).processes@[k].id@
                        == process_id@ && (forall|j: int|
                        0 <= j < k ==> old(self).processes@[j].id@ != process_id@) && r
                        == Ok::<Process, StoreError>(
                        applied(old(self).processes@[k], *updates, now),
                    )
            },
            final(self).completed@ == old(self).completed@,
    {
        let stmt = match build_update(updates, process_id, &now) {
            Err(e) => {
                return Err(e);
            },
            Ok(st) => st,
        };
        let ghost s = self.processes@;
        let n = self.processes.len();
        let mut out: Vec<Process> = Vec::new();
        let mut found: Option<usize> = None;
        let mut i: usize = 0;
        while i < n
            invariant
                s == self.processes@,
                n == s.len(),
                i <= n,
                stmt.assignments@ == supplied(*updates).push(
                    Assignment { column: Column::UpdatedAt, value: now },
                ),
                out@.len() == i,
                forall|j: int|
                    0 <= j < i ==> out@[j] == (if s[j].id@ == process_id@ {
                        applied(s[j], *updates, now)
                    } else {
                        s[j]
                    }),
                found is None ==> forall|j: int| 0 <= j < i ==> s[j].id@ != process_id@,
                found matches Some(k) ==> k < i && s[k as int].id@ == process_id@ && forall|
                    j: int,
                | 0 <= j < k ==> s[j].id@ != process_id@,
            decreases n - i,
        {
            if self.processes[i].id == *process_id {
                proof {
                    lemma_statement_applies_update(s[i as int], *updates, now);
                }
                out.push(apply_statement(&self.processes[i], &stmt));
                if found.is_none() {
                    found = Some(i);
                }
            } else {
                out.push(self.processes[i].duplicate());
            }
            i += 1;
        }
        match found {
            None => Err(StoreError::NotFound),
            Some(k) => {
                let rec = out[k].duplicate();
                assert(out@ =~= updated_rows(s, process_id@, *updates, now));
                assert forall|a: int, b: int| 0 <= a < b < out@.len() implies text_le(
                    (#[trigger] out@[a]).created_at@,
                    (#[trigger] out@[b]).created_at@,
                ) && out@[a].id@ != out@[b].id@ by {
                    assert(out@[a].created_at == s[a].created_at && out@[a].id == s[a].id);
                    assert(out@[b].created_at == s[b].created_at && out@[b].id == s[b].id);
                }
                self.processes = out;
                Ok(rec)
            },
        }
    }

    /// Applies `updates` to the process `process_id` at the current time.
    pub fn update_process(&mut self, process_id: &String, updates: &ProcessUpdates) -> (r: Result<
        Process,
        StoreError,
    >)
        requires
            old(self).wf(),
        ensures
            final(self).wf(),
            !has_fields(*updates) ==> r == Err::<Process, StoreError>(StoreError::NothingToUpdate)
                && final(self).processes@ == old(self).processes@,
            has_fields(*updates) && !id_taken(old(self).processes@, process_id@) ==> r == Err::<
                Process,
                StoreError,
            >(StoreError::NotFound) && final(self).processes@ == old(self).processes@,
            has_fields(*updates) && id_taken(old(self).processes@, process_id@) ==> exists|
                now: String,
            |
                {
                    &&& final(self).processes@ == updated_rows(
                        old(self).processes@,
                        process_id@,
                        *updates,
                        now,
                    )
                    &&& exists|k: int|
                        0 <= k < old(self).processes@.len() && old(self).processes@[k].id@
                            == process_id@ && (forall|j: int|
                            0 <= j < k ==> old(self).processes@[j].id@ != process_id@) && r
                            == Ok::<Process, StoreError>(
                            applied(old(self).processes@[k], *updates, now),
                        )
                },
            final(self).completed@ == old(self).completed@,
    {
        let now = current_timestamp();
        self.update_process_with(process_id, updates, now)
    }

    /// Removes every process with identifier `process_id`. Removing an
    /// absent identifier succeeds and changes nothing; completion marks
    /// are never touched.
    pub fn delete_process(&mut self, process_id: &String)
        requires
            old(self).wf(),
        ensures
            final(self).wf(),
            final(self).processes@ == without_id(old(self).processes@, process_id@),
            final(self).completed@ == old(self).completed@,
    {
        let ghost s = self.processes@;
        let n = self.processes.len();
        let mut kept: Vec<Process> = Vec::new();
        let mut i: usize = 0;
        while i < n
            invariant
                s == self.processes@,
                n == s.len(),
                i <= n,
                kept@ == without_id(s.take(i as int), process_id@),
            decreases n - i,
        {
            assert(s.take(i + 1).drop_last() =~= s.take(i as int));
            if self.processes[i].id != *process_id {
                kept.push(self.processes[i].duplicate());
            }
            i += 1;
        }
        assert(s.take(n as int) =~= s);
        proof {
            lemma_without_id_wf(s, process_id@);
        }
        self.processes = kept;
    }

    /// Whether a completion mark exists for action `text` of `process_id`.
    fn pair_marked(&self, process_id: &String, text: &String) -> (r: bool)
        ensures
            r == has_pair(self.completed@, process_id@, text@),
    {
        let mut i: usize = 0;
        while i < self.completed.len()
            invariant
                i <= self.completed@.len(),
                forall|j: int| 0 <= j < i ==> !is_pair(self.completed@[j], process_id@, text@),
            decreases self.completed@.len() - i,
        {
            if self.completed[i].process_id == *process_id && self.completed[i].action_text
                == *text {
                assert(is_pair(self.completed@[i as int], process_id@, text@));
                return true;
            }
            i += 1;
        }
        assert forall|j: int| 0 <= j < self.completed@.len() implies !(self.completed@[j].process_id@
            == process_id@ && self.completed@[j].action_text@ == text@) by {
            assert(!is_pair(self.completed@[j], process_id@, text@));
        }
        false
    }

    fn mark_id_in_use(&self, id: &String) -> (r: bool)
        ensures
            r == mark_id_taken(self.completed@, id@),
    {
        let mut i: usize = 0;
        while i < self.completed.len()
            invariant
                i <= self.completed@.len(),
                forall|j: int| 0 <= j < i ==> self.completed@[j].id@ != id@,
            decreases self.completed@.len() - i,
        {
            if self.completed[i].id == *id {
                return true;
            }
            i += 1;
        }
        false
    }

    /// Flips the completion of action `text` of process `process_id`: a
    /// present mark is removed and `false` comes back; an absent one is
    /// made, with identifier `id` and time `now`, and `true` comes back,
    /// unless that identifier is already in use.
    pub fn toggle_action_completion_with(
        &mut self,
        process_id: &String,
        text: &String,
        id: String,
        now: String,
    ) -> (r: Result<bool, StoreError>)
        requires
            old(self).wf(),
        ensures
            final(self).wf(),
            r == (if has_pair(old(self).completed@, process_id@, text@) {
                Ok::<bool, StoreError>(false)
            } else if mark_id_taken(old(self).completed@, id@) {
                Err::<bool, StoreError>(StoreError::DuplicateId)
            } else {
                Ok::<bool, StoreError>(true)
            }),
            r is Ok ==> final(self).completed@ == toggled(
                old(self).completed@,
                *process_id,
                *text,
                id,
                now,
            ),
            r is Err ==> final(self).completed@ == old(self).completed@,
            final(self).processes@ == old(self).processes@,
    {
        if !self.pair_marked(process_id, text) {
            if self.mark_id_in_use(&id) {
                return Err(StoreError::DuplicateId);
            }
            let ghost c0 = self.completed@;
            self.completed.push(
                CompletedAction {
                    id: id,
                    process_id: process_id.clone(),
                    action_text: text.clone(),
                    completed_at: now,
                },
            );
            proof {
                let c1 = self.completed@;
                assert forall|a: int, b: int| 0 <= a < b < c1.len() implies (#[trigger] c1[a]).id@
                    != (#[trigger] c1[b]).id@ && !is_pair(
                    c1[b],
                    c1[a].process_id@,
                    c1[a].action_text@,
                ) by {
                    assert(c1[a] == c0[a]);
                    if b == c0.len() {
                        assert(!(c0[a].process_id@ == process_id@ && c0[a].action_text@ == text@));
                        assert(c0[a].id@ != id@);
                    } else {
                        assert(c1[b] == c0[b]);
                    }
                }
            }
            return Ok(true);
        }
        let ghost c = self.completed@;
        let n = self.completed.len();
        let mut kept: Vec<CompletedAction> = Vec::new();
        let mut i: usize = 0;
        while i < n
            invariant
                c == self.completed@,
                n == c.len(),
                i <= n,
                kept@ == without_pair(c.take(i as int), process_id@, text@),
            decreases n - i,
        {
            assert(c.take(i + 1).drop_last() =~= c.take(i as int));
            if !(self.completed[i].process_id == *process_id && self.completed[i].action_text
                == *text) {
                kept.push(self.completed[i].duplicate());
            }
            i += 1;
        }
        assert(c.take(n as int) =~= c);
        proof {
            lemma_without_pair_wf(c, process_id@, text@);
        }
        self.completed = kept;
        Ok(false)
    }

    /// Flips the completion of action `text` of process `process_id`; a new
    /// mark gets a fresh random identifier and the current time.
    pub fn toggle_action_completion(&mut self, process_id: &String, text: &String) -> (r: Result<
        bool,
        StoreError,
    >)
        requires
            old(self).wf(),
        ensures
            final(self).wf(),
            has_pair(old(self).completed@, process_id@, text@) ==> r == Ok::<bool, StoreError>(
                false,
            ) && final(self).completed@ == without_pair(
                old(self).completed@,
                process_id@,
                text@,
            ),
            !has_pair(old(self).completed@, process_id@, text@) ==> (r == Ok::<bool, StoreError>(
                true,
            ) && exists|id: String, now: String|
                uuid_shaped(id@) && !mark_id_taken(old(self).completed@, id@) && final(self).completed@ == toggled(
                    old(self).completed@,
                    *process_id,
                    *text,
                    id,
                    now,
                )) || (r == Err::<bool, StoreError>(StoreError::DuplicateId)
                && final(self).completed@ == old(self).completed@ && exists|i: int|
                0 <= i < old(self).completed@.len() && uuid_shaped(
                    (#[trigger] old(self).completed@[i]).id@,
                )),
            final(self).processes@ == old(self).processes@,
    {
        let id = new_record_id();
        let now = current_timestamp();
        let ghost taken = mark_id_taken(self.completed@, id@);
        let ghost before = self.completed@;
        let ghost drawn = id@;
        let r = self.toggle_action_completion_with(process_id, text, id, now);
        proof {
            if taken {
                let i = choose|i: int| 0 <= i < before.len() && (#[trigger] before[i]).id@ == drawn;
                assert(uuid_shaped(before[i].id@));
            }
        }
        r
    }

    /// The completed action labels grouped by process, each group in the
    /// order the marks are stored; a process without marks has no group.
    pub fn get_completed_actions(&self) -> (r: Vec<ActionGroup>)
        ensures
            groups_marks(r@, self.completed@),
    {
        let ghost c = self.completed@;
        let n = self.completed.len();
        let mut groups: Vec<ActionGroup> = Vec::new();
        let mut i: usize = 0;
        assert(groups_marks(groups@, c.take(0))) by {
            assert forall|k: Seq<char>| #[trigger] actions_for(c.take(0), k).len() == 0 by {
                assert(c.take(0).len() == 0);
            }
        }
        while i < n
            invariant
                c == self.completed@,
                n == c.len(),
                i <= n,
                groups_marks(groups@, c.take(i as int)),
            decreases n - i,
        {
            let pid = &self.completed[i].process_id;
            let text = &self.completed[i].action_text;
            let mut j: usize = 0;
            let mut found = false;
            while j < groups.len() && !found
                invariant
                    j <= groups@.len(),
                    found ==> j < groups@.len() && groups@[j as int].process_id@ == pid@,
                    forall|m: int| 0 <= m < j ==> groups@[m].process_id@ != pid@,
                decreases groups@.len() - j + (if found { 0int } else { 1int }),
            {
                if groups[j].process_id == *pid {
                    found = true;
                } else {
                    j += 1;
                }
            }
            let ghost before = groups@;
            if found {
                let mut g = groups.remove(j);
                g.actions.push(text.clone());
                groups.insert(j, g);
                proof {
                    assert(groups@ =~= before.update(j as int, g));
                    assert(texts(g.actions@) =~= texts(before[j as int].actions@).push(text@));
                    assert forall|m: int| 0 <= m < groups@.len() implies texts(
                        (#[trigger] groups@[m]).actions@,
                    ) == actions_for(c.take(i + 1), groups@[m].process_id@)
                        && groups@[m].actions@.len() > 0 by {
                        lemma_actions_step(c, i as int, groups@[m].process_id@);
                    }
                    assert forall|k: Seq<char>| (#[trigger] actions_for(c.take(i + 1), k)).len()
                        > 0 implies exists|m: int|
                        0 <= m < groups@.len() && (#[trigger] groups@[m]).process_id@ == k by {
                        lemma_actions_step(c, i as int, k);
                        if k == pid@ {
                            assert(groups@[j as int].process_id@ == k);
                        } else {
                            assert(actions_for(c.take(i as int), k).len() > 0);
                            let m = choose|m: int|
                                0 <= m < before.len() && (#[trigger] before[m]).process_id@ == k;
                            assert(groups@[m].process_id@ == k);
                        }
                    }
                }
            } else {
                let mut acts: Vec<String> = Vec::new();
                acts.push(text.clone());
                let g = ActionGroup { process_id: pid.clone(), actions: acts };
                groups.push(g);
                proof {
                    assert(groups@ =~= before.push(g));
                    lemma_actions_step(c, i as int, pid@);
                    assert(actions_for(c.take(i as int), pid@).len() == 0) by {
                        if actions_for(c.take(i as int), pid@).len() > 0 {
                            let m = choose|m: int|
                                0 <= m < before.len() && (#[trigger] before[m]).process_id@
                                    == pid@;
                            assert(before[m].process_id@ != pid@);
                        }
                    }
                    assert(texts(g.actions@) =~= seq![text@]);
                    assert forall|m: int| 0 <= m < groups@.len() implies texts(
                        (#[trigger] groups@[m]).actions@,
                    ) == actions_for(c.take(i + 1), groups@[m].process_id@)
                        && groups@[m].actions@.len() > 0 by {
                        lemma_actions_step(c, i as int, groups@[m].process_id@);
                        if m < before.len() {
                            assert(before[m].process_id@ != pid@);
                        } else {
                            assert(actions_for(c.take(i as int), pid@) =~= Seq::<Seq<char>>::empty());
                        }
                    }
                    assert forall|k: Seq<char>| (#[trigger] actions_for(c.take(i + 1), k)).len()
                        > 0 implies exists|m: int|
                        0 <= m < groups@.len() && (#[trigger] groups@[m]).process_id@ == k by {
                        lemma_actions_step(c, i as int, k);
                        if k == pid@ {
                            assert(groups@[before.len() as int].process_id@ == k);
                        } else {
                            assert(actions_for(c.take(i as int), k).len() > 0);
                            let m = choose|m: int|
                                0 <= m < before.len() && (#[trigger] before[m]).process_id@ == k;
                            assert(groups@[m].process_id@ == k);
                        }
                    }
                }
            }
            i += 1;
        }
        assert(c.take(n as int) =~= c);
        groups
    }
}

} // verus!
