use vstd::prelude::*;
use crate::model::{Process, ProcessUpdates, StoreError};

verus! {

/// A column of the process table that an update may assign.
#[derive(Debug, Clone, Copy, PartialEq, Eq, Structural)]
pub enum Column {
    Number,
    ProcessType,
    Status,
    DueDate,
    Forwarding,
    PendingActions,
    Summary,
    UpdatedAt,
}

impl Column {
    /// The column's name in the stored table.
    pub fn name(&self) -> (r: &'static str)
        ensures
            r@ == column_name(*self),
    {
        match self {
            Column::Number => "number",
            Column::ProcessType => "type",
            Column::Status => "status",
            Column::DueDate => "due_date",
            Column::Forwarding => "forwarding",
            Column::PendingActions => "pending_actions",
            Column::Summary => "summary",
            Column::UpdatedAt => "updated_at",
        }
    }
}

pub open spec fn column_name(c: Column) -> Seq<char> {
    match c {
        Column::Number => "number"@,
        Column::ProcessType => "type"@,
        Column::Status => "status"@,
        Column::DueDate => "due_date"@,
        Column::Forwarding => "forwarding"@,
        Column::PendingActions => "pending_actions"@,
        Column::Summary => "summary"@,
        Column::UpdatedAt => "updated_at"@,
    }
}

/// One `column = value` assignment of an update statement.
#[derive(Debug)]
pub struct Assignment {
    pub column: Column,
    pub value: String,
}

/// A partial update as one statement: the assignments in a fixed column
/// order, the timestamp assignment last, and the identifier of the row.
#[derive(Debug)]
pub struct UpdateStatement {
    pub assignments: Vec<Assignment>,
    pub process_id: String,
}

/// Whether the payload sets at least one field.
pub open spec fn has_fields(u: ProcessUpdates) -> bool {
    ||| u.number is Some
    ||| u.process_type is Some
    ||| u.status is Some
    ||| u.due_date is Some
    ||| u.forwarding is Some
    ||| u.pending_actions is Some
    ||| u.summary is Some
}

pub open spec fn assign_if(c: Column, o: Option<String>) -> Seq<Assignment> {
    match o {
        Some(v) => seq![Assignment { column: c, value: v }],
        None => Seq::empty(),
    }
}

/// The assignments for the supplied fields, in column order.
pub open spec fn supplied(u: ProcessUpdates) -> Seq<Assignment> {
    assign_if(Column::Number, u.number) + assign_if(Column::ProcessType, u.process_type)
        + assign_if(Column::Status, u.status) + assign_if(Column::DueDate, u.due_date)
        + assign_if(Column::Forwarding, u.forwarding) + assign_if(
        Column::PendingActions,
        u.pending_actions,
    ) + assign_if(Column::Summary, u.summary)
}

pub open spec fn pick(o: Option<String>, keep: String) -> String {
    match o {
        Some(v) => v,
        None => keep,
    }
}

/// The record `p` after the update `u` made at time `now`.
pub open spec fn applied(p: Process, u: ProcessUpdates, now: String) -> Process {
    Process {
        id: p.id,
        number: pick(u.number, p.number),
        process_type: pick(u.process_type, p.process_type),
        status: pick(u.status, p.status),
        due_date: pick(u.due_date, p.due_date),
        forwarding: pick(u.forwarding, p.forwarding),
        pending_actions: pick(u.pending_actions, p.pending_actions),
        summary: match u.summary {
            Some(v) => Some(v),
            None => p.summary,
        },
        created_at: p.created_at,
        updated_at: now,
    }
}

impl ProcessUpdates {
    /// Whether the payload sets at least one field.
    pub fn has_fields(&self) -> (r: bool)
        ensures
            r == has_fields(*self),
    {
        self.number.is_some() || self.process_type.is_some() || self.status.is_some()
            || self.due_date.is_some() || self.forwarding.is_some()
            || self.pending_actions.is_some() || self.summary.is_some()
    }
}

fn push_if(v: &mut Vec<Assignment>, c: Column, o: &Option<String>)
    ensures
        final(v)@ == old(v)@ + assign_if(c, *o),
{
    match o {
        Some(s) => {
            v.push(Assignment { column: c, value: s.clone() });
            assert(final(v)@ =~= old(v)@ + assign_if(c, *o));
        },
        None => {
            assert(old(v)@ + assign_if(c, *o) =~= old(v)@);
        },
    }
}

/// Builds the update statement for `updates` on the process `process_id`
/// at time `now`. A payload that sets no field is refused before any
/// statement exists.
pub fn build_update(updates: &ProcessUpdates, process_id: &String, now: &String) -> (r: Result<
    UpdateStatement,
    StoreError,
>)
    ensures
        !has_fields(*updates) <==> r == Err::<UpdateStatement, StoreError>(
            StoreError::NothingToUpdate,
        ),
        r is Ok <==> has_fields(*updates),
        r matches Ok(s) ==> s.assignments@ == supplied(*updates).push(
            Assignment { column: Column::UpdatedAt, value: *now },
        ) && s.process_id == *process_id,
{
    if !updates.has_fields() {
        return Err(StoreError::NothingToUpdate);
    }
    let mut v: Vec<Assignment> = Vec::new();
    push_if(&mut v, Column::Number, &updates.number);
    push_if(&mut v, Column::ProcessType, &updates.process_type);
    push_if(&mut v, Column::Status, &updates.status);
    push_if(&mut v, Column::DueDate, &updates.due_date);
    push_if(&mut v, Column::Forwarding, &updates.forwarding);
    push_if(&mut v, Column::PendingActions, &updates.pending_actions);
    push_if(&mut v, Column::Summary, &updates.summary);
    v.push(Assignment { column: Column::UpdatedAt, value: now.clone() });
    assert(v@ =~= supplied(*updates).push(Assignment { column: Column::UpdatedAt, value: *now }));
    Ok(UpdateStatement { assignments: v, process_id: process_id.clone() })
}

/// The record `p` after the single assignment `a`.
pub open spec fn assign(p: Process, a: Assignment) -> Process {
    match a.column {
        Column::Number => Process { number: a.value, ..p },
        Column::ProcessType => Process { process_type: a.value, ..p },
        Column::Status => Process { status: a.value, ..p },
        Column::DueDate => Process { due_date: a.value, ..p },
        Column::Forwarding => Process { forwarding: a.value, ..p },
        Column::PendingActions => Process { pending_actions: a.value, ..p },
        Column::Summary => Process { summary: Some(a.value), ..p },
        Column::UpdatedAt => Process { updated_at: a.value, ..p },
    }
}

/// The record `p` after the assignments `s`, in order.
pub open spec fn assign_all(p: Process, s: Seq<Assignment>) -> Process
    decreases s.len(),
{
    if s.len() == 0 {
        p
    } else {
        assign(assign_all(p, s.drop_last()), s.last())
    }
}

proof fn lemma_assign_all_concat(p: Process, a: Seq<Assignment>, b: Seq<Assignment>)
    ensures
        assign_all(p, a + b) == assign_all(assign_all(p, a), b),
    decreases b.len(),
{
    if b.len() == 0 {
        assert(a + b =~= a);
    } else {
        lemma_assign_all_concat(p, a, b.drop_last());
        assert((a + b).drop_last() =~= a + b.drop_last());
        assert((a + b).last() == b.last());
    }
}

proof fn lemma_assign_if(p: Process, c: Column, o: Option<String>)
    ensures
        assign_all(p, assign_if(c, o)) == match o {
            Some(v) => assign(p, Assignment { column: c, value: v }),
            None => p,
        },
{
    if let Some(v) = o {
        let s = assign_if(c, o);
        assert(s.drop_last() =~= Seq::<Assignment>::empty());
        assert(assign_all(p, s.drop_last()) == p);
    }
}

/// The statement built from a payload has, on any row, exactly the effect
/// of the payload at the statement's time.
pub proof fn lemma_statement_applies_update(p: Process, u: ProcessUpdates, now: String)
    ensures
        assign_all(p, supplied(u).push(Assignment { column: Column::UpdatedAt, value: now }))
            == applied(p, u, now),
{
    let a1 = assign_if(Column::Number, u.number);
    let a2 = assign_if(Column::ProcessType, u.process_type);
    let a3 = assign_if(Column::Status, u.status);
    let a4 = assign_if(Column::DueDate, u.due_date);
    let a5 = assign_if(Column::Forwarding, u.forwarding);
    let a6 = assign_if(Column::PendingActions, u.pending_actions);
    let a7 = assign_if(Column::Summary, u.summary);
    let last = seq![Assignment { column: Column::UpdatedAt, value: now }];
    assert(supplied(u).push(Assignment { column: Column::UpdatedAt, value: now }) =~= a1 + a2 + a3
        + a4 + a5 + a6 + a7 + last);
    lemma_assign_all_concat(p, a1 + a2 + a3 + a4 + a5 + a6 + a7, last);
    lemma_assign_all_concat(p, a1 + a2 + a3 + a4 + a5 + a6, a7);
    lemma_assign_all_concat(p, a1 + a2 + a3 + a4 + a5, a6);
    lemma_assign_all_concat(p, a1 + a2 + a3 + a4, a5);
    lemma_assign_all_concat(p, a1 + a2 + a3, a4);
    lemma_assign_all_concat(p, a1 + a2, a3);
    lemma_assign_all_concat(p, a1, a2);
    let q1 = assign_all(p, a1);
    let q2 = assign_all(q1, a2);
    let q3 = assign_all(q2, a3);
    let q4 = assign_all(q3, a4);
    let q5 = assign_all(q4, a5);
    let q6 = assign_all(q5, a6);
    let q7 = assign_all(q6, a7);
    lemma_assign_if(p, Column::Number, u.number);
    lemma_assign_if(q1, Column::ProcessType, u.process_type);
    lemma_assign_if(q2, Column::Status, u.status);
    lemma_assign_if(q3, Column::DueDate, u.due_date);
    lemma_assign_if(q4, Column::Forwarding, u.forwarding);
    lemma_assign_if(q5, Column::PendingActions, u.pending_actions);
    lemma_assign_if(q6, Column::Summary, u.summary);
    lemma_assign_if(q7, Column::UpdatedAt, Some(now));
    assert(last == assign_if(Column::UpdatedAt, Some(now)));
}

/// The record `p` after the assignments of `stmt`, in order.
pub fn apply_statement(p: &Process, stmt: &UpdateStatement) -> (r: Process)
    ensures
        r == assign_all(*p, stmt.assignments@),
{
    let mut r = p.duplicate();
    let n = stmt.assignments.len();
    let mut i: usize = 0;
    assert(stmt.assignments@.take(0) =~= Seq::<Assignment>::empty());
    while i < n
        invariant
            n == stmt.assignments@.len(),
            i <= n,
            r == assign_all(*p, stmt.assignments@.take(i as int)),
        decreases n - i,
    {
        let a = &stmt.assignments[i];
        let v = a.value.clone();
        match a.column {
            Column::Number => r.number = v,
            Column::ProcessType => r.process_type = v,
            Column::Status => r.status = v,
            Column::DueDate => r.due_date = v,
            Column::Forwarding => r.forwarding = v,
            Column::PendingActions => r.pending_actions = v,
            Column::Summary => r.summary = Some(v),
            Column::UpdatedAt => r.updated_at = v,
        }
        proof {
            assert(stmt.assignments@.take(i + 1).drop_last() =~= stmt.assignments@.take(i as int));
        }
        i += 1;
    }
    assert(stmt.assignments@.take(n as int) =~= stmt.assignments@);
    r
}

} // verus!
