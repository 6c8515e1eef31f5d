use vstd::prelude::*;

verus! {

/// A tracked process record as the store holds it.
#[derive(Debug)]
pub struct Process {
    pub id: String,
    pub number: String,
    pub process_type: String,
    pub status: String,
    pub due_date: String,
    pub forwarding: String,
    /// The pending actions in their stored (encoded) form.
    pub pending_actions: String,
    pub summary: Option<String>,
    pub created_at: String,
    pub updated_at: String,
}

/// What a caller supplies to create a process: everything but the
/// identifier and the timestamps.
#[derive(Debug)]
pub struct ProcessData {
    pub number: String,
    pub process_type: String,
    pub status: String,
    pub due_date: String,
    pub forwarding: String,
    pub pending_actions: String,
    pub summary: Option<String>,
}

/// A partial update: only the fields that are `Some` change.
#[derive(Debug)]
pub struct ProcessUpdates {
    pub number: Option<String>,
    pub process_type: Option<String>,
    pub status: Option<String>,
    pub due_date: Option<String>,
    pub forwarding: Option<String>,
    pub pending_actions: Option<String>,
    pub summary: Option<String>,
}

/// A mark recording that one pending action of one process is done.
#[derive(Debug)]
pub struct CompletedAction {
    pub id: String,
    pub process_id: String,
    pub action_text: String,
    pub completed_at: String,
}

/// Why a store operation failed.
#[derive(Debug)]
pub enum StoreError {
    /// An update payload that sets no field.
    NothingToUpdate,
    /// No process with the given identifier exists.
    NotFound,
    /// An insert whose identifier is already taken.
    DuplicateId,
    /// A stored row lacks a required column; the name says which.
    MissingColumn(String),
}

/// The shape of a generated identifier: 36 characters with hyphens at
/// positions 8, 13, 18 and 23.
pub open spec fn uuid_shaped(s: Seq<char>) -> bool {
    s.len() == 36 && s[8] == '-' && s[13] == '-' && s[18] == '-' && s[23] == '-'
}

/// A copy of an optional string.
pub fn copy_opt(o: &Option<String>) -> (r: Option<String>)
    ensures
        r == *o,
{
    match o {
        Some(s) => Some(s.clone()),
        None => None,
    }
}

impl Process {
    /// A field-by-field copy.
    pub fn duplicate(&self) -> (r: Process)
        ensures
            r == *self,
    {
        Process {
            id: self.id.clone(),
            number: self.number.clone(),
            process_type: self.process_type.clone(),
            status: self.status.clone(),
            due_date: self.due_date.clone(),
            forwarding: self.forwarding.clone(),
            pending_actions: self.pending_actions.clone(),
            summary: copy_opt(&self.summary),
            created_at: self.created_at.clone(),
            updated_at: self.updated_at.clone(),
        }
    }
}

impl CompletedAction {
    /// A field-by-field copy.
    pub fn duplicate(&self) -> (r: CompletedAction)
        ensures
            r == *self,
    {
        CompletedAction {
            id: self.id.clone(),
            process_id: self.process_id.clone(),
            action_text: self.action_text.clone(),
            completed_at: self.completed_at.clone(),
        }
    }
}

/// The record that creating a process from `d` with identifier `id` at
/// time `now` yields.
pub open spec fn created_record(d: ProcessData, id: String, now: String) -> Process {
    Process {
        id: id,
        number: d.number,
        process_type: d.process_type,
        status: d.status,
        due_date: d.due_date,
        forwarding: d.forwarding,
        pending_actions: d.pending_actions,
        summary: d.summary,
        created_at: now,
        updated_at: now,
    }
}

/// Builds the record for a new process; both timestamps are `now`.
pub fn new_record(data: ProcessData, id: String, now: String) -> (r: Process)
    ensures
        r == created_record(data, id, now),
{
    Process {
        id: id,
        number: data.number,
        process_type: data.process_type,
        status: data.status,
        due_date: data.due_date,
        forwarding: data.forwarding,
        pending_actions: data.pending_actions,
        summary: data.summary,
        created_at: now.clone(),
        updated_at: now,
    }
}

} // verus!
