use vstd::prelude::*;
use vstd::string::*;
use crate::model::{copy_opt, Process, StoreError};

verus! {

/// The value in column `i` of a stored row; a column past the row's end is
/// missing. The columns of a process row are, in order: id, number, type,
/// status, due_date, forwarding, pending_actions, summary, created_at,
/// updated_at.
pub open spec fn cell(row: Seq<Option<String>>, i: int) -> Option<String> {
    if 0 <= i < row.len() {
        row[i]
    } else {
        None
    }
}

/// The name of the first required column that `row` lacks, if any.
pub open spec fn first_missing(row: Seq<Option<String>>) -> Option<Seq<char>> {
    if cell(row, 0) is None {
        Some("id"@)
    } else if cell(row, 1) is None {
        Some("number"@)
    } else if cell(row, 2) is None {
        Some("type"@)
    } else if cell(row, 3) is None {
        Some("status"@)
    } else if cell(row, 4) is None {
        Some("due_date"@)
    } else if cell(row, 5) is None {
        Some("forwarding"@)
    } else if cell(row, 8) is None {
        Some("created_at"@)
    } else if cell(row, 9) is None {
        Some("updated_at"@)
    } else {
        None
    }
}

/// The stored text that stands for no pending actions.
pub open spec fn no_actions() -> Seq<char> {
    "[]"@
}

/// `p` is the record read from `row`, which has every required column.
pub open spec fn read_from(p: Process, row: Seq<Option<String>>) -> bool {
    &&& Some(p.id) == cell(row, 0)
    &&& Some(p.number) == cell(row, 1)
    &&& Some(p.process_type) == cell(row, 2)
    &&& Some(p.status) == cell(row, 3)
    &&& Some(p.due_date) == cell(row, 4)
    &&& Some(p.forwarding) == cell(row, 5)
    &&& p.pending_actions@ == (match cell(row, 6) {
        Some(v) => v@,
        None => no_actions(),
    })
    &&& p.summary == cell(row, 7)
    &&& Some(p.created_at) == cell(row, 8)
    &&& Some(p.updated_at) == cell(row, 9)
}

fn get_cell(row: &Vec<Option<String>>, i: usize) -> (r: Option<String>)
    ensures
        r == cell(row@, i as int),
{
    if i < row.len() {
        copy_opt(&row[i])
    } else {
        None
    }
}

fn missing(name: &str) -> (r: StoreError)
    ensures
        r matches StoreError::MissingColumn(n) && n@ == name@,
{
    StoreError::MissingColumn(String::from_str(name))
}

/// Reads a process from a stored row. A missing required column fails the
/// whole read with its name; a missing pending-actions value reads as no
/// actions and a missing summary as none.
pub fn process_from_row(row: &Vec<Option<String>>) -> (r: Result<Process, StoreError>)
    ensures
        r is Ok <==> first_missing(row@) is None,
        r matches Ok(p) ==> read_from(p, row@),
        r matches Err(e) ==> (e matches StoreError::MissingColumn(n) && first_missing(row@)
            == Some(n@)),
{
    proof {
        reveal_strlit("id");
        reveal_strlit("number");
        reveal_strlit("type");
        reveal_strlit("status");
        reveal_strlit("due_date");
        reveal_strlit("forwarding");
        reveal_strlit("created_at");
        reveal_strlit("updated_at");
    }
    let id = match get_cell(row, 0) {
        Some(v) => v,
        None => return Err(missing("id")),
    };
    let number = match get_cell(row, 1) {
        Some(v) => v,
        None => return Err(missing("number")),
    };
    let process_type = match get_cell(row, 2) {
        Some(v) => v,
        None => return Err(missing("type")),
    };
    let status = match get_cell(row, 3) {
        Some(v) => v,
        None => return Err(missing("status")),
    };
    let due_date = match get_cell(row, 4) {
        Some(v) => v,
        None => return Err(missing("due_date")),
    };
    let forwarding = match get_cell(row, 5) {
        Some(v) => v,
        None => return Err(missing("forwarding")),
    };
    let created_at = match get_cell(row, 8) {
        Some(v) => v,
        None => return Err(missing("created_at")),
    };
    let updated_at = match get_cell(row, 9) {
        Some(v) => v,
        None => return Err(missing("updated_at")),
    };
    let pending_actions = match get_cell(row, 6) {
        Some(v) => v,
        None => String::from_str("[]"),
    };
    Ok(
        Process {
            id,
            number,
            process_type,
            status,
            due_date,
            forwarding,
            pending_actions,
            summary: get_cell(row, 7),
            created_at,
            updated_at,
        },
    )
}

/// Reads every process of a listing, in order. A row that lacks a
/// required column fails the whole read, with the first such row's error.
pub fn processes_from_rows(rows: &Vec<Vec<Option<String>>>) -> (r: Result<Vec<Process>, StoreError>)
    ensures
        r is Ok <==> forall|i: int| 0 <= i < rows@.len() ==> (#[trigger] first_missing(rows@[i]@)) is None,
        r matches Ok(v) ==> v@.len() == rows@.len() && forall|i: int|
            0 <= i < v@.len() ==> read_from(#[trigger] v@[i], rows@[i]@),
        r matches Err(e) ==> exists|i: int|
            #![trigger rows@[i]]
            0 <= i < rows@.len() && (forall|j: int| 0 <= j < i ==> (#[trigger] first_missing(rows@[j]@)) is None)
                && (e matches StoreError::MissingColumn(n) && first_missing(rows@[i]@) == Some(n@)),
{
    let mut out: Vec<Process> = Vec::new();
    let mut i: usize = 0;
    while i < rows.len()
        invariant
            i <= rows@.len(),
            out@.len() == i,
            forall|j: int| 0 <= j < i ==> (#[trigger] first_missing(rows@[j]@)) is None,
            forall|j: int| 0 <= j < i ==> read_from(#[trigger] out@[j], rows@[j]@),
        decreases rows@.len() - i,
    {
        match process_from_row(&rows[i]) {
            Ok(p) => out.push(p),
            Err(e) => {
                assert(rows@[i as int] == rows@[i as int]);
                return Err(e);
            },
        }
        i += 1;
    }
    Ok(out)
}

/// Reads the process identifier and action label of a stored completion
/// mark row (columns: process_id, action_text). A missing column fails
/// the read with its name.
pub fn completed_pair_from_row(row: &Vec<Option<String>>) -> (r: Result<(String, String), StoreError>)
    ensures
        r is Ok <==> cell(row@, 0) is Some && cell(row@, 1) is Some,
        r matches Ok(pr) ==> Some(pr.0) == cell(row@, 0) && Some(pr.1) == cell(row@, 1),
        r matches Err(e) ==> (e matches StoreError::MissingColumn(n) && n@ == (if cell(row@, 0) is None {
            "process_id"@
        } else {
            "action_text"@
        })),
{
    proof {
        reveal_strlit("process_id");
        reveal_strlit("action_text");
    }
    let pid = match get_cell(row, 0) {
        Some(v) => v,
        None => return Err(missing("process_id")),
    };
    let text = match get_cell(row, 1) {
        Some(v) => v,
        None => return Err(missing("action_text")),
    };
    Ok((pid, text))
}

} // verus!
