use vstd::prelude::*;
use crate::model::{created_record, CompletedAction, Process, ProcessData, ProcessUpdates};
use crate::store::{
    actions_for, has_pair, id_taken, is_pair, listed, toggled, without_id, without_pair,
};
use crate::order::{lemma_text_le_refl, lemma_text_le_trans, text_le};
use crate::update::{applied, has_fields};

verus! {

/// Creating a process and then listing: exactly one new entry appears,
/// at the place its creation time gives it, built from the payload with
/// the new identifier and equal creation and update times; the entries
/// listed before stay, in their order.
pub proof fn lemma_create_then_list(
    s: Seq<Process>,
    k: int,
    d: ProcessData,
    id: String,
    now: String,
)
    requires
        0 <= k <= s.len(),
    ensures
        listed(s.insert(k, created_record(d, id, now))) == listed(s).insert(
            s.len() - k,
            created_record(d, id, now),
        ),
        created_record(d, id, now).created_at == created_record(d, id, now).updated_at,
        text_le(
            created_record(d, id, now).created_at@,
            created_record(d, id, now).updated_at@,
        ),
        created_record(d, id, now).id == id,
{
    lemma_text_le_refl(now@);
    assert(listed(s.insert(k, created_record(d, id, now))) =~= listed(s).insert(
        s.len() - k,
        created_record(d, id, now),
    ));
}

/// An update that sets at least one field changes exactly the supplied
/// fields, keeps every other field, the identifier and the creation time,
/// and sets the update time to the time of the update. Made at a time no
/// earlier than the prior update time, it moves the update time forward
/// and keeps the creation time no later than the update time.
pub proof fn lemma_update_changes_supplied(p: Process, u: ProcessUpdates, now: String)
    requires
        has_fields(u),
    ensures
        applied(p, u, now).number == (if let Some(v) = u.number { v } else { p.number }),
        applied(p, u, now).process_type == (if let Some(v) = u.process_type {
            v
        } else {
            p.process_type
        }),
        applied(p, u, now).status == (if let Some(v) = u.status { v } else { p.status }),
        applied(p, u, now).due_date == (if let Some(v) = u.due_date { v } else { p.due_date }),
        applied(p, u, now).forwarding == (if let Some(v) = u.forwarding {
            v
        } else {
            p.forwarding
        }),
        applied(p, u, now).pending_actions == (if let Some(v) = u.pending_actions {
            v
        } else {
            p.pending_actions
        }),
        applied(p, u, now).summary == (if u.summary is Some { u.summary } else { p.summary }),
        applied(p, u, now).id == p.id,
        applied(p, u, now).created_at == p.created_at,
        applied(p, u, now).updated_at == now,
        text_le(p.updated_at@, now@) ==> text_le(p.updated_at@, applied(p, u, now).updated_at@),
        text_le(p.created_at@, p.updated_at@) && text_le(p.updated_at@, now@) ==> text_le(
            applied(p, u, now).created_at@,
            applied(p, u, now).updated_at@,
        ),
{
    if text_le(p.created_at@, p.updated_at@) && text_le(p.updated_at@, now@) {
        lemma_text_le_trans(p.created_at@, p.updated_at@, now@);
    }
}

proof fn lemma_without_id_clears(s: Seq<Process>, id: Seq<char>)
    ensures
        forall|i: int|
            0 <= i < without_id(s, id).len() ==> (#[trigger] without_id(s, id)[i]).id@ != id,
    decreases s.len(),
{
    if s.len() > 0 {
        lemma_without_id_clears(s.drop_last(), id);
    }
}

proof fn lemma_without_id_keeps(s: Seq<Process>, id: Seq<char>)
    requires
        forall|i: int| 0 <= i < s.len() ==> (#[trigger] s[i]).id@ != id,
    ensures
        without_id(s, id) == s,
    decreases s.len(),
{
    if s.len() > 0 {
        lemma_without_id_keeps(s.drop_last(), id);
        assert(s.drop_last().push(s.last()) =~= s);
    }
}

/// Deleting the same identifier twice: the second deletion changes
/// nothing, and after the first no record with that identifier is left.
pub proof fn lemma_delete_twice(s: Seq<Process>, id: Seq<char>)
    ensures
        without_id(without_id(s, id), id) == without_id(s, id),
        !id_taken(without_id(s, id), id),
{
    lemma_without_id_clears(s, id);
    lemma_without_id_keeps(without_id(s, id), id);
}

proof fn lemma_without_pair_clears(c: Seq<CompletedAction>, pid: Seq<char>, text: Seq<char>)
    ensures
        !has_pair(without_pair(c, pid, text), pid, text),
    decreases c.len(),
{
    if c.len() > 0 {
        lemma_without_pair_clears(c.drop_last(), pid, text);
        let w = without_pair(c, pid, text);
        let v = without_pair(c.drop_last(), pid, text);
        if !is_pair(c.last(), pid, text) {
            assert forall|i: int| 0 <= i < w.len() implies !((#[trigger] w[i]).process_id@ == pid
                && w[i].action_text@ == text) by {
                if i < v.len() {
                    assert(w[i] == v[i]);
                }
            }
        }
    }
}

proof fn lemma_unmarked_not_listed(c: Seq<CompletedAction>, pid: Seq<char>, text: Seq<char>)
    requires
        !has_pair(c, pid, text),
    ensures
        !actions_for(c, pid).contains(text),
    decreases c.len(),
{
    if c.len() > 0 {
        let d = c.drop_last();
        assert(!has_pair(d, pid, text)) by {
            if has_pair(d, pid, text) {
                let i = choose|i: int|
                    0 <= i < d.len() && (#[trigger] d[i]).process_id@ == pid && d[i].action_text@
                        == text;
                assert(c[i] == d[i]);
            }
        }
        lemma_unmarked_not_listed(d, pid, text);
        if c.last().process_id@ == pid {
            assert(c[c.len() - 1] == c.last());
            let a = actions_for(d, pid);
            assert forall|i: int| 0 <= i < a.push(c.last().action_text@).len() implies a.push(
                c.last().action_text@,
            )[i] != text by {
                if i < a.len() {
                    assert(a[i] != text);
                }
            }
        }
    }
}

/// Toggling an unmarked action twice: the first toggle reports it done
/// and its label is listed under its process; the second reports it not
/// done, and then no mark for it is left and its label is not listed.
pub proof fn lemma_toggle_twice(
    c: Seq<CompletedAction>,
    pid: String,
    text: String,
    id1: String,
    now1: String,
    id2: String,
    now2: String,
)
    requires
        !has_pair(c, pid@, text@),
    ensures
        has_pair(toggled(c, pid, text, id1, now1), pid@, text@),
        actions_for(toggled(c, pid, text, id1, now1), pid@).contains(text@),
        !has_pair(toggled(toggled(c, pid, text, id1, now1), pid, text, id2, now2), pid@, text@),
        !actions_for(
            toggled(toggled(c, pid, text, id1, now1), pid, text, id2, now2),
            pid@,
        ).contains(text@),
{
    let c1 = toggled(c, pid, text, id1, now1);
    assert(c1.drop_last() =~= c);
    assert(c1[c.len() as int].process_id@ == pid@);
    let a = actions_for(c1, pid@);
    assert(a[a.len() - 1] == text@);
    let c2 = toggled(c1, pid, text, id2, now2);
    lemma_without_pair_clears(c1, pid@, text@);
    lemma_unmarked_not_listed(c2, pid@, text@);
}

} // verus!
