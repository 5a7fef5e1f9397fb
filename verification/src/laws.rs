//! Store-wide laws: a ghost trace of operations, its interpreter over the
//! transition functions of `crate::model`, and proofs that identifier
//! uniqueness, monotonic numbering, the retirement of deleted identifiers,
//! update partiality and delete terminality hold over every such trace.

use vstd::prelude::*;

use crate::model::create_state;
use crate::model::created_id;
use crate::model::delete_state;
use crate::model::init_state;
use crate::model::update_state;
use crate::model::updated_note;
use crate::model::EventView;
use crate::model::StoreView;

verus! {

/// One request made against the store. Failed update and delete requests
/// leave the store unchanged, which `step` reflects.
pub ghost enum Op {
    Create { title: Seq<char>, content: Seq<char> },
    Update { id: int, new_title: Option<Seq<char>>, new_content: Option<Seq<char>> },
    Delete { id: int },
}

/// The store after one request: exactly the transition each executable
/// operation is specified against, with a failed update or delete (an
/// identifier no active note carries) changing nothing.
pub open spec fn step(s: StoreView, op: Op) -> StoreView {
    match op {
        Op::Create { title, content } => create_state(s, title, content),
        Op::Update { id, new_title, new_content } => if s.has_note(id) {
            update_state(s, id, new_title, new_content)
        } else {
            s
        },
        Op::Delete { id } => if s.has_note(id) {
            delete_state(s, id)
        } else {
            s
        },
    }
}

/// The store after a whole sequence of requests, applied in order.
pub open spec fn run(s: StoreView, ops: Seq<Op>) -> StoreView
    decreases ops.len(),
{
    if ops.len() == 0 {
        s
    } else {
        run(step(s, ops[0]), ops.drop_first())
    }
}

/// Every single request preserves well-formedness.
pub proof fn lemma_step_preserves_wf(s: StoreView, op: Op)
    requires
        s.wf(),
    ensures
        step(s, op).wf(),
{
    match op {
        Op::Create { title, content } => {
            let s2 = create_state(s, title, content);
            assert forall|i: int, j: int|
                0 <= i < j < s2.notes.len() implies s2.notes[i].id < s2.notes[j].id by {
                if j < s2.notes.len() - 1 {
                    assert(s.notes[i].id < s.notes[j].id);
                }
            }
        },
        Op::Update { id, new_title, new_content } => {
            if s.has_note(id) {
                let k = s.index_of(id);
                assert(0 <= k < s.notes.len() && s.notes[k].id == id);
                let s2 = update_state(s, id, new_title, new_content);
                assert(forall|i: int|
                    0 <= i < s2.notes.len() ==> s2.notes[i].id == s.notes[i].id);
            }
        },
        Op::Delete { id } => {
            if s.has_note(id) {
                let k = s.index_of(id);
                assert(0 <= k < s.notes.len() && s.notes[k].id == id);
                let s2 = delete_state(s, id);
                assert forall|i: int, j: int|
                    0 <= i < j < s2.notes.len() implies s2.notes[i].id < s2.notes[j].id by {
                    let i0: int = if i < k { i } else { i + 1 };
                    let j0: int = if j < k { j } else { j + 1 };
                    assert(s2.notes[i] == s.notes[i0]);
                    assert(s2.notes[j] == s.notes[j0]);
                }
            }
        },
    }
}

/// Every sequence of requests preserves well-formedness.
pub proof fn lemma_run_preserves_wf(s: StoreView, ops: Seq<Op>)
    requires
        s.wf(),
    ensures
        run(s, ops).wf(),
    decreases ops.len(),
{
    if ops.len() > 0 {
        lemma_step_preserves_wf(s, ops[0]);
        lemma_run_preserves_wf(step(s, ops[0]), ops.drop_first());
    }
}

/// Identifier uniqueness: starting from the freshly initialized store, after
/// any sequence of requests no two active notes share an identifier (and the
/// active notes stand in creation order).
pub proof fn lemma_identifier_uniqueness(ops: Seq<Op>)
    ensures
        run(init_state(), ops).wf(),
        run(init_state(), ops).ids_unique(),
{
    lemma_run_preserves_wf(init_state(), ops);
}

/// No request ever lowers `next_id`.
pub proof fn lemma_step_next_id_monotone(s: StoreView, op: Op)
    ensures
        s.next_id <= step(s, op).next_id,
{
}

/// No sequence of requests ever lowers `next_id`.
pub proof fn lemma_run_next_id_monotone(s: StoreView, ops: Seq<Op>)
    ensures
        s.next_id <= run(s, ops).next_id,
    decreases ops.len(),
{
    if ops.len() > 0 {
        lemma_step_next_id_monotone(s, ops[0]);
        lemma_run_next_id_monotone(step(s, ops[0]), ops.drop_first());
    }
}

/// No identifier reuse: once a delete of `id` succeeds, every identifier
/// that create requests are assigned along any continuation is strictly
/// larger than `id`, so `id` never returns.
pub proof fn lemma_no_id_reuse(s: StoreView, id: int, ops: Seq<Op>)
    requires
        s.wf(),
        s.has_note(id),
    ensures
        created_id(run(delete_state(s, id), ops)) > id,
        forall|k: int|
            0 <= k < created_ids(delete_state(s, id), ops).len() ==> #[trigger] created_ids(
                delete_state(s, id),
                ops,
            )[k] > id,
{
    let k = s.index_of(id);
    assert(0 <= k < s.notes.len() && s.notes[k].id == id);
    assert(id < s.next_id);
    lemma_run_next_id_monotone(delete_state(s, id), ops);
    lemma_created_ids_lower_bound(delete_state(s, id), ops);
}

/// The identifiers that the create requests of a run are assigned, in call
/// order.
pub open spec fn created_ids(s: StoreView, ops: Seq<Op>) -> Seq<int>
    decreases ops.len(),
{
    if ops.len() == 0 {
        Seq::empty()
    } else {
        let rest = created_ids(step(s, ops[0]), ops.drop_first());
        if ops[0] is Create {
            seq![created_id(s)] + rest
        } else {
            rest
        }
    }
}

/// Every identifier a run assigns is at least the `next_id` the run started
/// from.
pub proof fn lemma_created_ids_lower_bound(s: StoreView, ops: Seq<Op>)
    ensures
        forall|k: int|
            0 <= k < created_ids(s, ops).len() ==> #[trigger] created_ids(s, ops)[k] >= s.next_id,
    decreases ops.len(),
{
    if ops.len() > 0 {
        let s2 = step(s, ops[0]);
        let rest = created_ids(s2, ops.drop_first());
        lemma_step_next_id_monotone(s, ops[0]);
        lemma_created_ids_lower_bound(s2, ops.drop_first());
        if ops[0] is Create {
            assert forall|k: int|
                0 <= k < created_ids(s, ops).len() implies #[trigger] created_ids(s, ops)[k]
                >= s.next_id by {
                if k > 0 {
                    assert(created_ids(s, ops)[k] == rest[k - 1]);
                }
            }
        } else {
            assert forall|k: int|
                0 <= k < created_ids(s, ops).len() implies #[trigger] created_ids(s, ops)[k]
                >= s.next_id by {
                assert(created_ids(s, ops)[k] == rest[k]);
            }
        }
    }
}

/// Identifier monotonicity, first half: over any run the assigned
/// identifiers strictly increase in call order.
pub proof fn lemma_created_ids_increasing(s: StoreView, ops: Seq<Op>)
    ensures
        forall|i: int, j: int|
            0 <= i < j < created_ids(s, ops).len() ==> #[trigger] created_ids(s, ops)[i]
                < #[trigger] created_ids(s, ops)[j],
    decreases ops.len(),
{
    if ops.len() > 0 {
        let s2 = step(s, ops[0]);
        let rest = created_ids(s2, ops.drop_first());
        lemma_created_ids_increasing(s2, ops.drop_first());
        lemma_created_ids_lower_bound(s2, ops.drop_first());
        if ops[0] is Create {
            assert(s2.next_id == s.next_id + 1);
            assert(forall|k: int| 0 <= k < rest.len() ==> #[trigger] rest[k] > s.next_id);
        }
    }
}

/// Identifier monotonicity, second half: a run of creates alone assigns
/// exactly `next_id`, `next_id + 1`, …, in call order; from the freshly
/// initialized store that is exactly 1, 2, …, N.
pub proof fn lemma_created_ids_numbering(s: StoreView, ops: Seq<Op>)
    requires
        forall|k: int| 0 <= k < ops.len() ==> ops[k] is Create,
    ensures
        created_ids(s, ops) == Seq::new(ops.len(), |k: int| s.next_id + k),
    decreases ops.len(),
{
    if ops.len() == 0 {
        assert(created_ids(s, ops) =~= Seq::new(ops.len(), |k: int| s.next_id + k));
    } else {
        assert(ops[0] is Create);
        let s2 = step(s, ops[0]);
        lemma_created_ids_numbering(s2, ops.drop_first());
        assert(created_ids(s, ops) =~= Seq::new(ops.len(), |k: int| s.next_id + k));
    }
}

/// Identifier monotonicity at the start of a store's life: from the freshly
/// initialized store, N create requests are assigned exactly the
/// identifiers 1, 2, …, N in call order.
pub proof fn lemma_initial_numbering(ops: Seq<Op>)
    requires
        forall|k: int| 0 <= k < ops.len() ==> ops[k] is Create,
    ensures
        created_ids(init_state(), ops) == Seq::new(ops.len(), |k: int| 1 + k),
{
    lemma_created_ids_numbering(init_state(), ops);
    assert(Seq::new(ops.len(), |k: int| init_state().next_id + k) =~= Seq::new(
        ops.len(),
        |k: int| 1 + k,
    ));
}

/// Update partiality: a successful update keeps the length and every
/// identifier; a note's title survives when no new title is supplied, its
/// content survives when no new content is supplied; and exactly one
/// updated notification is appended. With neither field supplied the notes
/// are exactly as before.
pub proof fn lemma_update_partiality(
    s: StoreView,
    id: int,
    new_title: Option<Seq<char>>,
    new_content: Option<Seq<char>>,
)
    requires
        s.wf(),
        s.has_note(id),
    ensures
        update_state(s, id, new_title, new_content).notes.len() == s.notes.len(),
        forall|i: int|
            0 <= i < s.notes.len() ==> #[trigger] update_state(
                s,
                id,
                new_title,
                new_content,
            ).notes[i].id == s.notes[i].id,
        new_title is None ==> forall|i: int|
            0 <= i < s.notes.len() ==> #[trigger] update_state(
                s,
                id,
                new_title,
                new_content,
            ).notes[i].title == s.notes[i].title,
        new_content is None ==> forall|i: int|
            0 <= i < s.notes.len() ==> #[trigger] update_state(
                s,
                id,
                new_title,
                new_content,
            ).notes[i].content == s.notes[i].content,
        new_title is None && new_content is None ==> update_state(
            s,
            id,
            new_title,
            new_content,
        ).notes == s.notes,
        update_state(s, id, new_title, new_content).events == s.events.push(
            EventView::Updated { id: id },
        ),
        update_state(s, id, new_title, new_content).next_id == s.next_id,
{
    let k = s.index_of(id);
    assert(0 <= k < s.notes.len() && s.notes[k].id == id);
    if new_title is None && new_content is None {
        assert(updated_note(s.note_at(id), new_title, new_content) =~= s.notes[k]);
        assert(update_state(s, id, new_title, new_content).notes =~= s.notes);
    }
}

/// Delete terminality: after a successful delete of `id` no active note
/// carries `id` any more, so by the operations' contracts a following get,
/// update or delete of `id` is refused.
pub proof fn lemma_delete_terminality(s: StoreView, id: int)
    requires
        s.wf(),
        s.has_note(id),
    ensures
        !delete_state(s, id).has_note(id),
{
    let k = s.index_of(id);
    assert(0 <= k < s.notes.len() && s.notes[k].id == id);
    let s2 = delete_state(s, id);
    assert forall|i: int| 0 <= i < s2.notes.len() implies s2.notes[i].id != id by {
        let i0: int = if i < k { i } else { i + 1 };
        assert(s2.notes[i] == s.notes[i0]);
        if i0 != k {
            assert(s.notes[i0].id != s.notes[k].id);
        }
    }
}

} // verus!
