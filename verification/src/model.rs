//! The mathematical model of the store: ghost images of notes, notifications
//! and the whole store, the well-formedness predicate, and the transition
//! functions that the executable operations are specified against.

use vstd::prelude::*;

verus! {

/// Mathematical image of one note: its identifier and the character
/// sequences of its title and content.
#[verifier::ext_equal]
pub ghost struct NoteView {
    pub id: int,
    pub title: Seq<char>,
    pub content: Seq<char>,
}

/// Mathematical image of one raised notification, carrying the identifier of
/// the note it concerns.
pub ghost enum EventView {
    Created { id: int },
    Updated { id: int },
    Deleted { id: int },
}

/// Mathematical image of the whole store: the active notes in creation
/// order, the identifier the next created note will receive, and the log of
/// notifications raised so far.
#[verifier::ext_equal]
pub ghost struct StoreView {
    pub notes: Seq<NoteView>,
    pub next_id: int,
    pub events: Seq<EventView>,
}

impl StoreView {
    /// Some active note carries the identifier `id`.
    pub open spec fn has_note(self, id: int) -> bool {
        exists|i: int| 0 <= i < self.notes.len() && self.notes[i].id == id
    }

    /// The position of the active note with identifier `id`; under `wf` and
    /// `has_note` it is the unique such position.
    pub open spec fn index_of(self, id: int) -> int {
        choose|i: int| 0 <= i < self.notes.len() && self.notes[i].id == id
    }

    /// The active note with identifier `id`.
    pub open spec fn note_at(self, id: int) -> NoteView {
        self.notes[self.index_of(id)]
    }

    /// Identifiers strictly increase along the sequence; since notes are
    /// appended in creation order, this is creation order.
    pub open spec fn ids_increasing(self) -> bool {
        forall|i: int, j: int|
            0 <= i < j < self.notes.len() ==> self.notes[i].id < self.notes[j].id
    }

    /// No two active notes share an identifier.
    pub open spec fn ids_unique(self) -> bool {
        forall|i: int, j: int|
            0 <= i < j < self.notes.len() ==> self.notes[i].id != self.notes[j].id
    }

    /// Well-formedness: identifiers are positive, below `next_id`, and
    /// strictly increasing along the sequence; `next_id` is at least 1.
    pub open spec fn wf(self) -> bool {
        &&& 1 <= self.next_id
        &&& forall|i: int|
            0 <= i < self.notes.len() ==> 0 < #[trigger] self.notes[i].id < self.next_id
        &&& self.ids_increasing()
    }
}

/// The freshly initialized store: no notes, no notifications, and 1 as the
/// first identifier to assign (0 is never a valid identifier).
pub open spec fn init_state() -> StoreView {
    StoreView { notes: Seq::empty(), next_id: 1, events: Seq::empty() }
}

/// The identifier a create operation on `s` assigns.
pub open spec fn created_id(s: StoreView) -> int {
    s.next_id
}

/// The store after a create: the new note, carrying `next_id`, is appended
/// at the end, a created notification is raised, and `next_id` advances.
pub open spec fn create_state(s: StoreView, title: Seq<char>, content: Seq<char>) -> StoreView {
    StoreView {
        notes: s.notes.push(NoteView { id: s.next_id, title: title, content: content }),
        next_id: s.next_id + 1,
        events: s.events.push(EventView::Created { id: s.next_id }),
    }
}

/// The note `n` after an update: each field is replaced exactly when the
/// corresponding argument is present; the identifier never changes.
pub open spec fn updated_note(
    n: NoteView,
    new_title: Option<Seq<char>>,
    new_content: Option<Seq<char>>,
) -> NoteView {
    NoteView {
        id: n.id,
        title: match new_title {
            Some(t) => t,
            None => n.title,
        },
        content: match new_content {
            Some(c) => c,
            None => n.content,
        },
    }
}

/// The store after a successful update of the note with identifier `id`:
/// that note is replaced in place and an updated notification is raised.
/// Meaningful only when `s.has_note(id)`.
pub open spec fn update_state(
    s: StoreView,
    id: int,
    new_title: Option<Seq<char>>,
    new_content: Option<Seq<char>>,
) -> StoreView {
    StoreView {
        notes: s.notes.update(s.index_of(id), updated_note(s.note_at(id), new_title, new_content)),
        next_id: s.next_id,
        events: s.events.push(EventView::Updated { id: id }),
    }
}

/// The store after a successful delete of the note with identifier `id`:
/// that note is removed, a deleted notification is raised, and `next_id` is
/// kept, so the identifier is retired forever. Meaningful only when
/// `s.has_note(id)`.
pub open spec fn delete_state(s: StoreView, id: int) -> StoreView {
    StoreView {
        notes: s.notes.remove(s.index_of(id)),
        next_id: s.next_id,
        events: s.events.push(EventView::Deleted { id: id }),
    }
}

/// Under well-formedness a position holding `id` is the one `index_of`
/// picks, and `has_note(id)` holds.
pub proof fn lemma_index_unique(s: StoreView, id: int, i: int)
    requires
        s.wf(),
        0 <= i < s.notes.len(),
        s.notes[i].id == id,
    ensures
        s.has_note(id),
        s.index_of(id) == i,
{
    assert(s.has_note(id));
    let k = s.index_of(id);
    assert(0 <= k < s.notes.len() && s.notes[k].id == id);
    if k < i {
        assert(s.notes[k].id < s.notes[i].id);
    } else if i < k {
        assert(s.notes[i].id < s.notes[k].id);
    }
}

} // verus!
