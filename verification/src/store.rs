//! The executable store: note records, notification values, and the
//! `AppState` aggregate with its create/read/update/delete operations. Each
//! operation is specified against the transition functions of `crate::model`.

use vstd::prelude::*;

use crate::model::create_state;
use crate::model::created_id;
use crate::model::delete_state;
use crate::model::init_state;
use crate::model::update_state;
use crate::model::EventView;
use crate::model::NoteView;
use crate::model::StoreView;

verus! {

/// A note record: a permanent unique identifier and two text fields.
#[derive(Debug)]
pub struct Note {
    pub id: u64,
    pub title: String,
    pub content: String,
}

impl View for Note {
    type V = NoteView;

    open spec fn view(&self) -> NoteView {
        NoteView { id: self.id as int, title: self.title@, content: self.content@ }
    }
}

impl Clone for Note {
    /// The copy carries the same identifier, title and content.
    fn clone(&self) -> (r: Self)
        ensures
            r == *self,
    {
        Note { id: self.id, title: self.title.clone(), content: self.content.clone() }
    }
}

/// A notification raised on every mutation, carrying the identifier of the
/// affected note. The host drains these from the store's log.
#[derive(Clone, Copy, PartialEq, Eq, Structural, Debug)]
pub enum Event {
    NoteCreated(u64),
    NoteUpdated(u64),
    NoteDeleted(u64),
}

impl View for Event {
    type V = EventView;

    open spec fn view(&self) -> EventView {
        match *self {
            Event::NoteCreated(id) => EventView::Created { id: id as int },
            Event::NoteUpdated(id) => EventView::Updated { id: id as int },
            Event::NoteDeleted(id) => EventView::Deleted { id: id as int },
        }
    }
}

/// The aggregate root: the active notes in creation order, the identifier
/// the next created note will receive, and the log of notifications raised
/// so far.
pub struct AppState {
    pub notes: Vec<Note>,
    pub next_id: u64,
    pub events: Vec<Event>,
}

impl View for AppState {
    type V = StoreView;

    open spec fn view(&self) -> StoreView {
        StoreView {
            notes: self.notes@.map_values(|n: Note| n@),
            next_id: self.next_id as int,
            events: self.events@.map_values(|e: Event| e@),
        }
    }
}

/// The message every failed lookup reports.
pub open spec fn not_found_message() -> Seq<char> {
    "Note not found"@
}

impl AppState {
    /// The empty store: no notes, no notifications, and 1 as the first
    /// identifier to assign.
    pub fn init() -> (s: AppState)
        ensures
            s@ == init_state(),
            s@.wf(),
    {
        let s = AppState { notes: Vec::new(), next_id: 1, events: Vec::new() };
        proof {
            assert(s@ =~~= init_state());
        }
        s
    }

    /// Creates a note with the given title and content, appends it at the
    /// end, raises a created notification, advances `next_id`, and returns
    /// the assigned identifier. Never fails.
    pub fn create_note(&mut self, title: String, content: String) -> (r: Result<u64, String>)
        requires
            old(self)@.wf(),
            old(self)@.next_id < u64::MAX,
        ensures
            final(self)@ == create_state(old(self)@, title@, content@),
            final(self)@.wf(),
            r == Ok::<u64, String>(old(self).next_id),
            r matches Ok(id) ==> id == created_id(old(self)@),
    {
        let id = self.next_id;
        let note = Note { id: id, title: title, content: content };
        self.notes.push(note);
        self.events.push(Event::NoteCreated(id));
        self.next_id = id + 1;
        proof {
            assert(self@.notes =~~= create_state(old(self)@, title@, content@).notes);
            assert(self@.events =~~= create_state(old(self)@, title@, content@).events);
            assert(self@ =~~= create_state(old(self)@, title@, content@));
        }
        Ok(id)
    }

    /// The position of the note carrying `note_id`, if any: the private
    /// search that `get_note`, `update_note` and `delete_note` share.
    fn find_index(&self, note_id: u64) -> (r: Option<usize>)
        ensures
            (match r {
                Some(i) => i < self.notes.len() && self.notes@[i as int].id == note_id,
                None => forall|j: int|
                    0 <= j < self.notes@.len() ==> self.notes@[j].id != note_id,
            }),
    {
        let mut i: usize = 0;
        while i < self.notes.len()
            invariant
                i <= self.notes.len(),
                forall|j: int| 0 <= j < i ==> self.notes@[j].id != note_id,
            decreases self.notes.len() - i,
        {
            if self.notes[i].id == note_id {
                return Some(i);
            }
            i = i + 1;
        }
        None
    }

    /// Returns a copy of all notes in creation order. Never fails.
    pub fn list_notes(&self) -> (r: Vec<Note>)
        ensures
            r@.map_values(|n: Note| n@) == self@.notes,
    {
        let mut out: Vec<Note> = Vec::new();
        let mut i: usize = 0;
        while i < self.notes.len()
            invariant
                i <= self.notes.len(),
                out@.len() == i,
                forall|j: int| 0 <= j < i ==> out@[j] == self.notes@[j],
            decreases self.notes.len() - i,
        {
            out.push(self.notes[i].clone());
            i = i + 1;
        }
        proof {
            assert(out@.map_values(|n: Note| n@) =~~= self@.notes);
        }
        out
    }

    /// Returns a copy of the note carrying `note_id`, or reports that no
    /// note carries it.
    pub fn get_note(&self, note_id: u64) -> (r: Result<Note, String>)
        requires
            self@.wf(),
        ensures
            r is Ok <==> self@.has_note(note_id as int),
            r matches Ok(n) ==> n@ == self@.note_at(note_id as int),
            r matches Err(m) ==> m@ == not_found_message(),
    {
        match self.find_index(note_id) {
            Some(i) => {
                proof {
                    crate::model::lemma_index_unique(self@, note_id as int, i as int);
                }
                Ok(self.notes[i].clone())
            },
            None => Err("Note not found".to_owned()),
        }
    }

    /// Replaces the title and/or content of the note carrying `note_id`:
    /// each field is replaced exactly when the corresponding argument is
    /// present, so supplying neither is a legal no-op that still raises an
    /// updated notification. Reports a failure, and changes nothing, when no
    /// note carries `note_id`.
    pub fn update_note(
        &mut self,
        note_id: u64,
        new_title: Option<String>,
        new_content: Option<String>,
    ) -> (r: Result<(), String>)
        requires
            old(self)@.wf(),
        ensures
            r is Ok <==> old(self)@.has_note(note_id as int),
            r is Ok ==> final(self)@ == update_state(
                old(self)@,
                note_id as int,
                opt_text(new_title),
                opt_text(new_content),
            ),
            r matches Err(m) ==> m@ == not_found_message() && *final(self) == *old(self),
            final(self)@.wf(),
    {
        match self.find_index(note_id) {
            Some(i) => {
                proof {
                    crate::model::lemma_index_unique(old(self)@, note_id as int, i as int);
                }
                let current = self.notes.remove(i);
                let replacement = Note {
                    id: current.id,
                    title: (match new_title {
                        Some(t) => t,
                        None => current.title,
                    }),
                    content: (match new_content {
                        Some(c) => c,
                        None => current.content,
                    }),
                };
                self.notes.insert(i, replacement);
                self.events.push(Event::NoteUpdated(note_id));
                proof {
                    let target = update_state(
                        old(self)@,
                        note_id as int,
                        opt_text(new_title),
                        opt_text(new_content),
                    );
                    assert(self@.notes =~~= target.notes);
                    assert(self@.events =~~= target.events);
                    assert(self@ =~~= target);
                }
                Ok(())
            },
            None => Err("Note not found".to_owned()),
        }
    }

    /// Removes the note carrying `note_id` and raises a deleted
    /// notification; `next_id` is kept, so the identifier is never assigned
    /// again. Reports a failure, and changes nothing, when no note carries
    /// `note_id`.
    pub fn delete_note(&mut self, note_id: u64) -> (r: Result<(), String>)
        requires
            old(self)@.wf(),
        ensures
            r is Ok <==> old(self)@.has_note(note_id as int),
            r is Ok ==> final(self)@ == delete_state(old(self)@, note_id as int),
            r matches Err(m) ==> m@ == not_found_message() && *final(self) == *old(self),
            final(self)@.wf(),
    {
        match self.find_index(note_id) {
            Some(i) => {
                proof {
                    crate::model::lemma_index_unique(old(self)@, note_id as int, i as int);
                }
                self.notes.remove(i);
                self.events.push(Event::NoteDeleted(note_id));
                proof {
                    let target = delete_state(old(self)@, note_id as int);
                    assert(self@.notes =~~= target.notes);
                    assert(self@.events =~~= target.events);
                    assert(self@ =~~= target);
                }
                Ok(())
            },
            None => Err("Note not found".to_owned()),
        }
    }
}

/// The image of an optional text argument: the character sequence of the
/// text, when it is present.
pub open spec fn opt_text(o: Option<String>) -> Option<Seq<char>> {
    match o {
        Some(s) => Some(s@),
        None => None,
    }
}

} // verus!
