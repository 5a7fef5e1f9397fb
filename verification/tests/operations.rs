use note_store::store::AppState;
use note_store::store::Event;

#[test]
fn create_then_list() {
    let mut s = AppState::init();
    let id = s.create_note("A".to_string(), "1".to_string()).unwrap();
    assert_eq!(id, 1);
    let notes = s.list_notes();
    assert_eq!(notes.len(), 1);
    assert_eq!(notes[0].id, 1);
    assert_eq!(notes[0].title, "A");
    assert_eq!(notes[0].content, "1");
}

#[test]
fn delete_then_get() {
    let mut s = AppState::init();
    s.create_note("A".to_string(), "1".to_string()).unwrap();
    s.create_note("B".to_string(), "2".to_string()).unwrap();
    s.delete_note(1).unwrap();
    let notes = s.list_notes();
    assert_eq!(notes.len(), 1);
    assert_eq!(notes[0].id, 2);
    assert_eq!(notes[0].title, "B");
    assert_eq!(notes[0].content, "2");
    let got = s.get_note(1);
    assert_eq!(got.unwrap_err(), "Note not found");
}

#[test]
fn update_title_only() {
    let mut s = AppState::init();
    s.create_note("A".to_string(), "1".to_string()).unwrap();
    s.update_note(1, Some("A2".to_string()), None).unwrap();
    let n = s.get_note(1).unwrap();
    assert_eq!(n.id, 1);
    assert_eq!(n.title, "A2");
    assert_eq!(n.content, "1");
}

#[test]
fn update_content_only() {
    let mut s = AppState::init();
    s.create_note("A".to_string(), "1".to_string()).unwrap();
    s.update_note(1, None, Some("1b".to_string())).unwrap();
    let n = s.get_note(1).unwrap();
    assert_eq!(n.id, 1);
    assert_eq!(n.title, "A");
    assert_eq!(n.content, "1b");
}

#[test]
fn update_with_neither_field_is_a_noop_that_still_notifies() {
    let mut s = AppState::init();
    s.create_note("A".to_string(), "1".to_string()).unwrap();
    let before = s.list_notes();
    s.update_note(1, None, None).unwrap();
    let after = s.list_notes();
    assert_eq!(after.len(), before.len());
    assert_eq!(after[0].id, before[0].id);
    assert_eq!(after[0].title, before[0].title);
    assert_eq!(after[0].content, before[0].content);
    assert_eq!(
        s.events,
        vec![Event::NoteCreated(1), Event::NoteUpdated(1)]
    );
}

#[test]
fn delete_on_empty_store() {
    let mut s = AppState::init();
    let r = s.delete_note(5);
    assert_eq!(r.unwrap_err(), "Note not found");
    assert!(s.list_notes().is_empty());
    assert!(s.events.is_empty());
}

#[test]
fn deleted_id_is_never_reassigned() {
    let mut s = AppState::init();
    s.create_note("A".to_string(), "1".to_string()).unwrap();
    s.create_note("B".to_string(), "2".to_string()).unwrap();
    s.create_note("C".to_string(), "3".to_string()).unwrap();
    s.delete_note(2).unwrap();
    let id = s.create_note("D".to_string(), "4".to_string()).unwrap();
    assert_eq!(id, 4);
    let ids: Vec<u64> = s.list_notes().iter().map(|n| n.id).collect();
    assert_eq!(ids, vec![1, 3, 4]);
}

#[test]
fn created_ids_count_up_from_one() {
    let mut s = AppState::init();
    let a = s.create_note("A".to_string(), "1".to_string()).unwrap();
    let b = s.create_note("B".to_string(), "2".to_string()).unwrap();
    let c = s.create_note("C".to_string(), "3".to_string()).unwrap();
    assert_eq!((a, b, c), (1, 2, 3));
}

#[test]
fn delete_is_terminal_for_its_id() {
    let mut s = AppState::init();
    s.create_note("A".to_string(), "1".to_string()).unwrap();
    s.delete_note(1).unwrap();
    assert_eq!(s.get_note(1).unwrap_err(), "Note not found");
    assert_eq!(
        s.update_note(1, Some("B".to_string()), None).unwrap_err(),
        "Note not found"
    );
    assert_eq!(s.delete_note(1).unwrap_err(), "Note not found");
}

#[test]
fn get_on_missing_id() {
    let mut s = AppState::init();
    s.create_note("A".to_string(), "1".to_string()).unwrap();
    let r = s.get_note(7);
    assert_eq!(r.unwrap_err(), "Note not found");
}

#[test]
fn update_on_missing_id_changes_nothing() {
    let mut s = AppState::init();
    s.create_note("A".to_string(), "1".to_string()).unwrap();
    let r = s.update_note(9, Some("X".to_string()), Some("Y".to_string()));
    assert_eq!(r.unwrap_err(), "Note not found");
    let n = s.get_note(1).unwrap();
    assert_eq!(n.title, "A");
    assert_eq!(n.content, "1");
    assert_eq!(s.events, vec![Event::NoteCreated(1)]);
}

#[test]
fn every_mutation_is_notified_in_order() {
    let mut s = AppState::init();
    s.create_note("A".to_string(), "1".to_string()).unwrap();
    s.create_note("B".to_string(), "2".to_string()).unwrap();
    s.update_note(2, None, Some("2b".to_string())).unwrap();
    s.delete_note(1).unwrap();
    assert_eq!(
        s.events,
        vec![
            Event::NoteCreated(1),
            Event::NoteCreated(2),
            Event::NoteUpdated(2),
            Event::NoteDeleted(1),
        ]
    );
}

#[test]
fn list_preserves_creation_order() {
    let mut s = AppState::init();
    s.create_note("C".to_string(), "c".to_string()).unwrap();
    s.create_note("A".to_string(), "a".to_string()).unwrap();
    s.create_note("B".to_string(), "b".to_string()).unwrap();
    s.delete_note(2).unwrap();
    s.create_note("D".to_string(), "d".to_string()).unwrap();
    let titles: Vec<String> = s.list_notes().iter().map(|n| n.title.clone()).collect();
    assert_eq!(titles, vec!["C", "B", "D"]);
    let ids: Vec<u64> = s.list_notes().iter().map(|n| n.id).collect();
    assert_eq!(ids, vec![1, 3, 4]);
}

#[test]
fn empty_title_and_content_are_allowed() {
    let mut s = AppState::init();
    let id = s.create_note(String::new(), String::new()).unwrap();
    assert_eq!(id, 1);
    let n = s.get_note(1).unwrap();
    assert_eq!(n.title, "");
    assert_eq!(n.content, "");
}

#[test]
fn ids_stay_unique_through_mixed_operations() {
    let mut s = AppState::init();
    for k in 0..5u32 {
        s.create_note(format!("T{}", k), format!("C{}", k)).unwrap();
    }
    s.delete_note(2).unwrap();
    s.delete_note(4).unwrap();
    s.create_note("X".to_string(), "x".to_string()).unwrap();
    let mut ids: Vec<u64> = s.list_notes().iter().map(|n| n.id).collect();
    let before = ids.len();
    ids.dedup();
    assert_eq!(ids.len(), before);
    assert_eq!(ids, vec![1, 3, 5, 6]);
}
