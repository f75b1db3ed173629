use cru::index::{Index, NoteError};

#[test]
fn empty_index_has_no_notes_and_empty_text() {
    let index = Index::new();
    assert!(index.ids().is_empty());
    assert!(!index.contains("a"));
    assert_eq!(index.write(), "");
}

#[test]
fn load_reads_sections_in_file_order() {
    let index = Index::load("[b]\nmodified=t2\n[a]\nmodified=t1\n").unwrap();
    assert_eq!(index.ids(), vec!["b".to_string(), "a".to_string()]);
    assert!(index.contains("a"));
    assert!(index.contains("b"));
    assert!(!index.contains("c"));
    assert_eq!(index.get_modified("a"), Ok("t1".to_string()));
    assert_eq!(index.get_modified("b"), Ok("t2".to_string()));
}

#[test]
fn load_of_empty_text_is_the_empty_index() {
    let index = Index::load("").unwrap();
    assert!(index.ids().is_empty());
}

#[test]
fn load_rejects_an_unclosed_section_header() {
    assert!(matches!(Index::load("[broken\nmodified=t\n"), Err(NoteError::CorruptIndex)));
}

#[test]
fn load_rejects_an_empty_key() {
    assert!(matches!(Index::load("[a]\n=t\n"), Err(NoteError::CorruptIndex)));
}

#[test]
fn get_modified_of_a_missing_note_is_corrupt_index() {
    let index = Index::load("[a]\nmodified=t1\n").unwrap();
    assert_eq!(index.get_modified("zzz"), Err(NoteError::CorruptIndex));
}

#[test]
fn get_modified_without_a_time_is_corrupt_index() {
    let index = Index::load("[a]\nother=x\n[b]\nmodified\n").unwrap();
    assert!(index.contains("a"));
    assert_eq!(index.get_modified("a"), Err(NoteError::CorruptIndex));
    assert_eq!(index.get_modified("b"), Err(NoteError::CorruptIndex));
}

#[test]
fn set_inserts_at_the_end_and_overwrites_in_place() {
    let mut index = Index::new();
    index.set("a", "t1".to_string());
    index.set("b", "t2".to_string());
    index.set("a", "t3".to_string());
    assert_eq!(index.ids(), vec!["a".to_string(), "b".to_string()]);
    assert_eq!(index.get_modified("a"), Ok("t3".to_string()));
    assert_eq!(index.get_modified("b"), Ok("t2".to_string()));
}

#[test]
fn names_are_compared_as_written() {
    let mut index = Index::new();
    index.set("Shopping", "t1".to_string());
    assert!(index.contains("Shopping"));
    assert!(!index.contains("shopping"));
    assert_eq!(index.ids(), vec!["Shopping".to_string()]);
    assert_eq!(index.get_modified("shopping"), Err(NoteError::CorruptIndex));
}

#[test]
fn write_gives_one_section_per_note() {
    let mut index = Index::new();
    index.set("a", "t1".to_string());
    index.set("b", "t2".to_string());
    assert_eq!(index.write(), "[a]\nmodified=t1\n[b]\nmodified=t2\n");
}

#[test]
fn written_text_loads_back() {
    let mut index = Index::new();
    index.set("first note", "2024-05-01T10:00:00+00:00".to_string());
    index.set("second", "2024-05-02T11:30:00+00:00".to_string());
    let again = Index::load(&index.write()).unwrap();
    assert_eq!(again.ids(), vec!["first note".to_string(), "second".to_string()]);
    assert_eq!(again.get_modified("first note"), Ok("2024-05-01T10:00:00+00:00".to_string()));
    assert_eq!(again.get_modified("second"), Ok("2024-05-02T11:30:00+00:00".to_string()));
}

#[test]
fn conflicts_are_reported_and_corruption_is_fatal() {
    assert_eq!(NoteError::DuplicateNote.message(), "Note with such name already exists!");
    assert_eq!(NoteError::NoteNotFound.message(), "Note with such name doesn't exist!");
    assert_eq!(NoteError::CorruptIndex.message(), "Corrupted records file");
    assert!(!NoteError::DuplicateNote.is_fatal());
    assert!(!NoteError::NoteNotFound.is_fatal());
    assert!(NoteError::CorruptIndex.is_fatal());
    assert_eq!(NoteError::NoteUnavailable.message(), "Failed to open record");
    assert!(NoteError::NoteUnavailable.is_fatal());
}

#[test]
fn default_section_is_written_first_and_without_header() {
    let mut index = Index::new();
    index.set("a", "t1".to_string());
    index.set("default", "t2".to_string());
    assert_eq!(index.ids(), vec!["a".to_string(), "default".to_string()]);
    assert_eq!(index.write(), "modified=t2\n[a]\nmodified=t1\n");
    let again = Index::load(&index.write()).unwrap();
    assert_eq!(again.ids(), vec!["default".to_string(), "a".to_string()]);
    assert_eq!(again.get_modified("default"), Ok("t2".to_string()));
}

#[test]
fn key_without_value_is_written_alone() {
    let index = Index::load("[a]\nmodified\nempty=\n").unwrap();
    assert_eq!(index.write(), "[a]\nmodified\nempty=\n");
}
