use cru::index::{Index, NoteError};
use cru::notes::{
    edit_note, edit_note_at, ls_notes, new_note, new_note_at, render_row, show_note, Note,
    NotePlan, Step,
};

fn ids_of(rows: Vec<(String, String)>) -> Vec<String> {
    rows.into_iter().map(|row| row.1).collect()
}

#[test]
fn created_note_is_in_the_index_and_names_the_commit() {
    let mut index = Index::new();
    let plan = new_note_at(&mut index, Some("groceries"), "2024-05-01T10:00:00+00:00").unwrap();
    assert!(index.contains("groceries"));
    assert_eq!(index.get_modified("groceries"), Ok("2024-05-01T10:00:00+00:00".to_string()));
    assert_eq!(
        plan,
        NotePlan {
            steps: vec![Step::WriteRecords, Step::CreateNote, Step::EditNote, Step::Commit],
            id: "groceries".to_string(),
            modified: "2024-05-01T10:00:00+00:00".to_string(),
            records: "[groceries]\nmodified=2024-05-01T10:00:00+00:00\n".to_string(),
            message: "groceries".to_string(),
        }
    );
}

#[test]
fn note_without_a_name_is_named_after_the_time() {
    let mut index = Index::new();
    let plan = new_note_at(&mut index, None, "2024-05-01T10:00:00+00:00").unwrap();
    assert_eq!(plan.id, "2024-05-01T10:00:00+00:00");
    assert_eq!(plan.message, "2024-05-01T10:00:00+00:00");
    assert!(index.contains("2024-05-01T10:00:00+00:00"));
}

#[test]
fn creating_twice_reports_a_duplicate_and_changes_nothing() {
    let mut index = Index::new();
    new_note_at(&mut index, Some("a"), "t1").unwrap();
    let before = index.write();
    assert_eq!(new_note_at(&mut index, Some("a"), "t2"), Err(NoteError::DuplicateNote));
    assert_eq!(index.write(), before);
    assert_eq!(index.get_modified("a"), Ok("t1".to_string()));
    assert_eq!(index.ids(), vec!["a".to_string()]);
}

#[test]
fn nameless_note_at_a_taken_time_is_a_duplicate() {
    let mut index = Index::new();
    new_note_at(&mut index, None, "t1").unwrap();
    assert_eq!(new_note_at(&mut index, None, "t1"), Err(NoteError::DuplicateNote));
}

#[test]
fn editing_a_missing_note_reports_not_found_and_changes_nothing() {
    let mut index = Index::new();
    new_note_at(&mut index, Some("a"), "t1").unwrap();
    let before = index.write();
    assert_eq!(edit_note_at(&mut index, "b", "t2"), Err(NoteError::NoteNotFound));
    assert_eq!(index.write(), before);
    assert!(!index.contains("b"));
}

#[test]
fn editing_replaces_the_time_and_keeps_the_order() {
    let mut index = Index::new();
    new_note_at(&mut index, Some("a"), "t1").unwrap();
    new_note_at(&mut index, Some("b"), "t2").unwrap();
    let plan = edit_note_at(&mut index, "a", "t3").unwrap();
    assert_eq!(
        plan,
        NotePlan {
            steps: vec![Step::EditNote, Step::WriteRecords, Step::Commit],
            id: "a".to_string(),
            modified: "t3".to_string(),
            records: "[a]\nmodified=t3\n[b]\nmodified=t2\n".to_string(),
            message: "a".to_string(),
        }
    );
    assert_eq!(index.ids(), vec!["a".to_string(), "b".to_string()]);
    assert_eq!(index.get_modified("b"), Ok("t2".to_string()));
}

#[test]
fn listing_follows_the_order_of_creation() {
    let mut index = Index::new();
    new_note_at(&mut index, Some("a"), "t1").unwrap();
    new_note_at(&mut index, Some("b"), "t2").unwrap();
    new_note_at(&mut index, Some("c"), "t3").unwrap();
    let rows = ls_notes(&index).unwrap();
    assert_eq!(
        rows,
        vec![
            ("t1".to_string(), "a".to_string()),
            ("t2".to_string(), "b".to_string()),
            ("t3".to_string(), "c".to_string()),
        ]
    );
    assert_eq!(ids_of(rows), vec!["a".to_string(), "b".to_string(), "c".to_string()]);
}

#[test]
fn listing_survives_the_file() {
    let mut index = Index::new();
    new_note_at(&mut index, Some("c"), "t1").unwrap();
    new_note_at(&mut index, Some("a"), "t2").unwrap();
    let plan = new_note_at(&mut index, Some("b"), "t3").unwrap();
    let again = Index::load(&plan.records).unwrap();
    assert_eq!(
        ids_of(ls_notes(&again).unwrap()),
        vec!["c".to_string(), "a".to_string(), "b".to_string()]
    );
}

#[test]
fn listing_of_the_empty_index_is_empty() {
    assert_eq!(ls_notes(&Index::new()), Ok(vec![]));
}

#[test]
fn listing_a_note_without_a_time_is_corrupt_index() {
    let index = Index::load("[a]\nmodified=t1\n[b]\n").unwrap();
    assert_eq!(ls_notes(&index), Err(NoteError::CorruptIndex));
}

#[test]
fn shown_note_has_name_time_and_content() {
    let mut index = Index::new();
    new_note_at(&mut index, Some("greeting"), "2024-05-01T10:00:00+00:00").unwrap();
    let note = show_note(&index, "greeting", Some("hello".to_string())).unwrap();
    assert_eq!(
        note,
        Note {
            id: "greeting".to_string(),
            modified: "2024-05-01T10:00:00+00:00".to_string(),
            content: "hello".to_string(),
        }
    );
    assert_eq!(
        note.render(),
        "\u{1b}[1;31mgreeting\u{1b}[0m\n\u{1b}[1;34m2024-05-01T10:00:00+00:00\u{1b}[0m\n\nhello"
    );
}

#[test]
fn showing_a_missing_note_reports_not_found() {
    let index = Index::load("[a]\nmodified=t1\n").unwrap();
    assert_eq!(show_note(&index, "b", Some("x".to_string())), Err(NoteError::NoteNotFound));
    assert_eq!(show_note(&index, "b", None), Err(NoteError::NoteNotFound));
}

#[test]
fn showing_a_note_whose_file_cannot_be_read_reports_it() {
    let index = Index::load("[a]\nmodified=t1\n[b]\n").unwrap();
    assert_eq!(show_note(&index, "a", None), Err(NoteError::NoteUnavailable));
    assert_eq!(show_note(&index, "b", None), Err(NoteError::NoteUnavailable));
}

#[test]
fn note_with_an_empty_file_is_shown_empty() {
    let mut index = Index::new();
    let plan = new_note_at(&mut index, Some("blank"), "t1").unwrap();
    let created = plan.steps.iter().position(|step| *step == Step::CreateNote).unwrap();
    let edited = plan.steps.iter().position(|step| *step == Step::EditNote).unwrap();
    assert!(created < edited);
    let note = show_note(&index, "blank", Some(String::new())).unwrap();
    assert_eq!(note.content, "");
    assert_eq!(note.render(), "\u{1b}[1;31mblank\u{1b}[0m\n\u{1b}[1;34mt1\u{1b}[0m\n\n");
}

#[test]
fn showing_a_note_without_a_time_is_corrupt_index() {
    let index = Index::load("[a]\n").unwrap();
    assert_eq!(show_note(&index, "a", Some("x".to_string())), Err(NoteError::CorruptIndex));
}

#[test]
fn row_is_time_then_name() {
    assert_eq!(render_row("t1", "a"), "\u{1b}[1;34mt1\u{1b}[0m   \u{1b}[1;31ma\u{1b}[0m");
}

#[test]
fn new_note_files_the_current_time() {
    let mut index = Index::new();
    let plan = new_note(&mut index, Some("a")).unwrap();
    assert_eq!(plan.id, "a");
    assert_eq!(plan.message, "a");
    assert!(plan.modified.ends_with("+00:00"));
    assert!(plan.modified.contains('T'));
    assert_eq!(index.get_modified("a"), Ok(plan.modified.clone()));
    assert_eq!(plan.records, format!("[a]\nmodified={}\n", plan.modified));
    assert_eq!(new_note(&mut index, Some("a")), Err(NoteError::DuplicateNote));
}

#[test]
fn new_note_without_a_name_uses_the_current_time() {
    let mut index = Index::new();
    let plan = new_note(&mut index, None).unwrap();
    assert_eq!(plan.id, plan.modified);
    assert!(index.contains(&plan.id));
}

#[test]
fn edit_note_files_the_current_time() {
    let mut index = Index::new();
    new_note_at(&mut index, Some("a"), "t1").unwrap();
    let plan = edit_note(&mut index, "a").unwrap();
    assert_eq!(plan.id, "a");
    assert!(plan.modified.ends_with("+00:00"));
    assert_eq!(index.get_modified("a"), Ok(plan.modified));
    assert_eq!(edit_note(&mut index, "b"), Err(NoteError::NoteNotFound));
}
