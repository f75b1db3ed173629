//! The operations on notes. Each one decides from the catalogue what is to
//! happen and leaves the files, the editor and the repository to the caller,
//! whom it hands a plan.

use vstd::prelude::*;
use vstd::string::*;
use crate::clock::timestamp_now;
use crate::index::{modified_key, Index, NoteError};
use crate::model::{
    carriage_return_line_feed, default_section, document_text, entry_text, header_text, holds,
    keys, lemma_new_section_appends_text, line_feed,
    lemma_stored_elsewhere, lemma_stored_is_found, lemma_stored_order,
    lemma_with_value_well_keyed, value_of, well_keyed, with_value, written, Contents,
};
use crate::paint::{paint_bold, painted, Tint};

verus! {

/// One thing that the caller does for a plan.
#[derive(Debug, Clone, Copy, PartialEq, Eq, Structural)]
pub enum Step {
    /// Replace the catalogue's file by the plan's text.
    WriteRecords,
    /// Create the note's file, empty, unless it is there.
    CreateNote,
    /// Hand the note's file to the editor and wait until it is done.
    EditNote,
    /// Commit the working directory under the plan's message.
    Commit,
}

/// What has to happen outside once a note is created or edited, in the order
/// of `steps`.
#[derive(Debug, PartialEq, Eq)]
pub struct NotePlan {
    /// What to do, first to last.
    pub steps: Vec<Step>,
    /// The note's identifier, which is also the name of its file.
    pub id: String,
    /// The time filed as the note's last change.
    pub modified: String,
    /// The new text of the catalogue's file.
    pub records: String,
    /// The message of the commit that records the change.
    pub message: String,
}

/// A note as it is shown.
#[derive(Debug, PartialEq, Eq)]
pub struct Note {
    /// The note's identifier.
    pub id: String,
    /// The time of its last change.
    pub modified: String,
    /// Its text.
    pub content: String,
}

/// The identifier of a new note: the name where one is given, else the time
/// of its creation.
pub open spec fn note_id(name: Option<&str>, now: Seq<char>) -> Seq<char> {
    match name {
        Some(given) => given@,
        None => now,
    }
}

/// A new note is filed first; its file is created before the editor gets it,
/// so that it is there whatever the editor saves; the commit comes last.
pub open spec fn create_steps() -> Seq<Step> {
    seq![Step::WriteRecords, Step::CreateNote, Step::EditNote, Step::Commit]
}

/// An existing note is edited before its new time is filed, and committed
/// last.
pub open spec fn edit_steps() -> Seq<Step> {
    seq![Step::EditNote, Step::WriteRecords, Step::Commit]
}

/// The plan is the one for note `id`, changed at `now`, with catalogue
/// `after` and the given steps.
pub open spec fn plan_for(
    plan: NotePlan,
    steps: Seq<Step>,
    id: Seq<char>,
    now: Seq<char>,
    after: Contents,
) -> bool {
    &&& plan.steps@ == steps
    &&& plan.id@ == id
    &&& plan.modified@ == now
    &&& written(after, plan.records@)
    &&& plan.message@ == id
}

/// Creating note `id` at `now` in catalogue `before` ends with catalogue
/// `after` and result `done`: a name that is taken is refused and nothing
/// changes; a free one is filed with its time at the end of the catalogue.
pub open spec fn creates(
    before: Contents,
    id: Seq<char>,
    now: Seq<char>,
    after: Contents,
    done: Result<NotePlan, NoteError>,
) -> bool {
    if holds(before, id) {
        after == before && done == Err::<NotePlan, NoteError>(NoteError::DuplicateNote)
    } else {
        &&& after == with_value(before, id, modified_key(), Some(now))
        &&& done is Ok
        &&& plan_for(done->Ok_0, create_steps(), id, now, after)
    }
}

/// Editing note `id` at `now` in catalogue `before` ends with catalogue
/// `after` and result `done`: a note that is missing is reported and nothing
/// changes; one that is there gets its time replaced.
pub open spec fn edits(
    before: Contents,
    id: Seq<char>,
    now: Seq<char>,
    after: Contents,
    done: Result<NotePlan, NoteError>,
) -> bool {
    if holds(before, id) {
        &&& after == with_value(before, id, modified_key(), Some(now))
        &&& done is Ok
        &&& plan_for(done->Ok_0, edit_steps(), id, now, after)
    } else {
        after == before && done == Err::<NotePlan, NoteError>(NoteError::NoteNotFound)
    }
}

/// The time filed for the note at position `i` of a catalogue.
pub open spec fn dated(c: Contents, i: int) -> Option<Seq<char>> {
    value_of(c, c[i].0, modified_key())
}

/// Every note of the catalogue has a time.
pub open spec fn all_dated(c: Contents) -> bool {
    forall|i: int| 0 <= i < c.len() ==> (#[trigger] dated(c, i)).is_some()
}

/// The rows list the catalogue: one row per note, in the catalogue's order,
/// each the note's time and then its identifier.
pub open spec fn lists(c: Contents, rows: Seq<(String, String)>) -> bool {
    &&& rows.len() == c.len()
    &&& forall|i: int|
        0 <= i < c.len() ==> dated(c, i) == Some((#[trigger] rows[i]).0@) && rows[i].1@ == c[i].0
}

/// Showing note `id` of catalogue `c` gives `found`, where `content` is the
/// text of the note's file, `None` if the file cannot be read. A note that is
/// missing from the catalogue is reported first, then a file that cannot be
/// read, then a note without a time, which shows a corrupt catalogue. Any
/// other note comes with its time and its content.
pub open spec fn shows(
    c: Contents,
    id: Seq<char>,
    content: Option<Seq<char>>,
    found: Result<Note, NoteError>,
) -> bool {
    if !holds(c, id) {
        found == Err::<Note, NoteError>(NoteError::NoteNotFound)
    } else if content.is_none() {
        found == Err::<Note, NoteError>(NoteError::NoteUnavailable)
    } else if value_of(c, id, modified_key()).is_none() {
        found == Err::<Note, NoteError>(NoteError::CorruptIndex)
    } else {
        &&& found is Ok
        &&& found->Ok_0.id@ == id
        &&& found->Ok_0.modified@ == value_of(c, id, modified_key()).unwrap()
        &&& found->Ok_0.content@ == content.unwrap()
    }
}

/// The text of a file that was read, `None` for one that could not be.
pub open spec fn text_of(content: Option<String>) -> Option<Seq<char>> {
    match content {
        Some(text) => Some(text@),
        None => None,
    }
}

/// A note as text for a terminal: its name in bold red, its time in bold
/// blue on the next line, an empty line, then its content.
pub open spec fn shown(id: Seq<char>, modified: Seq<char>, content: Seq<char>) -> Seq<char> {
    painted(Tint::Red, id) + seq!['\n'] + painted(Tint::Blue, modified) + seq!['\n', '\n']
        + content
}

/// A row of the listing as text for a terminal: the time in bold blue, three
/// spaces, the name in bold red.
pub open spec fn listed(modified: Seq<char>, id: Seq<char>) -> Seq<char> {
    painted(Tint::Blue, modified) + seq![' ', ' ', ' '] + painted(Tint::Red, id)
}

/// Creates a note at a given time. The note is named `name`, or after the
/// time where no name is given. A name that is taken is refused with
/// `DuplicateNote`, and the catalogue stays as it was.
pub fn new_note_at(index: &mut Index, name: Option<&str>, now: &str) -> (done: Result<
    NotePlan,
    NoteError,
>)
    ensures
        creates(old(index)@, note_id(name, now@), now@, final(index)@, done),
        done is Ok ==> holds(final(index)@, note_id(name, now@)) && value_of(
            final(index)@,
            note_id(name, now@),
            modified_key(),
        ) == Some(now@),
{
    let id: String = match name {
        Some(given) => given.to_owned(),
        None => now.to_owned(),
    };
    if index.contains(id.as_str()) {
        return Err(NoteError::DuplicateNote);
    }
    proof {
        use_type_invariant(&*index);
        index.lemma_wf_well_keyed();
        lemma_stored_is_found(index@, id@, modified_key(), Some(now@));
    }
    index.set(id.as_str(), now.to_owned());
    let records = index.write();
    let steps = vec![Step::WriteRecords, Step::CreateNote, Step::EditNote, Step::Commit];
    assert(steps@ =~= create_steps());
    Ok(NotePlan { steps, id: id.clone(), modified: now.to_owned(), records, message: id })
}

/// Creates a note now. Whatever the clock says, the outcome is that of
/// `new_note_at` for some time, which a plan carries as the note's time; a
/// given name is refused if and only if it is taken.
pub fn new_note(index: &mut Index, name: Option<&str>) -> (done: Result<NotePlan, NoteError>)
    ensures
        exists|now: Seq<char>| creates(old(index)@, note_id(name, now), now, final(index)@, done),
        name matches Some(given) ==> (done is Ok <==> !holds(old(index)@, given@)),
        done matches Ok(plan) ==> creates(
            old(index)@,
            note_id(name, plan.modified@),
            plan.modified@,
            final(index)@,
            done,
        ),
        done matches Ok(plan) ==> holds(final(index)@, plan.id@) && value_of(
            final(index)@,
            plan.id@,
            modified_key(),
        ) == Some(plan.modified@),
        done matches Err(e) ==> e == NoteError::DuplicateNote && final(index)@ == old(index)@,
{
    let now = timestamp_now();
    let done = new_note_at(index, name, now.as_str());
    assert(creates(old(index)@, note_id(name, now@), now@, index@, done));
    done
}

/// Records at a given time that a note was edited. A note that the catalogue
/// does not hold is reported with `NoteNotFound`, and the catalogue stays as
/// it was; otherwise only the note's time changes, and the order of the
/// catalogue stays.
pub fn edit_note_at(index: &mut Index, name: &str, now: &str) -> (done: Result<NotePlan, NoteError>)
    ensures
        edits(old(index)@, name@, now@, final(index)@, done),
        keys(final(index)@) == keys(old(index)@),
        holds(final(index)@, name@) == holds(old(index)@, name@),
        done is Ok ==> value_of(final(index)@, name@, modified_key()) == Some(now@),
{
    if !index.contains(name) {
        return Err(NoteError::NoteNotFound);
    }
    proof {
        use_type_invariant(&*index);
        index.lemma_wf_well_keyed();
        lemma_stored_is_found(index@, name@, modified_key(), Some(now@));
        lemma_stored_order(index@, name@, modified_key(), Some(now@));
    }
    index.set(name, now.to_owned());
    let records = index.write();
    let steps = vec![Step::EditNote, Step::WriteRecords, Step::Commit];
    assert(steps@ =~= edit_steps());
    Ok(
        NotePlan {
            steps,
            id: name.to_owned(),
            modified: now.to_owned(),
            records,
            message: name.to_owned(),
        },
    )
}

/// Records that a note was edited now. Whatever the clock says, the outcome
/// is that of `edit_note_at` for some time, which a plan carries as the
/// note's time; the note is reported missing if and only if it is.
pub fn edit_note(index: &mut Index, name: &str) -> (done: Result<NotePlan, NoteError>)
    ensures
        exists|now: Seq<char>| edits(old(index)@, name@, now, final(index)@, done),
        done is Ok <==> holds(old(index)@, name@),
        done matches Ok(plan) ==> edits(old(index)@, name@, plan.modified@, final(index)@, done),
        done matches Ok(plan) ==> value_of(final(index)@, name@, modified_key()) == Some(
            plan.modified@,
        ),
        done matches Err(e) ==> e == NoteError::NoteNotFound && final(index)@ == old(index)@,
        keys(final(index)@) == keys(old(index)@),
        holds(final(index)@, name@) == holds(old(index)@, name@),
{
    let now = timestamp_now();
    let done = edit_note_at(index, name, now.as_str());
    assert(edits(old(index)@, name@, now@, index@, done));
    done
}

/// Puts a note together for showing, from the catalogue and the text of the
/// note's file, `None` if the file cannot be read. A note that the catalogue
/// does not hold is reported with `NoteNotFound`, a file that cannot be read
/// with `NoteUnavailable`; a note without a time shows a corrupt catalogue.
pub fn show_note(index: &Index, name: &str, content: Option<String>) -> (found: Result<
    Note,
    NoteError,
>)
    ensures
        shows(index@, name@, text_of(content), found),
{
    if !index.contains(name) {
        return Err(NoteError::NoteNotFound);
    }
    match content {
        None => Err(NoteError::NoteUnavailable),
        Some(text) => match index.get_modified(name) {
            Ok(modified) => Ok(Note { id: name.to_owned(), modified, content: text }),
            Err(e) => Err(e),
        },
    }
}

/// Lists the notes in the catalogue's order, each with its time first and
/// its identifier second. A note without a time shows a corrupt catalogue.
pub fn ls_notes(index: &Index) -> (listing: Result<Vec<(String, String)>, NoteError>)
    ensures
        listing.is_ok() == all_dated(index@),
        listing matches Ok(rows) ==> lists(index@, rows@),
        listing matches Err(e) ==> e == NoteError::CorruptIndex,
{
    let names = index.ids();
    let mut rows: Vec<(String, String)> = Vec::new();
    let mut i: usize = 0;
    while i < names.len()
        invariant
            i <= names.len(),
            names@.len() == index@.len(),
            forall|j: int| 0 <= j < names@.len() ==> (#[trigger] names@[j])@ == index@[j].0,
            rows@.len() == i,
            forall|j: int|
                0 <= j < i ==> dated(index@, j) == Some((#[trigger] rows@[j]).0@) && rows@[j].1@
                    == index@[j].0,
            forall|j: int| 0 <= j < i ==> (#[trigger] dated(index@, j)).is_some(),
        decreases names.len() - i,
    {
        match index.get_modified(names[i].as_str()) {
            Ok(time) => {
                rows.push((time, names[i].clone()));
            },
            Err(e) => {
                assert(dated(index@, i as int).is_none());
                return Err(e);
            },
        }
        i += 1;
    }
    Ok(rows)
}

impl Note {
    /// The note as text for a terminal.
    pub fn render(&self) -> (text: String)
        ensures
            text@ == shown(self.id@, self.modified@, self.content@),
    {
        proof {
            reveal_strlit("\n");
            reveal_strlit("\n\n");
        }
        let mut text = paint_bold(Tint::Red, self.id.as_str());
        text.append("\n");
        let time = paint_bold(Tint::Blue, self.modified.as_str());
        text.append(time.as_str());
        text.append("\n\n");
        text.append(self.content.as_str());
        assert("\n"@ =~= seq!['\n']);
        assert("\n\n"@ =~= seq!['\n', '\n']);
        text
    }
}

/// A row of the listing as text for a terminal.
pub fn render_row(modified: &str, id: &str) -> (text: String)
    ensures
        text@ == listed(modified@, id@),
{
    proof {
        reveal_strlit("   ");
    }
    let mut text = paint_bold(Tint::Blue, modified);
    text.append("   ");
    let name = paint_bold(Tint::Red, id);
    text.append(name.as_str());
    assert("   "@ =~= seq![' ', ' ', ' ']);
    text
}

/// A note that was created cannot be created again: the second attempt is
/// refused as a duplicate and leaves the catalogue as the first one left it.
pub proof fn lemma_second_create_is_refused(
    before: Contents,
    id: Seq<char>,
    first_time: Seq<char>,
    between: Contents,
    first: Result<NotePlan, NoteError>,
    second_time: Seq<char>,
    after: Contents,
    second: Result<NotePlan, NoteError>,
)
    requires
        well_keyed(before),
        creates(before, id, first_time, between, first),
        first is Ok,
        creates(between, id, second_time, after, second),
    ensures
        second == Err::<NotePlan, NoteError>(NoteError::DuplicateNote),
        after == between,
{
    lemma_stored_is_found(before, id, modified_key(), Some(first_time));
}

/// A note that was created goes to the end of the catalogue with the time of
/// its creation, and every note before it keeps its place and its time: a
/// listing grows by one row at its end.
pub proof fn lemma_create_extends_listing(
    before: Contents,
    id: Seq<char>,
    now: Seq<char>,
    after: Contents,
    done: Result<NotePlan, NoteError>,
)
    requires
        well_keyed(before),
        creates(before, id, now, after, done),
        done is Ok,
    ensures
        well_keyed(after),
        keys(after) == keys(before).push(id),
        after.len() == before.len() + 1,
        after[before.len() as int].0 == id,
        dated(after, before.len() as int) == Some(now),
        forall|i: int|
            0 <= i < before.len() ==> (#[trigger] after[i]).0 == before[i].0 && dated(after, i)
                == dated(before, i),
        all_dated(before) ==> all_dated(after),
{
    lemma_with_value_well_keyed(before, id, modified_key(), Some(now));
    lemma_stored_order(before, id, modified_key(), Some(now));
    lemma_stored_is_found(before, id, modified_key(), Some(now));
    assert(after[before.len() as int].0 == id);
    assert forall|i: int| 0 <= i < before.len() implies (#[trigger] after[i]).0 == before[i].0
        && dated(after, i) == dated(before, i) by {
        assert(after[i] == before[i]);
        assert(before[i].0 != id);
        lemma_stored_elsewhere(before, id, modified_key(), Some(now), before[i].0, modified_key());
    }
    if all_dated(before) {
        assert forall|i: int| 0 <= i < after.len() implies (#[trigger] dated(after, i)).is_some() by {
            if i < before.len() {
                assert(dated(before, i).is_some());
            }
        }
    }
}

/// The catalogue's file after note `id` was created at `now`: what it held
/// before, then the note's header and its time, with lines that end in `eol`.
pub open spec fn records_with(
    before: Contents,
    id: Seq<char>,
    now: Seq<char>,
    eol: Seq<char>,
) -> Seq<char> {
    document_text(before, eol) + (header_text(id, eol) + entry_text(
        modified_key(),
        Some(now),
        eol,
    ))
}

/// A note that was created, under any name but that of the default section,
/// goes to the end of the catalogue's file: what the file held stays, letter
/// for letter, and the note's header and its time follow.
pub proof fn lemma_create_appends_to_records(
    before: Contents,
    id: Seq<char>,
    now: Seq<char>,
    after: Contents,
    done: Result<NotePlan, NoteError>,
)
    requires
        well_keyed(before),
        creates(before, id, now, after, done),
        done is Ok,
        id != default_section(),
    ensures
        done->Ok_0.records@ == records_with(before, id, now, line_feed()) || done->Ok_0.records@
            == records_with(before, id, now, carriage_return_line_feed()),
{
    lemma_new_section_appends_text(before, id, modified_key(), Some(now), line_feed());
    lemma_new_section_appends_text(
        before,
        id,
        modified_key(),
        Some(now),
        carriage_return_line_feed(),
    );
}

/// A note that was created can be shown once its file can be read: it comes
/// with the time of its creation and with the content of its file.
pub proof fn lemma_created_note_is_shown(
    before: Contents,
    id: Seq<char>,
    now: Seq<char>,
    after: Contents,
    done: Result<NotePlan, NoteError>,
    content: Seq<char>,
    found: Result<Note, NoteError>,
)
    requires
        well_keyed(before),
        creates(before, id, now, after, done),
        done is Ok,
        shows(after, id, Some(content), found),
    ensures
        found is Ok,
        found->Ok_0.id@ == id,
        found->Ok_0.modified@ == now,
        found->Ok_0.content@ == content,
{
    lemma_stored_is_found(before, id, modified_key(), Some(now));
}

/// Editing touches one note only: the notes stay in their order, the edited
/// one takes the new time, and every other keeps its own.
pub proof fn lemma_edit_touches_one_note(
    before: Contents,
    id: Seq<char>,
    now: Seq<char>,
    after: Contents,
    done: Result<NotePlan, NoteError>,
    other: Seq<char>,
)
    requires
        well_keyed(before),
        edits(before, id, now, after, done),
        done is Ok,
        other != id,
    ensures
        well_keyed(after),
        keys(after) == keys(before),
        value_of(after, id, modified_key()) == Some(now),
        holds(after, other) == holds(before, other),
        value_of(after, other, modified_key()) == value_of(before, other, modified_key()),
{
    lemma_with_value_well_keyed(before, id, modified_key(), Some(now));
    lemma_stored_order(before, id, modified_key(), Some(now));
    lemma_stored_is_found(before, id, modified_key(), Some(now));
    lemma_stored_elsewhere(before, id, modified_key(), Some(now), other, modified_key());
}

} // verus!
