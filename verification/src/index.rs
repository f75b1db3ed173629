//! The catalogue of notes: one section per note, named by the note's
//! identifier, with the time of its last change under the key `modified`.

use vstd::prelude::*;
use crate::ini::{
    ini_case_sensitive, ini_contents, ini_get, ini_new_cs, ini_parsed, ini_read, ini_sections,
    ini_set, ini_writes,
};
use crate::model::{
    holds, lemma_with_value_well_keyed, value_of, well_keyed, with_value, written, Contents,
};

verus! {

/// Why an operation on notes did not go through.
#[derive(Debug, Clone, Copy, PartialEq, Eq, Structural)]
pub enum NoteError {
    /// A note of that name is in the catalogue already.
    DuplicateNote,
    /// No note of that name is in the catalogue.
    NoteNotFound,
    /// The catalogue's text is not well-formed, or an entry lacks its time.
    CorruptIndex,
    /// The catalogue names the note, but its file cannot be read.
    NoteUnavailable,
}

/// What the user is told of a failure.
pub open spec fn message_of(e: NoteError) -> Seq<char> {
    match e {
        NoteError::DuplicateNote => "Note with such name already exists!"@,
        NoteError::NoteNotFound => "Note with such name doesn't exist!"@,
        NoteError::CorruptIndex => "Corrupted records file"@,
        NoteError::NoteUnavailable => "Failed to open record"@,
    }
}

impl NoteError {
    /// What the user is told.
    pub fn message(&self) -> (text: String)
        ensures
            text@ == message_of(*self),
    {
        match self {
            NoteError::DuplicateNote => "Note with such name already exists!".to_owned(),
            NoteError::NoteNotFound => "Note with such name doesn't exist!".to_owned(),
            NoteError::CorruptIndex => "Corrupted records file".to_owned(),
            NoteError::NoteUnavailable => "Failed to open record".to_owned(),
        }
    }

    /// Whether the failure is fatal. A name that is taken or missing is a
    /// conflict with what the user asked: it is reported and the run ends
    /// normally. A corrupt catalogue and a note's file that cannot be read
    /// are faults of the environment.
    pub fn is_fatal(&self) -> (fatal: bool)
        ensures
            fatal == (*self == NoteError::CorruptIndex || *self == NoteError::NoteUnavailable),
    {
        match self {
            NoteError::DuplicateNote => false,
            NoteError::NoteNotFound => false,
            NoteError::CorruptIndex => true,
            NoteError::NoteUnavailable => true,
        }
    }
}

/// The key under which a note's section holds the time of its last change.
pub open spec fn modified_key() -> Seq<char> {
    "modified"@
}

/// The catalogue, held in a case-sensitive `configparser` document.
pub struct Index {
    ini: configparser::ini::Ini,
}

impl View for Index {
    type V = Contents;

    closed spec fn view(&self) -> Contents {
        ini_contents(self.ini)
    }
}

impl Index {
    /// The document behind the catalogue compares names as written and files
    /// no name twice.
    #[verifier::type_invariant]
    pub closed spec fn wf(&self) -> bool {
        ini_case_sensitive(self.ini) && well_keyed(ini_contents(self.ini))
    }

    /// A well-formed catalogue files no name twice.
    pub proof fn lemma_wf_well_keyed(&self)
        requires
            self.wf(),
        ensures
            well_keyed(self@),
    {
    }

    /// The empty catalogue.
    pub fn new() -> (index: Index)
        ensures
            index@.len() == 0,
    {
        Index { ini: ini_new_cs() }
    }

    /// Reads a catalogue from the text of its file. A text that the parser
    /// rejects is reported as corrupt. The empty text is the empty catalogue.
    pub fn load(text: &str) -> (loaded: Result<Index, NoteError>)
        ensures
            loaded.is_ok() == ini_parsed(text@).is_some(),
            loaded matches Ok(index) ==> index@ == ini_parsed(text@).unwrap(),
            loaded matches Err(e) ==> e == NoteError::CorruptIndex,
            text@.len() == 0 ==> loaded is Ok && loaded->Ok_0@.len() == 0,
    {
        let mut ini = ini_new_cs();
        if ini_read(&mut ini, text) {
            Ok(Index { ini })
        } else {
            Err(NoteError::CorruptIndex)
        }
    }

    /// The identifiers of all notes, in the catalogue's order.
    pub fn ids(&self) -> (names: Vec<String>)
        ensures
            names@.len() == self@.len(),
            forall|i: int| 0 <= i < names@.len() ==> (#[trigger] names@[i])@ == self@[i].0,
    {
        ini_sections(&self.ini)
    }

    /// Whether a note of that name is in the catalogue.
    pub fn contains(&self, id: &str) -> (found: bool)
        ensures
            found == holds(self@, id@),
    {
        proof {
            use_type_invariant(self);
        }
        let wanted: String = id.to_owned();
        let names = ini_sections(&self.ini);
        let mut i: usize = 0;
        while i < names.len()
            invariant
                i <= names.len(),
                wanted@ == id@,
                names@.len() == self@.len(),
                forall|j: int| 0 <= j < names@.len() ==> (#[trigger] names@[j])@ == self@[j].0,
                forall|j: int| 0 <= j < i ==> (#[trigger] self@[j]).0 != id@,
            decreases names.len() - i,
        {
            if names[i] == wanted {
                assert(self@[i as int].0 == id@);
                return true;
            }
            i += 1;
        }
        false
    }

    /// The time of a note's last change. A note that is missing, or has no
    /// time, shows a corrupt catalogue.
    pub fn get_modified(&self, id: &str) -> (modified: Result<String, NoteError>)
        ensures
            modified.is_ok() == value_of(self@, id@, modified_key()).is_some(),
            modified matches Ok(time) ==> time@ == value_of(self@, id@, modified_key()).unwrap(),
            modified matches Err(e) ==> e == NoteError::CorruptIndex,
    {
        proof {
            use_type_invariant(self);
        }
        match ini_get(&self.ini, id, "modified") {
            Some(time) => Ok(time),
            None => Err(NoteError::CorruptIndex),
        }
    }

    /// Files `modified` as the time of note `id`, which joins the end of the
    /// catalogue if it is new and keeps its place if it is not.
    pub fn set(&mut self, id: &str, modified: String)
        ensures
            final(self)@ == with_value(old(self)@, id@, modified_key(), Some(modified@)),
    {
        proof {
            use_type_invariant(&*self);
            lemma_with_value_well_keyed(
                old(self)@,
                id@,
                modified_key(),
                Some(modified@),
            );
        }
        // The document is taken out while it changes, so that `self` is
        // well-formed at every moment.
        let mut ini = ini_new_cs();
        std::mem::swap(&mut ini, &mut self.ini);
        ini_set(&mut ini, id, "modified", modified);
        self.ini = ini;
    }

    /// The text of the catalogue's file, its lines ended as the platform ends
    /// them.
    pub fn write(&self) -> (text: String)
        ensures
            written(self@, text@),
    {
        proof {
            use_type_invariant(self);
        }
        ini_writes(&self.ini)
    }
}

} // verus!
