//! The first-run dialogue: asked once, when the working directory does not
//! exist yet, whether to start a new repository, to clone one, or to leave.

use vstd::prelude::*;
use crate::config::Config;
use crate::index::Index;
use crate::model::lemma_empty_document_is_empty_text;

verus! {

/// What the user chose at the first prompt.
#[derive(Debug, Clone, Copy, PartialEq, Eq, Structural)]
pub enum Choice {
    /// Start a new repository.
    Create,
    /// Clone an existing repository.
    Clone,
    /// Leave without doing anything.
    Abort,
    /// Anything else.
    Invalid,
}

/// Where the dialogue stands.
#[derive(Debug, Clone, Copy, PartialEq, Eq, Structural)]
pub enum BootstrapState {
    /// The choice between the three options is awaited.
    Start,
    /// Cloning was chosen; the repository's address is awaited.
    AwaitAddress,
    /// The working directory is being set up; the dialogue is over.
    Ready,
    /// The user left; the dialogue is over.
    Terminal,
}

/// What the caller has to do after a line was read.
#[derive(Debug, PartialEq, Eq)]
pub enum BootstrapAction {
    /// Set up a new repository in the working directory.
    CreateRepository,
    /// Ask for the address of the repository to clone.
    AskAddress,
    /// Clone the repository at this address into the working directory.
    CloneRepository { address: String },
    /// Leave with a neutral exit status, nothing created.
    Exit,
    /// Say that the option is invalid and prompt again.
    Reprompt,
    /// Nothing: the dialogue was over already.
    Nothing,
}

/// The characters that count as white space: those with the Unicode
/// property `White_Space`.
pub open spec fn white_space(c: char) -> bool {
    let n: u32 = c as u32;
    ||| 0x09 <= n <= 0x0d
    ||| n == 0x20
    ||| n == 0x85
    ||| n == 0xa0
    ||| n == 0x1680
    ||| 0x2000 <= n <= 0x200a
    ||| n == 0x2028
    ||| n == 0x2029
    ||| n == 0x202f
    ||| n == 0x205f
    ||| n == 0x3000
}

/// How many characters of white space a text starts with.
pub open spec fn leading(text: Seq<char>) -> nat
    decreases text.len(),
{
    if text.len() > 0 && white_space(text[0]) {
        1 + leading(text.drop_first())
    } else {
        0
    }
}

/// How many characters of white space a text ends with.
pub open spec fn trailing(text: Seq<char>) -> nat
    decreases text.len(),
{
    if text.len() > 0 && white_space(text.last()) {
        1 + trailing(text.drop_last())
    } else {
        0
    }
}

/// The text without the white space at its two ends: what stands from its
/// first to its last character that is not white space, and nothing where
/// all is white space.
pub open spec fn trimmed(text: Seq<char>) -> Seq<char> {
    let rest = text.skip(leading(text) as int);
    rest.take(rest.len() - trailing(rest))
}

/// `str::trim`: the text without leading and trailing white space, which is
/// what has the Unicode property `White_Space`.
#[verifier::external_body]
fn trim_line(line: &str) -> (answer: String)
    ensures
        answer@ == trimmed(line@),
{
    line.trim().to_string()
}

/// The choice that an answer stands for.
pub open spec fn choice_of(answer: Seq<char>) -> Choice {
    if answer == seq!['1'] {
        Choice::Create
    } else if answer == seq!['2'] {
        Choice::Clone
    } else if answer == seq!['3'] {
        Choice::Abort
    } else {
        Choice::Invalid
    }
}

/// The state after a line was read.
pub open spec fn next_state(state: BootstrapState, line: Seq<char>) -> BootstrapState {
    match state {
        BootstrapState::Start => match choice_of(trimmed(line)) {
            Choice::Create => BootstrapState::Ready,
            Choice::Clone => BootstrapState::AwaitAddress,
            Choice::Abort => BootstrapState::Terminal,
            Choice::Invalid => BootstrapState::Start,
        },
        BootstrapState::AwaitAddress => BootstrapState::Ready,
        BootstrapState::Ready => BootstrapState::Ready,
        BootstrapState::Terminal => BootstrapState::Terminal,
    }
}

/// The action that a line calls for is `action`.
pub open spec fn calls_for(state: BootstrapState, line: Seq<char>, action: BootstrapAction) -> bool {
    match state {
        BootstrapState::Start => match choice_of(trimmed(line)) {
            Choice::Create => action == BootstrapAction::CreateRepository,
            Choice::Clone => action == BootstrapAction::AskAddress,
            Choice::Abort => action == BootstrapAction::Exit,
            Choice::Invalid => action == BootstrapAction::Reprompt,
        },
        BootstrapState::AwaitAddress => action matches BootstrapAction::CloneRepository { address }
            && address@ == trimmed(line),
        BootstrapState::Ready => action == BootstrapAction::Nothing,
        BootstrapState::Terminal => action == BootstrapAction::Nothing,
    }
}

/// Reads a trimmed answer to the first prompt: `1` creates, `2` clones, `3`
/// aborts, and everything else is invalid.
pub fn bootstrap_choice(answer: &str) -> (choice: Choice)
    ensures
        choice == choice_of(answer@),
{
    if answer.unicode_len() != 1 {
        assert(seq!['1'].len() == 1 && seq!['2'].len() == 1 && seq!['3'].len() == 1);
        return Choice::Invalid;
    }
    let c = answer.get_char(0);
    if c == '1' {
        assert(answer@ =~= seq!['1']);
        Choice::Create
    } else if c == '2' {
        assert(answer@ =~= seq!['2']);
        assert(seq!['1'][0] != answer@[0]);
        Choice::Clone
    } else if c == '3' {
        assert(answer@ =~= seq!['3']);
        assert(seq!['1'][0] != answer@[0]);
        assert(seq!['2'][0] != answer@[0]);
        Choice::Abort
    } else {
        assert(seq!['1'][0] != answer@[0]);
        assert(seq!['2'][0] != answer@[0]);
        assert(seq!['3'][0] != answer@[0]);
        Choice::Invalid
    }
}

/// One step of the dialogue: from the state and the line that was read to the
/// next state and what the caller has to do. At the start the line is trimmed
/// and read as a choice; an invalid one prompts again, as often as it takes.
/// The address of a repository to clone is the line that was typed, trimmed:
/// without the end of the line.
pub fn first_launch(state: BootstrapState, line: &str) -> (step: (BootstrapState, BootstrapAction))
    ensures
        step.0 == next_state(state, line@),
        calls_for(state, line@, step.1),
{
    match state {
        BootstrapState::Start => {
            let answer = trim_line(line);
            match bootstrap_choice(answer.as_str()) {
                Choice::Create => (BootstrapState::Ready, BootstrapAction::CreateRepository),
                Choice::Clone => (BootstrapState::AwaitAddress, BootstrapAction::AskAddress),
                Choice::Abort => (BootstrapState::Terminal, BootstrapAction::Exit),
                Choice::Invalid => (BootstrapState::Start, BootstrapAction::Reprompt),
            }
        },
        BootstrapState::AwaitAddress => (
            BootstrapState::Ready,
            BootstrapAction::CloneRepository { address: trim_line(line) },
        ),
        BootstrapState::Ready => (BootstrapState::Ready, BootstrapAction::Nothing),
        BootstrapState::Terminal => (BootstrapState::Terminal, BootstrapAction::Nothing),
    }
}

/// A line is trimmed to what stands before its end: where that neither
/// starts nor ends with white space, trimming the line gives exactly that,
/// whether the line ends in a line feed, in a carriage return and a line
/// feed, or not at all.
pub proof fn lemma_trimmed_line(content: Seq<char>)
    requires
        content.len() > 0 ==> !white_space(content[0]) && !white_space(content.last()),
    ensures
        trimmed(content) == content,
        trimmed(content + seq!['\n']) == content,
        trimmed(content + seq!['\r', '\n']) == content,
{
    assert(white_space('\n') && white_space('\r'));
    assert(leading(content) == 0);
    assert(trailing(content) == 0);
    assert(content.skip(0) =~= content);
    assert(content.take(content.len() as int) =~= content);
    let unix = content + seq!['\n'];
    let windows = content + seq!['\r', '\n'];
    assert(unix.drop_last() =~= content);
    assert(windows.drop_last() =~= content + seq!['\r']);
    assert(windows.drop_last().drop_last() =~= content);
    assert(trailing(windows.drop_last()) == 1);
    if content.len() > 0 {
        assert(unix[0] == content[0] && windows[0] == content[0]);
        assert(leading(unix) == 0 && leading(windows) == 0);
        assert(unix.skip(0) =~= unix);
        assert(windows.skip(0) =~= windows);
        assert(trailing(unix) == 1);
        assert(trailing(windows) == 2);
        assert(unix.take(unix.len() - 1) =~= content);
        assert(windows.take(windows.len() - 2) =~= content);
    } else {
        assert(unix =~= seq!['\n']);
        assert(windows =~= seq!['\r', '\n']);
        assert(unix.drop_first() =~= Seq::<char>::empty());
        assert(unix[0] == '\n' && windows[0] == '\r');
        assert(leading(unix.drop_first()) == 0);
        assert(leading(unix) == 1);
        assert(windows.drop_first() =~= unix);
        assert(leading(windows) == 2);
        assert(unix.skip(1) =~= Seq::<char>::empty());
        assert(windows.skip(2) =~= Seq::<char>::empty());
        assert(trimmed(unix) =~= content);
        assert(trimmed(windows) =~= content);
    }
}

/// The two files of a new working directory.
pub struct FreshFiles {
    /// The name of the settings file.
    pub config_file: String,
    /// The text of the settings file: no remote set.
    pub config_text: String,
    /// The name of the catalogue's file.
    pub records_file: String,
    /// The text of the catalogue's file: no notes.
    pub records_text: String,
}

/// One thing that the caller does to set up a new working directory.
#[derive(Debug, Clone, Copy, PartialEq, Eq, Structural)]
pub enum SetupStep {
    /// Create the working directory and a new repository in it.
    InitRepository,
    /// Write the settings file.
    WriteConfig,
    /// Write the catalogue's file.
    WriteRecords,
    /// Create the directory for the notes' files.
    CreateNotesDir,
    /// Commit the working directory under the setup's message.
    Commit,
}

/// The repository comes first, then the two files and the directory for the
/// notes; the first commit comes last and so holds them all.
pub open spec fn setup_steps() -> Seq<SetupStep> {
    seq![
        SetupStep::InitRepository,
        SetupStep::WriteConfig,
        SetupStep::WriteRecords,
        SetupStep::CreateNotesDir,
        SetupStep::Commit,
    ]
}

/// What a new working directory holds before its first commit, and the
/// order in which it is made.
pub struct RepoSetup {
    /// What to do, first to last.
    pub steps: Vec<SetupStep>,
    /// The settings file and the catalogue's file.
    pub files: FreshFiles,
    /// The name of the directory that holds the notes' files.
    pub notes_dir: String,
    /// The message of the first commit.
    pub message: String,
}

/// The files of a new working directory: settings without a remote and a
/// catalogue without notes. Both are what the empty document is written as,
/// which is a text without any character.
pub fn create_config() -> (files: FreshFiles)
    ensures
        files.config_file@ == "conf"@,
        files.records_file@ == "records"@,
        files.config_text@.len() == 0,
        files.records_text@.len() == 0,
{
    let config = Config::new();
    let index = Index::new();
    let config_text = config.write();
    let records_text = index.write();
    proof {
        lemma_empty_document_is_empty_text(config@, config_text@);
        lemma_empty_document_is_empty_text(index@, records_text@);
    }
    FreshFiles {
        config_file: "conf".to_owned(),
        config_text,
        records_file: "records".to_owned(),
        records_text,
    }
}

/// Lays out a new working directory: the steps in their order, the two fresh
/// files, the directory for the notes, and the message of the first commit.
pub fn create_new_repo() -> (setup: RepoSetup)
    ensures
        setup.steps@ == setup_steps(),
        setup.files.config_file@ == "conf"@,
        setup.files.records_file@ == "records"@,
        setup.files.config_text@.len() == 0,
        setup.files.records_text@.len() == 0,
        setup.notes_dir@ == "records.d"@,
        setup.message@ == "Initial commit"@,
{
    let steps = vec![
        SetupStep::InitRepository,
        SetupStep::WriteConfig,
        SetupStep::WriteRecords,
        SetupStep::CreateNotesDir,
        SetupStep::Commit,
    ];
    assert(steps@ =~= setup_steps());
    RepoSetup {
        steps,
        files: create_config(),
        notes_dir: "records.d".to_owned(),
        message: "Initial commit".to_owned(),
    }
}

} // verus!
