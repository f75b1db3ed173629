use cru::bootstrap::{
    bootstrap_choice, create_config, create_new_repo, first_launch, BootstrapAction,
    BootstrapState, Choice, SetupStep,
};
use cru::config::Config;
use cru::index::Index;

#[test]
fn choice_one_creates() {
    assert_eq!(bootstrap_choice("1"), Choice::Create);
    assert_eq!(
        first_launch(BootstrapState::Start, "1\n"),
        (BootstrapState::Ready, BootstrapAction::CreateRepository)
    );
}

#[test]
fn choice_two_asks_for_the_address_and_then_clones() {
    assert_eq!(bootstrap_choice("2"), Choice::Clone);
    assert_eq!(
        first_launch(BootstrapState::Start, "  2 \n"),
        (BootstrapState::AwaitAddress, BootstrapAction::AskAddress)
    );
    assert_eq!(
        first_launch(BootstrapState::AwaitAddress, "https://example.com/repo.git\n"),
        (
            BootstrapState::Ready,
            BootstrapAction::CloneRepository { address: "https://example.com/repo.git".to_string() }
        )
    );
}

#[test]
fn address_loses_the_end_of_its_line_and_the_space_around_it() {
    for line in [
        "https://example.com/repo.git",
        "https://example.com/repo.git\n",
        "https://example.com/repo.git\r\n",
        "  https://example.com/repo.git \t\n",
    ] {
        assert_eq!(
            first_launch(BootstrapState::AwaitAddress, line).1,
            BootstrapAction::CloneRepository { address: "https://example.com/repo.git".to_string() }
        );
    }
    assert_eq!(
        first_launch(BootstrapState::AwaitAddress, "git@example.com:my notes.git\n").1,
        BootstrapAction::CloneRepository { address: "git@example.com:my notes.git".to_string() }
    );
    assert_eq!(
        first_launch(BootstrapState::AwaitAddress, " \n").1,
        BootstrapAction::CloneRepository { address: String::new() }
    );
}

#[test]
fn every_kind_of_white_space_is_trimmed_and_nothing_else() {
    let white = [
        '\u{9}', '\u{a}', '\u{b}', '\u{c}', '\u{d}', '\u{20}', '\u{85}', '\u{a0}', '\u{1680}',
        '\u{2000}', '\u{2001}', '\u{2002}', '\u{2003}', '\u{2004}', '\u{2005}', '\u{2006}',
        '\u{2007}', '\u{2008}', '\u{2009}', '\u{200a}', '\u{2028}', '\u{2029}', '\u{202f}',
        '\u{205f}', '\u{3000}',
    ];
    for c in white {
        let line = format!("{}1{}", c, c);
        assert_eq!(
            first_launch(BootstrapState::Start, &line),
            (BootstrapState::Ready, BootstrapAction::CreateRepository)
        );
    }
    let not_white = [
        '\u{8}', '\u{e}', '\u{1f}', '\u{84}', '\u{86}', '\u{9f}', '\u{a1}', '\u{180e}', '\u{1fff}',
        '\u{200b}', '\u{200c}', '\u{2027}', '\u{202a}', '\u{202e}', '\u{2030}', '\u{205e}',
        '\u{2060}', '\u{2fff}', '\u{3001}', '\u{feff}',
    ];
    for c in not_white {
        let before = format!("{}1", c);
        let after = format!("1{}", c);
        assert_eq!(first_launch(BootstrapState::Start, &before).1, BootstrapAction::Reprompt);
        assert_eq!(first_launch(BootstrapState::Start, &after).1, BootstrapAction::Reprompt);
    }
}

#[test]
fn choice_three_exits() {
    assert_eq!(bootstrap_choice("3"), Choice::Abort);
    assert_eq!(
        first_launch(BootstrapState::Start, "3\n"),
        (BootstrapState::Terminal, BootstrapAction::Exit)
    );
}

#[test]
fn anything_else_prompts_again() {
    for answer in ["", "0", "4", "11", "one", "1 2", "\u{661}"] {
        assert_eq!(bootstrap_choice(answer), Choice::Invalid);
        assert_eq!(
            first_launch(BootstrapState::Start, answer),
            (BootstrapState::Start, BootstrapAction::Reprompt)
        );
    }
}

#[test]
fn untrimmed_answer_is_not_a_choice_by_itself() {
    assert_eq!(bootstrap_choice(" 1"), Choice::Invalid);
    assert_eq!(bootstrap_choice("1\n"), Choice::Invalid);
}

#[test]
fn invalid_answers_can_repeat_before_a_valid_one() {
    let mut state = BootstrapState::Start;
    for answer in ["x\n", "\n", "9\n"] {
        let (next, action) = first_launch(state, answer);
        assert_eq!(action, BootstrapAction::Reprompt);
        state = next;
    }
    assert_eq!(first_launch(state, "3\n"), (BootstrapState::Terminal, BootstrapAction::Exit));
}

#[test]
fn finished_dialogue_asks_for_nothing() {
    assert_eq!(
        first_launch(BootstrapState::Ready, "1\n"),
        (BootstrapState::Ready, BootstrapAction::Nothing)
    );
    assert_eq!(
        first_launch(BootstrapState::Terminal, "1\n"),
        (BootstrapState::Terminal, BootstrapAction::Nothing)
    );
}

#[test]
fn fresh_files_are_empty() {
    let files = create_config();
    assert_eq!(files.config_file, "conf");
    assert_eq!(files.config_text, "");
    assert_eq!(files.records_file, "records");
    assert_eq!(files.records_text, "");
}

#[test]
fn new_repository_has_empty_index_no_remote_and_first_commit_message() {
    let setup = create_new_repo();
    assert_eq!(
        setup.steps,
        vec![
            SetupStep::InitRepository,
            SetupStep::WriteConfig,
            SetupStep::WriteRecords,
            SetupStep::CreateNotesDir,
            SetupStep::Commit,
        ]
    );
    assert_eq!(setup.notes_dir, "records.d");
    assert_eq!(setup.message, "Initial commit");
    let index = Index::load(&setup.files.records_text).unwrap();
    assert!(index.ids().is_empty());
    let config = Config::load(&setup.files.config_text).unwrap();
    assert_eq!(config.remote(), None);
}
