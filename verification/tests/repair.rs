use published_packages::package::Package;
use published_packages::protocol::{Action, Event, GitCommand, ResolveError, GIT_DIR, VCS_INFO_FILE};
use published_packages::repair::{
    initialize_registry_package, is_author_identity_unknown, trim_bounds, Repair, RepairStep,
};
use published_packages::version_text::to_chars;

fn downloaded(name: &str) -> Package {
    Package {
        name: name.to_string(),
        version: "1.0.0".to_string(),
        manifest_path: format!("/scratch/{name}-1.0.0/Cargo.toml"),
        publish: None,
    }
}

fn run_repair(events: Vec<Event>) -> (Repair, Vec<Action>) {
    let package = downloaded("a");
    let mut repair = Repair::new();
    let mut actions = Vec::new();
    for event in events {
        actions.push(initialize_registry_package(&mut repair, &package, event));
    }
    (repair, actions)
}

fn done() -> Event {
    Event::Done(Ok(()))
}

fn failed(why: &str) -> Event {
    Event::Done(Err(why.to_string()))
}

#[test]
fn package_without_record_has_no_origin_commit() {
    let (repair, actions) = run_repair(vec![Event::Start, Event::Exists(false), Event::Exists(true)]);
    assert_eq!(actions, vec![Action::ProbeVcsInfo, Action::ProbeGitDir, Action::Finished]);
    assert_eq!(repair, Repair { step: RepairStep::Repaired, sha1: None });
}

#[test]
fn recorded_commit_becomes_the_origin_commit_and_the_record_is_removed() {
    let (repair, actions) = run_repair(vec![
        Event::Start,
        Event::Exists(true),
        Event::Commit(Some("abc123".to_string())),
        done(),
        Event::Exists(true),
    ]);
    assert_eq!(
        actions,
        vec![
            Action::ProbeVcsInfo,
            Action::ReadVcsInfo,
            Action::RemoveVcsInfo,
            Action::ProbeGitDir,
            Action::Finished
        ]
    );
    assert_eq!(repair, Repair { step: RepairStep::Repaired, sha1: Some("abc123".to_string()) });
}

#[test]
fn unreadable_record_is_removed_all_the_same() {
    let (repair, actions) =
        run_repair(vec![Event::Start, Event::Exists(true), Event::Commit(None), done(), Event::Exists(true)]);
    assert_eq!(actions[2], Action::RemoveVcsInfo);
    assert_eq!(repair, Repair { step: RepairStep::Repaired, sha1: None });
}

#[test]
fn record_that_cannot_be_removed_fails_the_repair() {
    let (repair, actions) = run_repair(vec![
        Event::Start,
        Event::Exists(true),
        Event::Commit(Some("abc123".to_string())),
        failed("permission denied"),
    ]);
    assert_eq!(
        actions[3],
        Action::Failed(ResolveError::RemoveVcsInfo {
            package: "a".to_string(),
            cause: "permission denied".to_string()
        })
    );
    assert_eq!(repair.step, RepairStep::Failed);
}

#[test]
fn package_without_repository_gets_one_with_an_initial_commit() {
    let (repair, actions) =
        run_repair(vec![Event::Start, Event::Exists(false), Event::Exists(false), done(), done(), done()]);
    assert_eq!(
        actions,
        vec![
            Action::ProbeVcsInfo,
            Action::ProbeGitDir,
            Action::RunGit(GitCommand::Init),
            Action::RunGit(GitCommand::AddAll),
            Action::RunGit(GitCommand::CommitInit),
            Action::Finished
        ]
    );
    assert_eq!(repair, Repair { step: RepairStep::Repaired, sha1: None });
}

#[test]
fn commit_of_the_initial_repository_is_not_the_origin_commit() {
    let (repair, _) = run_repair(vec![
        Event::Start,
        Event::Exists(true),
        Event::Commit(Some("abc123".to_string())),
        done(),
        Event::Exists(false),
        done(),
        done(),
        done(),
    ]);
    assert_eq!(repair, Repair { step: RepairStep::Repaired, sha1: Some("abc123".to_string()) });
}

#[test]
fn unknown_author_identity_is_set_and_the_commit_tried_once_more() {
    let (repair, actions) = run_repair(vec![
        Event::Start,
        Event::Exists(false),
        Event::Exists(false),
        done(),
        done(),
        failed("Author identity unknown\n\n*** Please tell me who you are.\n"),
        done(),
        done(),
        done(),
    ]);
    assert_eq!(
        actions[5..],
        [
            Action::RunGit(GitCommand::SetUserEmail),
            Action::RunGit(GitCommand::SetUserName),
            Action::RunGit(GitCommand::CommitInit),
            Action::Finished
        ]
    );
    assert_eq!(repair.step, RepairStep::Repaired);
}

#[test]
fn second_commit_failure_is_final() {
    let (repair, actions) = run_repair(vec![
        Event::Start,
        Event::Exists(false),
        Event::Exists(false),
        done(),
        done(),
        failed("Author identity unknown"),
        done(),
        done(),
        failed("Author identity unknown"),
    ]);
    assert_eq!(
        actions[8],
        Action::Failed(ResolveError::RepositoryInit {
            package: "a".to_string(),
            cause: "Author identity unknown".to_string()
        })
    );
    assert_eq!(repair.step, RepairStep::Failed);
}

#[test]
fn other_commit_failure_ends_the_repair() {
    let (repair, actions) = run_repair(vec![
        Event::Start,
        Event::Exists(false),
        Event::Exists(false),
        done(),
        done(),
        failed("nothing to commit"),
    ]);
    assert_eq!(
        actions[5],
        Action::Failed(ResolveError::RepositoryInit {
            package: "a".to_string(),
            cause: "nothing to commit".to_string()
        })
    );
    assert_eq!(repair.step, RepairStep::Failed);
}

#[test]
fn failure_of_any_other_git_command_ends_the_repair() {
    for failing in 3..5 {
        let mut events = vec![Event::Start, Event::Exists(false), Event::Exists(false), done(), done()];
        events[failing] = failed("git is missing");
        events.truncate(failing + 1);
        let (repair, actions) = run_repair(events);
        assert_eq!(
            actions[failing],
            Action::Failed(ResolveError::RepositoryInit {
                package: "a".to_string(),
                cause: "git is missing".to_string()
            })
        );
        assert_eq!(repair.step, RepairStep::Failed);
    }
    for failing in 6..8 {
        let mut events = vec![
            Event::Start,
            Event::Exists(false),
            Event::Exists(false),
            done(),
            done(),
            failed("Author identity unknown"),
            done(),
            done(),
        ];
        events[failing] = failed("cannot lock config");
        events.truncate(failing + 1);
        let (repair, actions) = run_repair(events);
        assert_eq!(
            actions[failing],
            Action::Failed(ResolveError::RepositoryInit {
                package: "a".to_string(),
                cause: "cannot lock config".to_string()
            })
        );
        assert_eq!(repair.step, RepairStep::Failed);
    }
}

#[test]
fn event_that_answers_nothing_fails_the_repair() {
    let (repair, actions) = run_repair(vec![Event::Exists(true)]);
    assert_eq!(actions, vec![Action::Failed(ResolveError::UnexpectedEvent)]);
    assert_eq!(repair.step, RepairStep::Failed);
    let (_, actions) = run_repair(vec![Event::Start, Event::Commit(None)]);
    assert_eq!(actions[1], Action::Failed(ResolveError::UnexpectedEvent));
    let (_, actions) = run_repair(vec![Event::Start, Event::Exists(false), Event::Exists(true), Event::Start]);
    assert_eq!(actions[3], Action::Failed(ResolveError::UnexpectedEvent));
}

#[test]
fn author_identity_complaint_is_told_by_its_start() {
    assert!(is_author_identity_unknown("Author identity unknown"));
    assert!(is_author_identity_unknown("  \n\tAuthor identity unknown\n\n*** Please tell me who you are."));
    assert!(is_author_identity_unknown("\u{a0}\u{2003}Author identity unknown "));
    assert!(!is_author_identity_unknown("Author identity"));
    assert!(!is_author_identity_unknown("author identity unknown"));
    assert!(!is_author_identity_unknown("fatal: Author identity unknown"));
    assert!(!is_author_identity_unknown("Author  identity unknown"));
    assert!(!is_author_identity_unknown(""));
    assert!(!is_author_identity_unknown("   "));
    assert!(!is_author_identity_unknown("\u{200b}Author identity unknown"));
}

#[test]
fn author_identity_check_agrees_with_trim_and_starts_with() {
    let messages = [
        "Author identity unknown",
        " Author identity unknown",
        "\r\nAuthor identity unknown\r\n",
        "\u{85}\u{1680}\u{2028}\u{2029}\u{202f}\u{205f}\u{3000}Author identity unknown",
        "\u{b}\u{c}Author identity unknownX",
        "\u{1c}Author identity unknown",
        "xAuthor identity unknown",
        "Author identity unknow",
        "Author identity unknown\u{2000}",
        "",
        " ",
    ];
    for message in messages {
        assert_eq!(
            is_author_identity_unknown(message),
            message.trim().starts_with("Author identity unknown"),
            "for {message:?}"
        );
    }
}

#[test]
fn trim_bounds_cut_whitespace_at_both_ends() {
    assert_eq!(trim_bounds(&to_chars("  ab c \n")), (2, 6));
    assert_eq!(trim_bounds(&to_chars("abc")), (0, 3));
    assert_eq!(trim_bounds(&to_chars("")), (0, 0));
    assert_eq!(trim_bounds(&to_chars(" \t ")), (3, 3));
    assert_eq!(trim_bounds(&to_chars("é ")), (0, 1));
    for text in ["  ab c \n", "\u{2003}x\u{3000}", " ", "", "a", "\u{85}b\u{a0}c\u{1680}"] {
        let chars = to_chars(text);
        let (start, end) = trim_bounds(&chars);
        let cut: String = chars[start..end].iter().collect();
        assert_eq!(cut, text.trim(), "for {text:?}");
    }
}

#[test]
fn git_commands_spell_out_their_arguments() {
    assert_eq!(GitCommand::Init.args(), vec!["init"]);
    assert_eq!(GitCommand::AddAll.args(), vec!["add", "."]);
    assert_eq!(GitCommand::CommitInit.args(), vec!["commit", "-m", "init"]);
    assert_eq!(GitCommand::SetUserEmail.args(), vec!["config", "user.email", "test@registry"]);
    assert_eq!(GitCommand::SetUserName.args(), vec!["config", "user.name", "test"]);
    assert_eq!(VCS_INFO_FILE, ".cargo_vcs_info.json");
    assert_eq!(GIT_DIR, ".git");
}
