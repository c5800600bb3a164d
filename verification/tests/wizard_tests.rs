use git_commitizen::commit::{build_commit_types, format_commit_types};
use git_commitizen::wizard::{editor_command, wants_editor, Ask, Stage, Wizard};

fn is(a: &Ask<String>, b: &Ask<String>) -> bool {
    format!("{:?}", a) == format!("{:?}", b)
}

#[test]
fn every_menu_line_gives_its_type() {
    let types = build_commit_types();
    let lines = format_commit_types(build_commit_types());
    for (i, line) in lines.iter().enumerate() {
        let (mut w, _) = Wizard::start();
        w.answer(line.clone());
        assert_eq!(w.commit_type, types[i].0);
    }
}

#[test]
fn dialogue_without_footer() {
    let (mut w, first) = Wizard::start();
    assert!(is(&first, &Ask::SelectType));
    assert!(is(&w.answer("feat         - A new feature".to_string()), &Ask::Scope));
    assert!(is(&w.answer("ui".to_string()), &Ask::Description));
    assert!(is(&w.answer("add button".to_string()), &Ask::Body));
    assert!(is(&w.answer("".to_string()), &Ask::Footer));
    assert!(is(&w.answer("No".to_string()), &Ask::Confirm));
    let last = w.answer("Yes".to_string());
    assert!(is(&last, &Ask::Commit("feat(ui): add button".to_string())));
    assert_eq!(w.stage, Stage::Done);
    assert!(is(&w.answer("again".to_string()), &Ask::Stop));
}

#[test]
fn dialogue_with_footer_and_editor() {
    let (mut w, _) = Wizard::start();
    w.answer("fix          - A bug fix".to_string());
    w.answer("".to_string());
    w.answer("null check".to_string());
    assert!(is(&w.answer("  E ".to_string()), &Ask::Editor));
    assert!(is(&w.answer("Body from editor\n".to_string()), &Ask::Footer));
    assert!(is(&w.answer("Yes".to_string()), &Ask::FooterType));
    assert!(is(&w.answer("close".to_string()), &Ask::IssueNumber));
    assert!(is(&w.answer("42".to_string()), &Ask::Confirm));
    assert_eq!(w.message(), "fix: null check\n\nBody from editor\n\n\nclose: #42");
    assert!(is(
        &w.answer("Yes".to_string()),
        &Ask::Commit("fix: null check\n\nBody from editor\n\n\nclose: #42".to_string())
    ));
}

#[test]
fn declined_commit_aborts() {
    let (mut w, _) = Wizard::start();
    w.answer("docs x".to_string());
    w.answer("".to_string());
    w.answer("d".to_string());
    w.answer("b".to_string());
    w.answer("No".to_string());
    assert!(is(&w.answer("No".to_string()), &Ask::Abort));
}

#[test]
fn blank_menu_line_stops() {
    let (mut w, _) = Wizard::start();
    assert!(is(&w.answer("   ".to_string()), &Ask::Stop));
    assert_eq!(w.stage, Stage::Done);
}

#[test]
fn editor_answer() {
    assert!(wants_editor("e"));
    assert!(wants_editor(" E\n"));
    assert!(!wants_editor("edit"));
    assert!(!wants_editor(""));
}

#[test]
fn editor_choice() {
    assert_eq!(editor_command(Some("nano".to_string()), false), "nano");
    assert_eq!(editor_command(None, false), "vim");
    assert_eq!(editor_command(None, true), "notepad");
}
