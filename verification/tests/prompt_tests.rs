use git_commitizen::prompt::{
    accepts, edit_op, filter_items, input_step, picker_step, refilter, EditMode, EditOp, InputRule,
    InputStep, KeyCode, KeyInput, KeyKind, PickerStep, TermEvent, MOD_CONTROL, MOD_NONE, MOD_SHIFT,
    STATE_NONE,
};

fn key(code: KeyCode, modifiers: u8) -> TermEvent {
    TermEvent::Key(KeyInput { code, modifiers, kind: KeyKind::Press, state: STATE_NONE })
}

fn items() -> Vec<String> {
    vec!["feat - A new Feature".to_string(), "fix - A bug fix".to_string(), "docs".to_string()]
}

#[test]
fn picker_keys() {
    let m = EditMode::Insert;
    assert_eq!(picker_step(&key(KeyCode::Enter, MOD_NONE), false, m), PickerStep::Quit);
    assert_eq!(
        picker_step(&key(KeyCode::Enter, MOD_NONE), true, m),
        PickerStep::Edit(None)
    );
    assert_eq!(picker_step(&key(KeyCode::Char('c'), MOD_CONTROL), true, m), PickerStep::Abort);
    assert_eq!(picker_step(&key(KeyCode::Up, MOD_NONE), false, m), PickerStep::Up);
    assert_eq!(picker_step(&key(KeyCode::Down, MOD_NONE), false, m), PickerStep::Down);
    assert_eq!(
        picker_step(&key(KeyCode::Char('x'), MOD_NONE), false, m),
        PickerStep::Edit(Some(EditOp::Insert('x')))
    );
    assert_eq!(picker_step(&TermEvent::Other, false, m), PickerStep::Stay);
    let release = TermEvent::Key(KeyInput {
        code: KeyCode::Enter,
        modifiers: MOD_NONE,
        kind: KeyKind::Release,
        state: STATE_NONE,
    });
    assert_eq!(picker_step(&release, false, m), PickerStep::Stay);
    let keypad = TermEvent::Key(KeyInput {
        code: KeyCode::Enter,
        modifiers: MOD_NONE,
        kind: KeyKind::Press,
        state: 1,
    });
    assert_eq!(picker_step(&keypad, false, m), PickerStep::Stay);
}

#[test]
fn editing_keys() {
    let m = EditMode::Insert;
    assert_eq!(edit_op(KeyCode::Left, MOD_NONE, m), Some(EditOp::Backward));
    assert_eq!(edit_op(KeyCode::Right, MOD_NONE, m), Some(EditOp::Forward));
    assert_eq!(edit_op(KeyCode::Char('a'), MOD_CONTROL, m), Some(EditOp::MoveToHead));
    assert_eq!(edit_op(KeyCode::Char('e'), MOD_CONTROL, m), Some(EditOp::MoveToTail));
    assert_eq!(edit_op(KeyCode::Backspace, MOD_NONE, m), Some(EditOp::Erase));
    assert_eq!(edit_op(KeyCode::Char('u'), MOD_CONTROL, m), Some(EditOp::EraseAll));
    assert_eq!(edit_op(KeyCode::Char('A'), MOD_SHIFT, m), Some(EditOp::Insert('A')));
    assert_eq!(
        edit_op(KeyCode::Char('z'), MOD_NONE, EditMode::Overwrite),
        Some(EditOp::Overwrite('z'))
    );
    assert_eq!(edit_op(KeyCode::Char('z'), 4, m), None);
    assert_eq!(edit_op(KeyCode::Left, MOD_SHIFT, m), None);
    assert_eq!(edit_op(KeyCode::Other, MOD_NONE, m), None);
}

#[test]
fn text_prompt_keys() {
    let m = EditMode::Insert;
    let enter = key(KeyCode::Enter, MOD_NONE);
    assert_eq!(input_step(&enter, m, InputRule::Anything, ""), InputStep::Quit);
    assert_eq!(input_step(&enter, m, InputRule::Integer, " 12 "), InputStep::Quit);
    assert_eq!(input_step(&enter, m, InputRule::Integer, "twelve"), InputStep::Reject);
    assert_eq!(
        input_step(&key(KeyCode::Char('c'), MOD_CONTROL), m, InputRule::Integer, "1"),
        InputStep::Abort
    );
    assert_eq!(
        input_step(&key(KeyCode::Backspace, MOD_NONE), m, InputRule::Anything, "ab"),
        InputStep::Edit(Some(EditOp::Erase))
    );
    assert_eq!(input_step(&TermEvent::Other, m, InputRule::Anything, ""), InputStep::Stay);
}

#[test]
fn rules() {
    assert!(accepts(InputRule::Anything, "whatever"));
    assert!(accepts(InputRule::Integer, "-3"));
    assert!(!accepts(InputRule::Integer, "3x"));
}

#[test]
fn filtering_ignores_case() {
    let list = filter_items(&items(), "FEATURE");
    assert_eq!(list, vec!["feat - A new Feature".to_string()]);
    let list = filter_items(&items(), "fix");
    assert_eq!(list, vec!["fix - A bug fix".to_string()]);
    assert_eq!(filter_items(&items(), ""), items());
    assert!(filter_items(&items(), "zzz").is_empty());
}

#[test]
fn filtering_keeps_order_and_is_idempotent() {
    let list = filter_items(&items(), "f");
    assert_eq!(list, vec!["feat - A new Feature".to_string(), "fix - A bug fix".to_string()]);
    assert_eq!(filter_items(&list, "f"), list);
}

#[test]
fn refilter_only_on_change() {
    let a = "fi".to_string();
    assert!(refilter(&items(), &a, &a.clone()).is_none());
    let b = "doc".to_string();
    assert_eq!(refilter(&items(), &a, &b), Some(vec!["docs".to_string()]));
}
