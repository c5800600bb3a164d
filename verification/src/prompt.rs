use vstd::prelude::*;

use crate::commit::strings_view;
use crate::number::{is_valid_integer, parsed_i32};
use crate::text::{
    chars_of, contains_chars, has_substring, lemma_trimmed_idempotent, lowercase, occurs_at, to_lowercase,
    trimmed,
};

verus! {

/// No modifier key is held.
pub const MOD_NONE: u8 = 0;

/// The Shift modifier bit.
pub const MOD_SHIFT: u8 = 1;

/// The Control modifier bit.
pub const MOD_CONTROL: u8 = 2;

/// No keyboard state flag (keypad, caps lock, num lock) is set.
pub const STATE_NONE: u8 = 0;

/// The keys that the prompts react to; every other key is `Other`.
#[derive(Clone, Copy, Debug, PartialEq, Eq, Structural)]
pub enum KeyCode {
    Enter,
    Up,
    Down,
    Left,
    Right,
    Backspace,
    Char(char),
    Other,
}

/// Whether a key went down, repeats or went up.
#[derive(Clone, Copy, Debug, PartialEq, Eq, Structural)]
pub enum KeyKind {
    Press,
    Repeat,
    Release,
}

/// A key event: the key, the modifier bits (Shift 1, Control 2, Alt 4, ...),
/// its kind, and the keyboard state bits.
#[derive(Clone, Copy, Debug, PartialEq, Eq, Structural)]
pub struct KeyInput {
    pub code: KeyCode,
    pub modifiers: u8,
    pub kind: KeyKind,
    pub state: u8,
}

/// A terminal event: a key, or anything else (resize, mouse, focus, paste).
#[derive(Clone, Copy, Debug, PartialEq, Eq, Structural)]
pub enum TermEvent {
    Key(KeyInput),
    Other,
}

/// Whether typed characters are inserted at the cursor or overwrite it.
#[derive(Clone, Copy, Debug, PartialEq, Eq, Structural)]
pub enum EditMode {
    Insert,
    Overwrite,
}

/// An operation on the text being typed.
#[derive(Clone, Copy, Debug, PartialEq, Eq, Structural)]
pub enum EditOp {
    Backward,
    Forward,
    MoveToHead,
    MoveToTail,
    Erase,
    EraseAll,
    Insert(char),
    Overwrite(char),
}

/// What the list picker does with an event.
#[derive(Clone, Copy, Debug, PartialEq, Eq, Structural)]
pub enum PickerStep {
    /// Accept the highlighted item.
    Quit,
    /// Give up (Ctrl+C).
    Abort,
    /// Move the highlight up.
    Up,
    /// Move the highlight down.
    Down,
    /// Apply the editing operation, if any, to the query.
    Edit(Option<EditOp>),
    /// Nothing to do.
    Stay,
}

/// What the text prompt does with an event.
#[derive(Clone, Copy, Debug, PartialEq, Eq, Structural)]
pub enum InputStep {
    /// Accept the text.
    Quit,
    /// The text is not accepted: show the validation message and go on.
    Reject,
    /// Give up (Ctrl+C).
    Abort,
    /// Apply the editing operation, if any, to the text.
    Edit(Option<EditOp>),
    /// Nothing to do.
    Stay,
}

/// Which texts a text prompt accepts.
#[derive(Clone, Copy, Debug, PartialEq, Eq, Structural)]
pub enum InputRule {
    /// Any text.
    Anything,
    /// A text whose trimmed form parses as an `i32`.
    Integer,
}

/// A key press with no keyboard state flag set.
pub open spec fn is_plain_press(k: KeyInput) -> bool {
    k.kind == KeyKind::Press && k.state == STATE_NONE
}

/// The key is pressed with exactly the given modifiers and no state flag.
pub open spec fn pressed_with(k: KeyInput, code: KeyCode, modifiers: u8) -> bool {
    k.code == code && k.modifiers == modifiers && is_plain_press(k)
}

/// The editing operation that a key stands for, if any.
pub open spec fn edit_op_for(code: KeyCode, modifiers: u8, mode: EditMode) -> Option<EditOp> {
    if code == KeyCode::Left && modifiers == MOD_NONE {
        Some(EditOp::Backward)
    } else if code == KeyCode::Right && modifiers == MOD_NONE {
        Some(EditOp::Forward)
    } else if code == KeyCode::Char('a') && modifiers == MOD_CONTROL {
        Some(EditOp::MoveToHead)
    } else if code == KeyCode::Char('e') && modifiers == MOD_CONTROL {
        Some(EditOp::MoveToTail)
    } else if code == KeyCode::Backspace && modifiers == MOD_NONE {
        Some(EditOp::Erase)
    } else if code == KeyCode::Char('u') && modifiers == MOD_CONTROL {
        Some(EditOp::EraseAll)
    } else if code is Char && (modifiers == MOD_NONE || modifiers == MOD_SHIFT) {
        match mode {
            EditMode::Insert => Some(EditOp::Insert(code->Char_0)),
            EditMode::Overwrite => Some(EditOp::Overwrite(code->Char_0)),
        }
    } else {
        None
    }
}

/// The picker's reaction to an event, given whether its (filtered) list is empty.
pub open spec fn picker_reaction(event: TermEvent, list_empty: bool, mode: EditMode) -> PickerStep {
    match event {
        TermEvent::Key(k) => {
            if pressed_with(k, KeyCode::Enter, MOD_NONE) && !list_empty {
                PickerStep::Quit
            } else if pressed_with(k, KeyCode::Char('c'), MOD_CONTROL) {
                PickerStep::Abort
            } else if pressed_with(k, KeyCode::Up, MOD_NONE) {
                PickerStep::Up
            } else if pressed_with(k, KeyCode::Down, MOD_NONE) {
                PickerStep::Down
            } else if is_plain_press(k) {
                PickerStep::Edit(edit_op_for(k.code, k.modifiers, mode))
            } else {
                PickerStep::Stay
            }
        },
        TermEvent::Other => PickerStep::Stay,
    }
}

/// Whether a text prompt with `rule` accepts `value`.
pub open spec fn rule_accepts(rule: InputRule, value: Seq<char>) -> bool {
    match rule {
        InputRule::Anything => true,
        InputRule::Integer => parsed_i32(trimmed(value)) is Some,
    }
}

/// The text prompt's reaction to an event, given its rule and current text.
pub open spec fn input_reaction(
    event: TermEvent,
    mode: EditMode,
    rule: InputRule,
    value: Seq<char>,
) -> InputStep {
    match event {
        TermEvent::Key(k) => {
            if pressed_with(k, KeyCode::Enter, MOD_NONE) {
                if rule_accepts(rule, value) {
                    InputStep::Quit
                } else {
                    InputStep::Reject
                }
            } else if pressed_with(k, KeyCode::Char('c'), MOD_CONTROL) {
                InputStep::Abort
            } else if is_plain_press(k) {
                InputStep::Edit(edit_op_for(k.code, k.modifiers, mode))
            } else {
                InputStep::Stay
            }
        },
        TermEvent::Other => InputStep::Stay,
    }
}

fn is_key(code: KeyCode, expected: KeyCode) -> (b: bool)
    ensures
        b == (code == expected),
{
    match (code, expected) {
        (KeyCode::Enter, KeyCode::Enter) => true,
        (KeyCode::Up, KeyCode::Up) => true,
        (KeyCode::Down, KeyCode::Down) => true,
        (KeyCode::Left, KeyCode::Left) => true,
        (KeyCode::Right, KeyCode::Right) => true,
        (KeyCode::Backspace, KeyCode::Backspace) => true,
        (KeyCode::Char(a), KeyCode::Char(b)) => a == b,
        (KeyCode::Other, KeyCode::Other) => true,
        _ => false,
    }
}

fn plain_press(k: &KeyInput) -> (b: bool)
    ensures
        b == is_plain_press(*k),
{
    let pressed = match k.kind {
        KeyKind::Press => true,
        _ => false,
    };
    pressed && k.state == STATE_NONE
}

fn pressed(k: &KeyInput, code: KeyCode, modifiers: u8) -> (b: bool)
    ensures
        b == pressed_with(*k, code, modifiers),
{
    is_key(k.code, code) && k.modifiers == modifiers && plain_press(k)
}

/// The editing operation that a key stands for in the given mode, if any.
pub fn edit_op(code: KeyCode, modifiers: u8, mode: EditMode) -> (r: Option<EditOp>)
    ensures
        r == edit_op_for(code, modifiers, mode),
{
    if is_key(code, KeyCode::Left) && modifiers == MOD_NONE {
        Some(EditOp::Backward)
    } else if is_key(code, KeyCode::Right) && modifiers == MOD_NONE {
        Some(EditOp::Forward)
    } else if is_key(code, KeyCode::Char('a')) && modifiers == MOD_CONTROL {
        Some(EditOp::MoveToHead)
    } else if is_key(code, KeyCode::Char('e')) && modifiers == MOD_CONTROL {
        Some(EditOp::MoveToTail)
    } else if is_key(code, KeyCode::Backspace) && modifiers == MOD_NONE {
        Some(EditOp::Erase)
    } else if is_key(code, KeyCode::Char('u')) && modifiers == MOD_CONTROL {
        Some(EditOp::EraseAll)
    } else {
        match code {
            KeyCode::Char(ch) => {
                if modifiers == MOD_NONE || modifiers == MOD_SHIFT {
                    match mode {
                        EditMode::Insert => Some(EditOp::Insert(ch)),
                        EditMode::Overwrite => Some(EditOp::Overwrite(ch)),
                    }
                } else {
                    None
                }
            },
            _ => None,
        }
    }
}

/// How the list picker reacts to an event.
pub fn picker_step(event: &TermEvent, list_empty: bool, mode: EditMode) -> (r: PickerStep)
    ensures
        r == picker_reaction(*event, list_empty, mode),
{
    match event {
        TermEvent::Key(k) => {
            if pressed(k, KeyCode::Enter, MOD_NONE) && !list_empty {
                PickerStep::Quit
            } else if pressed(k, KeyCode::Char('c'), MOD_CONTROL) {
                PickerStep::Abort
            } else if pressed(k, KeyCode::Up, MOD_NONE) {
                PickerStep::Up
            } else if pressed(k, KeyCode::Down, MOD_NONE) {
                PickerStep::Down
            } else if plain_press(k) {
                PickerStep::Edit(edit_op(k.code, k.modifiers, mode))
            } else {
                PickerStep::Stay
            }
        },
        TermEvent::Other => PickerStep::Stay,
    }
}

/// Whether a text prompt with `rule` accepts `value`.
pub fn accepts(rule: InputRule, value: &str) -> (b: bool)
    ensures
        b == rule_accepts(rule, value@),
{
    match rule {
        InputRule::Anything => true,
        InputRule::Integer => is_valid_integer(value),
    }
}

/// How the text prompt reacts to an event, given its rule and current text.
pub fn input_step(event: &TermEvent, mode: EditMode, rule: InputRule, value: &str) -> (r:
    InputStep)
    ensures
        r == input_reaction(*event, mode, rule, value@),
{
    match event {
        TermEvent::Key(k) => {
            if pressed(k, KeyCode::Enter, MOD_NONE) {
                if accepts(rule, value) {
                    InputStep::Quit
                } else {
                    InputStep::Reject
                }
            } else if pressed(k, KeyCode::Char('c'), MOD_CONTROL) {
                InputStep::Abort
            } else if plain_press(k) {
                InputStep::Edit(edit_op(k.code, k.modifiers, mode))
            } else {
                InputStep::Stay
            }
        },
        TermEvent::Other => InputStep::Stay,
    }
}


/// An item stays in the picker's list when its lower-case form contains the
/// lower-case form of the query.
pub open spec fn item_matches(item: Seq<char>, query: Seq<char>) -> bool {
    has_substring(lowercase(item), lowercase(query))
}

/// The items that match the query, in the order they come.
pub open spec fn matching_items(items: Seq<Seq<char>>, query: Seq<char>) -> Seq<Seq<char>>
    decreases items.len(),
{
    if items.len() == 0 {
        Seq::empty()
    } else {
        let rest = matching_items(items.drop_last(), query);
        if item_matches(items.last(), query) {
            rest.push(items.last())
        } else {
            rest
        }
    }
}

/// The picker's list holds exactly the matching items: every item it shows
/// matches the query and comes from the full list, and every matching item
/// of the full list is shown.
pub proof fn lemma_filter_keeps_exactly_matches(items: Seq<Seq<char>>, query: Seq<char>)
    ensures
        forall|j: int|
            0 <= j < matching_items(items, query).len() ==> item_matches(
                #[trigger] matching_items(items, query)[j],
                query,
            ) && items.contains(matching_items(items, query)[j]),
        forall|i: int|
            0 <= i < items.len() && item_matches(#[trigger] items[i], query) ==> matching_items(
                items,
                query,
            ).contains(items[i]),
    decreases items.len(),
{
    if items.len() > 0 {
        let init = items.drop_last();
        lemma_filter_keeps_exactly_matches(init, query);
        let rest = matching_items(init, query);
        let r = matching_items(items, query);
        assert forall|j: int| 0 <= j < r.len() implies item_matches(#[trigger] r[j], query)
            && items.contains(r[j]) by {
            if j < rest.len() {
                assert(r[j] == rest[j]);
                let k = choose|k: int| 0 <= k < init.len() && init[k] == rest[j];
                assert(items[k] == init[k]);
            } else {
                assert(r[j] == items.last());
                assert(items[items.len() - 1] == items.last());
            }
        }
        assert forall|i: int| 0 <= i < items.len() && item_matches(#[trigger] items[i], query)
            implies r.contains(items[i]) by {
            if i < items.len() - 1 {
                assert(init[i] == items[i]);
                let k = choose|k: int| 0 <= k < rest.len() && rest[k] == init[i];
                assert(r[k] == rest[k]);
            } else {
                assert(r[r.len() - 1] == items[i]);
            }
        }
    }
}

/// Filtering the picker's list again with the same query changes nothing.
pub proof fn lemma_filter_idempotent(items: Seq<Seq<char>>, query: Seq<char>)
    ensures
        matching_items(matching_items(items, query), query) == matching_items(items, query),
    decreases items.len(),
{
    if items.len() > 0 {
        let init = items.drop_last();
        lemma_filter_idempotent(init, query);
        let rest = matching_items(init, query);
        if item_matches(items.last(), query) {
            let r = rest.push(items.last());
            assert(r.drop_last() =~= rest);
        }
    }
}

/// The text `q` stands somewhere in `h` as a contiguous run of characters.
proof fn lemma_substring_equiv(h: Seq<char>, q: Seq<char>)
    ensures
        has_substring(h, q) <==> exists|i: int|
            0 <= i && i + q.len() <= h.len() && #[trigger] h.subrange(i, i + q.len()) == q,
{
    if has_substring(h, q) {
        let i = choose|i: int| occurs_at(h, q, i);
        assert(h.subrange(i, i + q.len()) == q);
    }
    if exists|i: int| 0 <= i && i + q.len() <= h.len() && #[trigger] h.subrange(i, i + q.len()) == q {
        let i = choose|i: int|
            0 <= i && i + q.len() <= h.len() && #[trigger] h.subrange(i, i + q.len()) == q;
        assert(occurs_at(h, q, i));
    }
}

/// The picker's list for a query is the full list, in order, restricted to
/// the items whose lower-case form holds the lower-case query as a
/// contiguous run of characters at some position.
pub proof fn lemma_filter_is_case_insensitive_substring_filter(items: Seq<Seq<char>>, query: Seq<char>)
    ensures
        matching_items(items, query) == items.filter(
            |x: Seq<char>|
                exists|i: int|
                    0 <= i && i + lowercase(query).len() <= lowercase(x).len() && #[trigger] lowercase(
                        x,
                    ).subrange(i, i + lowercase(query).len()) == lowercase(query),
        ),
    decreases items.len(),
{
    reveal(Seq::filter);
    if items.len() > 0 {
        lemma_filter_is_case_insensitive_substring_filter(items.drop_last(), query);
        lemma_substring_equiv(lowercase(items.last()), lowercase(query));
    }
}

/// A query whose lower-case form is empty shows every item.
pub proof fn lemma_empty_query_keeps_all(items: Seq<Seq<char>>, query: Seq<char>)
    requires
        lowercase(query).len() == 0,
    ensures
        matching_items(items, query) == items,
    decreases items.len(),
{
    if items.len() > 0 {
        lemma_empty_query_keeps_all(items.drop_last(), query);
        let hay = lowercase(items.last());
        assert(hay.subrange(0, 0) =~= lowercase(query));
        assert(occurs_at(hay, lowercase(query), 0));
        assert(items.drop_last().push(items.last()) =~= items);
    }
}

/// What each key edits: a character typed plainly or with Shift is inserted
/// (or overwrites, in overwrite mode), whatever the character; Left, Right
/// and Backspace move back, forward and erase; Ctrl+A, Ctrl+E and Ctrl+U go
/// to the start, to the end and erase everything; Ctrl with any other
/// character, and Enter, Up, Down and unknown keys, edit nothing.
pub proof fn lemma_edit_keys(ch: char, modifiers: u8, mode: EditMode)
    ensures
        (modifiers == 0 || modifiers == 1) ==> edit_op_for(KeyCode::Char(ch), modifiers, mode)
            == Some(
            match mode {
                EditMode::Insert => EditOp::Insert(ch),
                EditMode::Overwrite => EditOp::Overwrite(ch),
            },
        ),
        edit_op_for(KeyCode::Left, 0, mode) == Some(EditOp::Backward),
        edit_op_for(KeyCode::Right, 0, mode) == Some(EditOp::Forward),
        edit_op_for(KeyCode::Backspace, 0, mode) == Some(EditOp::Erase),
        edit_op_for(KeyCode::Char('a'), 2, mode) == Some(EditOp::MoveToHead),
        edit_op_for(KeyCode::Char('e'), 2, mode) == Some(EditOp::MoveToTail),
        edit_op_for(KeyCode::Char('u'), 2, mode) == Some(EditOp::EraseAll),
        (ch != 'a' && ch != 'e' && ch != 'u') ==> edit_op_for(KeyCode::Char(ch), 2, mode)
            is None,
        edit_op_for(KeyCode::Enter, modifiers, mode) is None,
        edit_op_for(KeyCode::Up, modifiers, mode) is None,
        edit_op_for(KeyCode::Down, modifiers, mode) is None,
        edit_op_for(KeyCode::Other, modifiers, mode) is None,
{
}

/// Every plain key press that is not Enter, Ctrl+C, Up or Down edits the
/// picker's query with exactly the operation the text prompt applies to its
/// text for the same key; in particular Backspace erases in both.
pub proof fn lemma_picker_edits_like_text_prompt(
    k: KeyInput,
    list_empty: bool,
    mode: EditMode,
    rule: InputRule,
    value: Seq<char>,
)
    requires
        k.kind == KeyKind::Press,
        k.state == 0,
        !(k.code == KeyCode::Enter && k.modifiers == 0),
        !(k.code == KeyCode::Char('c') && k.modifiers == 2),
        !(k.code == KeyCode::Up && k.modifiers == 0),
        !(k.code == KeyCode::Down && k.modifiers == 0),
    ensures
        picker_reaction(TermEvent::Key(k), list_empty, mode) == PickerStep::Edit(
            edit_op_for(k.code, k.modifiers, mode),
        ),
        input_reaction(TermEvent::Key(k), mode, rule, value) == InputStep::Edit(
            edit_op_for(k.code, k.modifiers, mode),
        ),
        (k.code == KeyCode::Backspace && k.modifiers == 0) ==> picker_reaction(
            TermEvent::Key(k),
            list_empty,
            mode,
        ) == PickerStep::Edit(Some(EditOp::Erase)),
{
}

/// The key event Ctrl+C.
pub open spec fn ctrl_c() -> TermEvent {
    TermEvent::Key(
        KeyInput {
            code: KeyCode::Char('c'),
            modifiers: MOD_CONTROL,
            kind: KeyKind::Press,
            state: STATE_NONE,
        },
    )
}

/// Ctrl+C gives up either prompt, whatever its state.
pub proof fn lemma_ctrl_c_aborts(list_empty: bool, mode: EditMode, rule: InputRule, value: Seq<char>)
    ensures
        picker_reaction(ctrl_c(), list_empty, mode) == PickerStep::Abort,
        input_reaction(ctrl_c(), mode, rule, value) == InputStep::Abort,
{
}

/// The picker never accepts while its list is empty, and the integer prompt
/// never accepts a text that does not parse as an `i32` once trimmed.
pub proof fn lemma_no_accept_without_value(event: TermEvent, mode: EditMode, value: Seq<char>)
    ensures
        picker_reaction(event, true, mode) != PickerStep::Quit,
        input_reaction(event, mode, InputRule::Integer, value) == InputStep::Quit ==> parsed_i32(
            trimmed(value),
        ) is Some,
{
}

/// The integer rule looks only at the trimmed text.
pub proof fn lemma_integer_rule_ignores_surrounding_space(value: Seq<char>)
    ensures
        rule_accepts(InputRule::Integer, value) == rule_accepts(InputRule::Integer, trimmed(value)),
{
    lemma_trimmed_idempotent(value);
}

/// The picker's list for a query: the items that match it, in order.
pub fn filter_items(items: &Vec<String>, query: &str) -> (r: Vec<String>)
    ensures
        strings_view(r@) == matching_items(strings_view(items@), query@),
{
    let lower_query = to_lowercase(query);
    let needle = chars_of(lower_query.as_str());
    let ghost all = strings_view(items@);
    let n = items.len();
    let mut r: Vec<String> = Vec::new();
    let mut i: usize = 0;
    while i < n
        invariant
            n == items@.len(),
            i <= n,
            all == strings_view(items@),
            needle@ == lowercase(query@),
            strings_view(r@) == matching_items(all.take(i as int), query@),
        decreases n - i,
    {
        let item = &items[i];
        let lower_item = to_lowercase(item.as_str());
        let hay = chars_of(lower_item.as_str());
        let keep = contains_chars(&hay, &needle);
        proof {
            assert(all.take(i + 1).drop_last() =~= all.take(i as int));
            assert(all.take(i + 1).last() == item@);
        }
        if keep {
            let ghost before = strings_view(r@);
            r.push(item.clone());
            assert(strings_view(r@) =~= before.push(item@));
        }
        i = i + 1;
    }
    assert(all.take(n as int) =~= all);
    r
}

/// The new list after the query changed from `before` to `after`, or `None`
/// when the query did not change and the list stays as it is.
pub fn refilter(items: &Vec<String>, before: &String, after: &String) -> (r: Option<Vec<String>>)
    ensures
        before@ == after@ ==> r is None,
        before@ != after@ ==> (r matches Some(list) && strings_view(list@) == matching_items(
            strings_view(items@),
            after@,
        )),
{
    if before.eq(after) {
        None
    } else {
        Some(filter_items(items, after.as_str()))
    }
}

} // verus!
