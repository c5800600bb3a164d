use vstd::prelude::*;

use crate::text::{
    first_word_of, is_white_space, lemma_first_word_of_word_then_space, lemma_pad_right_shape, pad_right,
    pad_right_to,
};

verus! {

/// The commit types of the Conventional Commits convention, each with
/// the description that is shown beside it.
pub open spec fn commit_type_table() -> Seq<(Seq<char>, Seq<char>)> {
    seq![
        ("feat"@, "A new feature"@),
        ("fix"@, "A bug fix"@),
        ("docs"@, "Documentation only changes"@),
        ("style"@, "Changes that do not affect the meaning of the code (white-space, formatting, etc.)"@),
        ("refactor"@, "A code change that neither fixes a bug nor adds a feature"@),
        ("perf"@, "A code change that improves performance"@),
        ("test"@, "Adding missing tests or correcting existing tests"@),
        ("chore"@, "Other changes that don't modify src or test files"@),
        ("ci"@, "Changes to our CI configuration files and scripts"@),
        ("build"@, "Changes that affect the build system or external dependencies"@),
        ("revert"@, "Reverts a previous commit"@),
    ]
}

/// The views of a list of (type, description) pairs.
pub open spec fn pairs_view(v: Seq<(&str, &str)>) -> Seq<(Seq<char>, Seq<char>)> {
    Seq::new(v.len(), |i: int| (v[i].0@, v[i].1@))
}

/// The list of commit types offered to the user, in the order shown.
pub fn build_commit_types() -> (r: Vec<(&'static str, &'static str)>)
    ensures
        pairs_view(r@) == commit_type_table(),
{
    let r = vec![
        ("feat", "A new feature"),
        ("fix", "A bug fix"),
        ("docs", "Documentation only changes"),
        (
            "style",
            "Changes that do not affect the meaning of the code (white-space, formatting, etc.)",
        ),
        ("refactor", "A code change that neither fixes a bug nor adds a feature"),
        ("perf", "A code change that improves performance"),
        ("test", "Adding missing tests or correcting existing tests"),
        ("chore", "Other changes that don't modify src or test files"),
        ("ci", "Changes to our CI configuration files and scripts"),
        ("build", "Changes that affect the build system or external dependencies"),
        ("revert", "Reverts a previous commit"),
    ];
    assert(pairs_view(r@) =~= commit_type_table());
    r
}


/// The views of a list of strings.
pub open spec fn strings_view(v: Seq<String>) -> Seq<Seq<char>> {
    Seq::new(v.len(), |i: int| v[i]@)
}

/// Length in bytes of the UTF-8 encoding of `s` (what `str::len` gives).
pub open spec fn utf8_len(s: Seq<char>) -> nat {
    vstd::utf8::encode_utf8(s).len()
}

/// The greatest byte length of a type in the list (0 for an empty list).
pub open spec fn max_type_len(types: Seq<(Seq<char>, Seq<char>)>) -> nat
    decreases types.len(),
{
    if types.len() == 0 {
        0
    } else {
        let m = max_type_len(types.drop_last());
        let l = utf8_len(types.last().0);
        if l > m {
            l
        } else {
            m
        }
    }
}

/// One line of the type menu: the type left-aligned in `width` columns,
/// then " - " and the description.
pub open spec fn type_line(entry: (Seq<char>, Seq<char>), width: nat) -> Seq<char> {
    pad_right(entry.0, width) + " - "@ + entry.1
}

/// The menu lines for a list of types: all types are aligned in a column
/// four wider than the longest type.
pub open spec fn formatted_types(types: Seq<(Seq<char>, Seq<char>)>) -> Seq<Seq<char>> {
    Seq::new(types.len(), |i: int| type_line(types[i], max_type_len(types) + 4))
}

/// The lines of the type menu, in the order of `commit_types`, each type
/// padded so that the descriptions line up.
pub fn format_commit_types(commit_types: Vec<(&str, &str)>) -> (r: Vec<String>)
    requires
        forall|i: int|
            0 <= i < commit_types@.len() ==> utf8_len(#[trigger] commit_types@[i].0@) + 4
                <= usize::MAX,
    ensures
        strings_view(r@) == formatted_types(pairs_view(commit_types@)),
{
    let ghost types = pairs_view(commit_types@);
    let n = commit_types.len();
    let mut max_len: usize = 0;
    let mut i: usize = 0;
    while i < n
        invariant
            n == commit_types@.len(),
            i <= n,
            types == pairs_view(commit_types@),
            max_len == max_type_len(types.take(i as int)),
            max_len + 4 <= usize::MAX,
            forall|k: int|
                0 <= k < n ==> utf8_len(#[trigger] commit_types@[k].0@) + 4 <= usize::MAX,
        decreases n - i,
    {
        let typ = commit_types[i].0;
        let l = typ.len();
        proof {
            assert(types.take(i + 1).drop_last() =~= types.take(i as int));
            assert(types[i as int].0 == commit_types@[i as int].0@);
            assert(utf8_len(commit_types@[i as int].0@) + 4 <= usize::MAX);
        }
        if l > max_len {
            max_len = l;
        }
        i = i + 1;
    }
    assert(types.take(n as int) =~= types);
    let width = max_len + 4;
    proof {
        reveal_strlit(" - ");
    }
    let mut r: Vec<String> = Vec::new();
    let mut j: usize = 0;
    while j < n
        invariant
            n == commit_types@.len(),
            j <= n,
            types == pairs_view(commit_types@),
            width == max_type_len(types) + 4,
            r@.len() == j,
            forall|k: int| 0 <= k < j ==> (#[trigger] r@[k])@ == type_line(types[k], width as nat),
        decreases n - j,
    {
        let (typ, desc) = commit_types[j];
        let mut line = pad_right_to(typ, width);
        line.append(" - ");
        line.append(desc);
        r.push(line);
        j = j + 1;
    }
    assert(strings_view(r@) =~= formatted_types(types));
    r
}


/// A commit type that is one word: not empty and free of white space.
pub open spec fn is_single_word(t: Seq<char>) -> bool {
    t.len() > 0 && forall|k: int| 0 <= k < t.len() ==> !is_white_space(#[trigger] t[k])
}

/// The menu's column width comes from the longest type: no type is longer
/// in bytes, some type is that long, and an empty list gives 0.
pub proof fn lemma_max_type_len_is_longest(types: Seq<(Seq<char>, Seq<char>)>)
    ensures
        forall|i: int| 0 <= i < types.len() ==> utf8_len(#[trigger] types[i].0) <= max_type_len(types),
        types.len() > 0 ==> exists|i: int|
            0 <= i < types.len() && utf8_len(#[trigger] types[i].0) == max_type_len(types),
        types.len() == 0 ==> max_type_len(types) == 0,
    decreases types.len(),
{
    if types.len() > 0 {
        let t = types.drop_last();
        lemma_max_type_len_is_longest(t);
        assert forall|i: int| 0 <= i < types.len() implies utf8_len(#[trigger] types[i].0)
            <= max_type_len(types) by {
            if i < types.len() - 1 {
                assert(types[i] == t[i]);
            }
        }
        if utf8_len(types.last().0) > max_type_len(t) {
            assert(utf8_len(types[types.len() - 1].0) == max_type_len(types));
        } else if t.len() > 0 {
            let j = choose|j: int| 0 <= j < t.len() && utf8_len(#[trigger] t[j].0) == max_type_len(t);
            assert(types[j] == t[j]);
        } else {
            assert(utf8_len(types[0].0) == max_type_len(types));
        }
    }
}

/// Each menu line is its type, then spaces up to the shared column (four
/// past the longest type's byte length, or right after the type when it is
/// wider), then " - " and its description.
pub proof fn lemma_menu_line_shape(types: Seq<(Seq<char>, Seq<char>)>, i: int)
    requires
        0 <= i < types.len(),
    ensures
        ({
            let line = formatted_types(types)[i];
            let t = types[i].0;
            let w = max_type_len(types) + 4;
            let col = if t.len() < w { w } else { t.len() };
            &&& line.take(t.len() as int) == t
            &&& forall|k: int| t.len() <= k < col ==> #[trigger] line[k] == ' '
            &&& line.skip(col as int) == " - "@ + types[i].1
        }),
{
    let line = formatted_types(types)[i];
    let t = types[i].0;
    let w = max_type_len(types) + 4;
    let p = pad_right(t, w);
    lemma_pad_right_shape(t, w);
    assert(line == p + " - "@ + types[i].1);
    assert(line.take(t.len() as int) =~= p.take(t.len() as int));
    assert forall|k: int| t.len() <= k < p.len() implies #[trigger] line[k] == ' ' by {
        assert(line[k] == p[k]);
    }
    assert(line.skip(p.len() as int) =~= " - "@ + types[i].1);
}

/// Picking a line of the type menu gives back its type: the first word of
/// every menu line is the type it shows, for every type that is one word.
pub proof fn lemma_menu_line_gives_its_type(types: Seq<(Seq<char>, Seq<char>)>, i: int)
    requires
        0 <= i < types.len(),
        is_single_word(types[i].0),
    ensures
        first_word_of(formatted_types(types)[i]) == Some(types[i].0),
{
    let t = types[i].0;
    let w = max_type_len(types) + 4;
    let line = formatted_types(types)[i];
    reveal_strlit(" - ");
    assert(line == pad_right(t, w) + " - "@ + types[i].1);
    assert(line.take(t.len() as int) =~= t);
    assert(line[t.len() as int] == ' ');
    assert(is_white_space(' '));
    lemma_first_word_of_word_then_space(line, t);
}

/// Every type of the built-in table is one word.
pub proof fn lemma_commit_types_are_words()
    ensures
        forall|i: int|
            0 <= i < commit_type_table().len() ==> is_single_word(#[trigger] commit_type_table()[i].0),
{
    reveal_strlit("feat");
    reveal_strlit("fix");
    reveal_strlit("docs");
    reveal_strlit("style");
    reveal_strlit("refactor");
    reveal_strlit("perf");
    reveal_strlit("test");
    reveal_strlit("chore");
    reveal_strlit("ci");
    reveal_strlit("build");
    reveal_strlit("revert");
    let table = commit_type_table();
    assert forall|i: int| 0 <= i < table.len() implies is_single_word(#[trigger] table[i].0) by {
        let t = table[i].0;
        assert forall|k: int| 0 <= k < t.len() implies !is_white_space(#[trigger] t[k]) by {
            if i == 0 { assert(t =~= seq!['f', 'e', 'a', 't']); }
            else if i == 1 { assert(t =~= seq!['f', 'i', 'x']); }
            else if i == 2 { assert(t =~= seq!['d', 'o', 'c', 's']); }
            else if i == 3 { assert(t =~= seq!['s', 't', 'y', 'l', 'e']); }
            else if i == 4 { assert(t =~= seq!['r', 'e', 'f', 'a', 'c', 't', 'o', 'r']); }
            else if i == 5 { assert(t =~= seq!['p', 'e', 'r', 'f']); }
            else if i == 6 { assert(t =~= seq!['t', 'e', 's', 't']); }
            else if i == 7 { assert(t =~= seq!['c', 'h', 'o', 'r', 'e']); }
            else if i == 8 { assert(t =~= seq!['c', 'i']); }
            else if i == 9 { assert(t =~= seq!['b', 'u', 'i', 'l', 'd']); }
            else { assert(t =~= seq!['r', 'e', 'v', 'e', 'r', 't']); }
        }
    }
}

/// Picking any line of the menu built from the built-in table gives back
/// exactly the commit type of that line.
pub proof fn lemma_menu_gives_commit_type(i: int)
    requires
        0 <= i < commit_type_table().len(),
    ensures
        first_word_of(formatted_types(commit_type_table())[i]) == Some(commit_type_table()[i].0),
{
    lemma_commit_types_are_words();
    lemma_menu_line_gives_its_type(commit_type_table(), i);
}

/// The first line of a commit message: `type(scope): description`, where the
/// parenthesised scope is left out when the scope is empty.
pub open spec fn commit_header(commit_type: Seq<char>, scope: Seq<char>, description: Seq<char>) -> Seq<char> {
    let scope_part = if scope.len() == 0 {
        Seq::empty()
    } else {
        "("@ + scope + ")"@
    };
    commit_type + scope_part + ": "@ + description
}

/// A paragraph that follows the header after a blank line, or nothing when
/// the paragraph is empty.
pub open spec fn paragraph(text: Seq<char>) -> Seq<char> {
    if text.len() == 0 {
        Seq::empty()
    } else {
        "\n\n"@ + text
    }
}

/// The whole commit message: header, then body and footer each after a
/// blank line when they are not empty.
pub open spec fn commit_message(
    commit_type: Seq<char>,
    scope: Seq<char>,
    description: Seq<char>,
    body: Seq<char>,
    footer: Seq<char>,
) -> Seq<char> {
    commit_header(commit_type, scope, description) + paragraph(body) + paragraph(footer)
}

/// A commit message starts with its header line; with neither body nor
/// footer it is the header alone.
pub proof fn lemma_message_starts_with_header(
    commit_type: Seq<char>,
    scope: Seq<char>,
    description: Seq<char>,
    body: Seq<char>,
    footer: Seq<char>,
)
    ensures
        ({
            let header = commit_header(commit_type, scope, description);
            let message = commit_message(commit_type, scope, description, body, footer);
            &&& message.take(header.len() as int) == header
            &&& (body.len() == 0 && footer.len() == 0 ==> message == header)
        }),
{
    let header = commit_header(commit_type, scope, description);
    let message = commit_message(commit_type, scope, description, body, footer);
    assert(message.take(header.len() as int) =~= header);
    if body.len() == 0 && footer.len() == 0 {
        assert(message =~= header);
    }
}

/// How a message is made up: `type: description` without a scope,
/// `type(scope): description` with one; a non-empty body adds a blank line
/// and the body, and a non-empty footer then adds a blank line and the
/// footer at the very end, whatever the scope and the body are.
pub proof fn lemma_message_parts(
    commit_type: Seq<char>,
    scope: Seq<char>,
    description: Seq<char>,
    body: Seq<char>,
    footer: Seq<char>,
)
    ensures
        commit_message(commit_type, Seq::empty(), description, Seq::empty(), Seq::empty())
            == commit_type + ": "@ + description,
        scope.len() > 0 ==> commit_message(commit_type, scope, description, Seq::empty(), Seq::empty())
            == commit_type + "("@ + scope + ")"@ + ": "@ + description,
        body.len() > 0 ==> commit_message(commit_type, scope, description, body, Seq::empty())
            == commit_message(commit_type, scope, description, Seq::empty(), Seq::empty())
            + "\n\n"@ + body,
        footer.len() > 0 ==> commit_message(commit_type, scope, description, body, footer)
            == commit_message(commit_type, scope, description, body, Seq::empty()) + "\n\n"@
            + footer,
        footer.len() > 0 ==> ({
            let m = commit_message(commit_type, scope, description, body, footer);
            m.skip(m.len() - footer.len() - 2) == "\n\n"@ + footer
        }),
{
    let e = Seq::<char>::empty();
    assert(commit_message(commit_type, e, description, e, e) =~= commit_type + ": "@ + description);
    if scope.len() > 0 {
        assert(commit_message(commit_type, scope, description, e, e) =~= commit_type + "("@ + scope
            + ")"@ + ": "@ + description);
    }
    if body.len() > 0 {
        assert(commit_message(commit_type, scope, description, body, e) =~= commit_message(
            commit_type,
            scope,
            description,
            e,
            e,
        ) + "\n\n"@ + body);
    }
    if footer.len() > 0 {
        let m = commit_message(commit_type, scope, description, body, footer);
        let w = commit_message(commit_type, scope, description, body, e);
        assert(m =~= w + "\n\n"@ + footer);
        reveal_strlit("\n\n");
        assert(m.skip(m.len() - footer.len() - 2) =~= "\n\n"@ + footer);
    }
}

/// Assembles a Conventional Commits message from its parts.
pub fn build_commit_message(
    commit_type: &str,
    scope: &str,
    description: &str,
    body: &str,
    footer: &str,
) -> (r: String)
    ensures
        r@ == commit_message(commit_type@, scope@, description@, body@, footer@),
{
    let mut message = String::from_str(commit_type);
    if !scope.is_empty() {
        message.append("(");
        message.append(scope);
        message.append(")");
    }
    message.append(": ");
    message.append(description);
    proof {
        assert(message@ =~= commit_header(commit_type@, scope@, description@));
    }
    let ghost header = message@;
    if !body.is_empty() {
        message.append("\n\n");
        message.append(body);
    }
    proof {
        assert(message@ =~= header + paragraph(body@));
    }
    let ghost with_body = message@;
    if !footer.is_empty() {
        message.append("\n\n");
        message.append(footer);
    }
    proof {
        assert(message@ =~= with_body + paragraph(footer@));
    }
    message
}


/// Why a commit was not made.
#[derive(Clone, Debug)]
pub enum CommitError {
    /// The working tree has no change to commit.
    NothingToCommit,
    /// `git commit` ran and failed; the text says how it exited.
    CommitFailed(String),
}

/// The text that reports a commit error.
pub open spec fn commit_error_text(e: CommitError) -> Seq<char> {
    match e {
        CommitError::NothingToCommit => "Nothing to commit, working directory clean"@,
        CommitError::CommitFailed(status) => "git commit failed with status "@ + status@,
    }
}

impl CommitError {
    /// The text that reports this error.
    pub fn message(&self) -> (r: String)
        ensures
            r@ == commit_error_text(*self),
    {
        match self {
            CommitError::NothingToCommit => String::from_str("Nothing to commit, working directory clean"),
            CommitError::CommitFailed(status) => {
                let mut text = String::from_str("git commit failed with status ");
                text.append(status.as_str());
                text
            },
        }
    }
}

/// A commit is only attempted when the repository reports at least one
/// changed entry.
pub fn check_worktree(changed_entries: usize) -> (r: Result<(), CommitError>)
    ensures
        changed_entries > 0 ==> r is Ok,
        changed_entries == 0 ==> r == Err::<(), CommitError>(CommitError::NothingToCommit),
{
    if changed_entries == 0 {
        Err(CommitError::NothingToCommit)
    } else {
        Ok(())
    }
}

/// The outcome of `git commit` from whether it exited successfully and the
/// text of its exit status.
pub fn check_commit_status(success: bool, status: &str) -> (r: Result<(), CommitError>)
    ensures
        success ==> r is Ok,
        !success ==> (r matches Err(CommitError::CommitFailed(text)) && text@ == status@),
{
    if success {
        Ok(())
    } else {
        Err(CommitError::CommitFailed(String::from_str(status)))
    }
}

/// The arguments given to `git` to record the commit.
pub fn git_commit_args(message: &str) -> (r: Vec<String>)
    ensures
        strings_view(r@) == seq!["commit"@, "-m"@, message@],
{
    let mut r: Vec<String> = Vec::new();
    r.push(String::from_str("commit"));
    r.push(String::from_str("-m"));
    r.push(String::from_str(message));
    assert(strings_view(r@) =~= seq!["commit"@, "-m"@, message@]);
    r
}

} // verus!
