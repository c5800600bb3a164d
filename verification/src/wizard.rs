use vstd::prelude::*;

use crate::commit::{build_commit_message, commit_message};
use crate::text::{first_word, first_word_of, lowercase, to_lowercase, trim, trimmed};

verus! {

/// Where the commit dialogue stands: which answer it waits for.
#[derive(Clone, Copy, Debug, PartialEq, Eq, Structural)]
pub enum Stage {
    ChooseType,
    Scope,
    Description,
    Body,
    EditBody,
    Footer,
    FooterType,
    Issue,
    Confirm,
    Done,
}

/// The commit dialogue: its stage and the answers gathered so far
/// (`S` is `String` when it runs, `Seq<char>` in contracts).
#[derive(Clone, Debug)]
pub struct Wizard<S> {
    pub stage: Stage,
    pub commit_type: S,
    pub scope: S,
    pub description: S,
    pub body: S,
    pub footer_type: S,
    pub footer: S,
}

/// What the dialogue asks for next, or how it ends.
#[derive(Clone, Debug)]
pub enum Ask<S> {
    /// Pick a commit type from the type menu.
    SelectType,
    /// Type the (optional) scope.
    Scope,
    /// Type the short description.
    Description,
    /// Type the body, or `e` to write it in an editor.
    Body,
    /// Open an editor on an empty file; its content is the body.
    Editor,
    /// Pick "No" or "Yes": add a footer?
    Footer,
    /// Pick the footer keyword ("fix" or "close").
    FooterType,
    /// Type the issue number (an integer).
    IssueNumber,
    /// Pick "Yes" or "No": proceed with the commit?
    Confirm,
    /// Commit with this message.
    Commit(S),
    /// The user declined the commit.
    Abort,
    /// The chosen menu line held no commit type; nothing more is asked.
    Stop,
}

impl View for Wizard<String> {
    type V = Wizard<Seq<char>>;

    open spec fn view(&self) -> Wizard<Seq<char>> {
        Wizard {
            stage: self.stage,
            commit_type: self.commit_type@,
            scope: self.scope@,
            description: self.description@,
            body: self.body@,
            footer_type: self.footer_type@,
            footer: self.footer@,
        }
    }
}

impl View for Ask<String> {
    type V = Ask<Seq<char>>;

    open spec fn view(&self) -> Ask<Seq<char>> {
        match self {
            Ask::SelectType => Ask::SelectType,
            Ask::Scope => Ask::Scope,
            Ask::Description => Ask::Description,
            Ask::Body => Ask::Body,
            Ask::Editor => Ask::Editor,
            Ask::Footer => Ask::Footer,
            Ask::FooterType => Ask::FooterType,
            Ask::IssueNumber => Ask::IssueNumber,
            Ask::Confirm => Ask::Confirm,
            Ask::Commit(m) => Ask::Commit(m@),
            Ask::Abort => Ask::Abort,
            Ask::Stop => Ask::Stop,
        }
    }
}

/// The dialogue before any answer.
pub open spec fn initial_wizard() -> Wizard<Seq<char>> {
    Wizard {
        stage: Stage::ChooseType,
        commit_type: Seq::empty(),
        scope: Seq::empty(),
        description: Seq::empty(),
        body: Seq::empty(),
        footer_type: Seq::empty(),
        footer: Seq::empty(),
    }
}

/// A body answer asks for the editor when, trimmed and in lower case, it is `e`.
pub open spec fn asks_for_editor(answer: Seq<char>) -> bool {
    lowercase(trimmed(answer)) == "e"@
}

/// The footer line: `<keyword>: #<issue>`.
pub open spec fn footer_line(keyword: Seq<char>, issue: Seq<char>) -> Seq<char> {
    keyword + ": #"@ + issue
}

/// The commit message that the gathered answers make.
pub open spec fn message_of(w: Wizard<Seq<char>>) -> Seq<char> {
    commit_message(w.commit_type, w.scope, w.description, w.body, w.footer)
}

/// One step of the dialogue: the answer to what it asked moves it on and
/// says what to ask next.
pub open spec fn advance(w: Wizard<Seq<char>>, answer: Seq<char>) -> (Wizard<Seq<char>>, Ask<Seq<char>>) {
    match w.stage {
        Stage::ChooseType => match first_word_of(answer) {
            Some(t) => (Wizard { stage: Stage::Scope, commit_type: t, ..w }, Ask::Scope),
            None => (Wizard { stage: Stage::Done, ..w }, Ask::Stop),
        },
        Stage::Scope => (Wizard { stage: Stage::Description, scope: answer, ..w }, Ask::Description),
        Stage::Description => (
            Wizard { stage: Stage::Body, description: answer, ..w },
            Ask::Body,
        ),
        Stage::Body => if asks_for_editor(answer) {
            (Wizard { stage: Stage::EditBody, ..w }, Ask::Editor)
        } else {
            (Wizard { stage: Stage::Footer, body: answer, ..w }, Ask::Footer)
        },
        Stage::EditBody => (Wizard { stage: Stage::Footer, body: answer, ..w }, Ask::Footer),
        Stage::Footer => if answer == "Yes"@ {
            (Wizard { stage: Stage::FooterType, ..w }, Ask::FooterType)
        } else {
            (Wizard { stage: Stage::Confirm, footer: Seq::empty(), ..w }, Ask::Confirm)
        },
        Stage::FooterType => (
            Wizard { stage: Stage::Issue, footer_type: answer, ..w },
            Ask::IssueNumber,
        ),
        Stage::Issue => (
            Wizard { stage: Stage::Confirm, footer: footer_line(w.footer_type, answer), ..w },
            Ask::Confirm,
        ),
        Stage::Confirm => if answer == "Yes"@ {
            (Wizard { stage: Stage::Done, ..w }, Ask::Commit(message_of(w)))
        } else {
            (Wizard { stage: Stage::Done, ..w }, Ask::Abort)
        },
        Stage::Done => (w, Ask::Stop),
    }
}

/// A commit is asked for only when the dialogue stands at the confirmation
/// and the answer is "Yes", and it carries the message of the answers
/// gathered; once the dialogue is done it stays done and asks nothing more.
pub proof fn lemma_commit_only_on_confirmation(w: Wizard<Seq<char>>, answer: Seq<char>)
    ensures
        advance(w, answer).1 is Commit ==> w.stage == Stage::Confirm && answer == "Yes"@
            && advance(w, answer).1 == Ask::Commit(message_of(w)),
        w.stage == Stage::Done ==> advance(w, answer) == (w, Ask::<Seq<char>>::Stop),
{
}

/// The dialogue without footer: after the menu line, scope, description,
/// a body that does not ask for the editor and a footer answer other than
/// "Yes", it asks for confirmation; "Yes" then commits the message of those
/// answers with no footer, any other answer aborts.
pub proof fn lemma_dialogue_without_footer(
    line: Seq<char>,
    scope: Seq<char>,
    description: Seq<char>,
    body: Seq<char>,
    footer_answer: Seq<char>,
    confirm: Seq<char>,
)
    requires
        first_word_of(line) is Some,
        !asks_for_editor(body),
        footer_answer != "Yes"@,
    ensures
        ({
            let (w1, a1) = advance(initial_wizard(), line);
            let (w2, a2) = advance(w1, scope);
            let (w3, a3) = advance(w2, description);
            let (w4, a4) = advance(w3, body);
            let (w5, a5) = advance(w4, footer_answer);
            let (w6, a6) = advance(w5, confirm);
            &&& a1 == Ask::<Seq<char>>::Scope
            &&& a2 == Ask::<Seq<char>>::Description
            &&& a3 == Ask::<Seq<char>>::Body
            &&& a4 == Ask::<Seq<char>>::Footer
            &&& a5 == Ask::<Seq<char>>::Confirm
            &&& a6 == if confirm == "Yes"@ {
                Ask::Commit(
                    commit_message(
                        first_word_of(line)->Some_0,
                        scope,
                        description,
                        body,
                        Seq::empty(),
                    ),
                )
            } else {
                Ask::<Seq<char>>::Abort
            }
        }),
{
}

/// The dialogue with a footer: answering "Yes" to the footer question, then
/// the keyword and the issue number, makes the footer `<keyword>: #<issue>`.
pub proof fn lemma_dialogue_with_footer(
    line: Seq<char>,
    scope: Seq<char>,
    description: Seq<char>,
    body: Seq<char>,
    keyword: Seq<char>,
    issue: Seq<char>,
)
    requires
        first_word_of(line) is Some,
        !asks_for_editor(body),
    ensures
        ({
            let (w1, a1) = advance(initial_wizard(), line);
            let (w2, a2) = advance(w1, scope);
            let (w3, a3) = advance(w2, description);
            let (w4, a4) = advance(w3, body);
            let (w5, a5) = advance(w4, "Yes"@);
            let (w6, a6) = advance(w5, keyword);
            let (w7, a7) = advance(w6, issue);
            let (w8, a8) = advance(w7, "Yes"@);
            &&& a5 == Ask::<Seq<char>>::FooterType
            &&& a6 == Ask::<Seq<char>>::IssueNumber
            &&& a7 == Ask::<Seq<char>>::Confirm
            &&& a8 == Ask::Commit(
                commit_message(
                    first_word_of(line)->Some_0,
                    scope,
                    description,
                    body,
                    keyword + ": #"@ + issue,
                ),
            )
        }),
{
}

/// The body written in the editor: a body answer that asks for the editor
/// is not kept; the editor's text becomes the body.
pub proof fn lemma_editor_text_becomes_body(
    w: Wizard<Seq<char>>,
    answer: Seq<char>,
    text: Seq<char>,
)
    requires
        w.stage == Stage::Body,
        asks_for_editor(answer),
    ensures
        advance(w, answer).1 == Ask::<Seq<char>>::Editor,
        advance(advance(w, answer).0, text).1 == Ask::<Seq<char>>::Footer,
        advance(advance(w, answer).0, text).0 == (Wizard { stage: Stage::Footer, body: text, ..w }),
{
}

/// Whether a body answer asks for the editor.
pub fn wants_editor(answer: &str) -> (b: bool)
    ensures
        b == asks_for_editor(answer@),
{
    let t = trim(answer);
    let lower = to_lowercase(t.as_str());
    let e = String::from_str("e");
    lower.eq(&e)
}

/// The editor to open: the one named by the environment, else the platform's
/// default (`notepad` on Windows, `vim` elsewhere).
pub fn editor_command(from_env: Option<String>, windows: bool) -> (r: String)
    ensures
        from_env matches Some(e) ==> r@ == e@,
        from_env is None ==> r@ == (if windows { "notepad"@ } else { "vim"@ }),
{
    match from_env {
        Some(e) => e,
        None => if windows {
            String::from_str("notepad")
        } else {
            String::from_str("vim")
        },
    }
}

fn is_yes(answer: &String) -> (b: bool)
    ensures
        b == (answer@ == "Yes"@),
{
    let yes = String::from_str("Yes");
    answer.eq(&yes)
}

impl Wizard<String> {
    /// The dialogue before any answer, and its first question.
    pub fn start() -> (r: (Wizard<String>, Ask<String>))
        ensures
            r.0@ == initial_wizard(),
            r.1@ == Ask::<Seq<char>>::SelectType,
    {
        let w = Wizard {
            stage: Stage::ChooseType,
            commit_type: String::new(),
            scope: String::new(),
            description: String::new(),
            body: String::new(),
            footer_type: String::new(),
            footer: String::new(),
        };
        (w, Ask::SelectType)
    }

    /// The commit message that the answers gathered so far make.
    pub fn message(&self) -> (r: String)
        ensures
            r@ == message_of(self@),
    {
        build_commit_message(
            self.commit_type.as_str(),
            self.scope.as_str(),
            self.description.as_str(),
            self.body.as_str(),
            self.footer.as_str(),
        )
    }

    /// Takes the answer to the last question and says what comes next.
    pub fn answer(&mut self, answer: String) -> (r: Ask<String>)
        ensures
            (final(self)@, r@) == advance(old(self)@, answer@),
    {
        match self.stage {
            Stage::ChooseType => match first_word(answer.as_str()) {
                Some(t) => {
                    self.commit_type = t;
                    self.stage = Stage::Scope;
                    Ask::Scope
                },
                None => {
                    self.stage = Stage::Done;
                    Ask::Stop
                },
            },
            Stage::Scope => {
                self.scope = answer;
                self.stage = Stage::Description;
                Ask::Description
            },
            Stage::Description => {
                self.description = answer;
                self.stage = Stage::Body;
                Ask::Body
            },
            Stage::Body => {
                if wants_editor(answer.as_str()) {
                    self.stage = Stage::EditBody;
                    Ask::Editor
                } else {
                    self.body = answer;
                    self.stage = Stage::Footer;
                    Ask::Footer
                }
            },
            Stage::EditBody => {
                self.body = answer;
                self.stage = Stage::Footer;
                Ask::Footer
            },
            Stage::Footer => {
                if is_yes(&answer) {
                    self.stage = Stage::FooterType;
                    Ask::FooterType
                } else {
                    self.footer = String::new();
                    self.stage = Stage::Confirm;
                    Ask::Confirm
                }
            },
            Stage::FooterType => {
                self.footer_type = answer;
                self.stage = Stage::Issue;
                Ask::IssueNumber
            },
            Stage::Issue => {
                let mut line = self.footer_type.clone();
                line.append(": #");
                line.append(answer.as_str());
                self.footer = line;
                self.stage = Stage::Confirm;
                Ask::Confirm
            },
            Stage::Confirm => {
                if is_yes(&answer) {
                    let m = self.message();
                    self.stage = Stage::Done;
                    Ask::Commit(m)
                } else {
                    self.stage = Stage::Done;
                    Ask::Abort
                }
            },
            Stage::Done => Ask::Stop,
        }
    }
}

} // verus!
