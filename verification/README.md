# git_commitizen

An interactive helper that writes Conventional Commits messages and runs
`git commit`, with its logic verified by Verus.

- `src/` – the verified library
  - `commit.rs`: the commit-type table, the aligned type menu, the message
    format, and the checks around `git commit` (clean tree, exit status).
  - `text.rs`: Unicode white space, trimming, first word, substring search,
    padding, and the lower-case mapping taken from std.
  - `number.rs`: the `i32` parser behind the issue-number prompt.
  - `prompt.rs`: what the list picker and the text prompt do with each key,
    and how the picker's list is filtered by the typed query.
  - `wizard.rs`: the dialogue as a state machine from answers to questions,
    ending in a commit message.
- `app/` – the terminal program: promkit prompts, the editor, git2 and the
  `git` process, driven by the library's decisions.
- `tests/` – tests of the library on concrete values.
