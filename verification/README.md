# qbar

The rational proof assistant's shell, with its logic verified by Verus.

- `src/` is the verified library:
  - `command.rs`: the command line (edit buffer, cursor, history) and its
    key handling, the help output and report texts, and laws relating its
    actions;
  - `parse.rs`: reading one expression out of classified symbols, against a
    recursive specification, with laws on its errors;
  - `expr.rs`: `Vec`-based expressions and the trees they denote;
  - `text.rs`: whitespace, trimming, decimal text and character positions
    of UTF-8 byte offsets;
  - `term.rs`: newline text and the yes/no prompt's decisions;
  - `shell.rs`: exit statuses and the shell loop's decisions;
  - `web.rs`, `docs.rs`: color styles, styled-text markup, the bounded
    screen buffer and the page states of the web front ends;
  - `util.rs`, `hash.rs`, `database.rs`: formatting with a spacer, hash
    records and the database interfaces.
- `app/` is the terminal program: terminal I/O, the key-event loop and the
  hash process, calling the library for every decision.
- `tests/` runs the library on concrete values.
