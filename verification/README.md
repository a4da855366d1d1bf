# projektor

A terminal program that keeps a list of projects, grouped into categories, in
a TOML configuration file. The user browses and filters the list, edits or
creates projects in a form, and on Enter the program prints the path of the
selected project and exits.

- `src/` is the library, verified with Verus: the project list and its
  filter, selection and editing (`datamodel`), the editor form and its fields
  (`editor`), the application state (`app`), key presses (`keys`), text
  operations (`text`), the stored data (`persistence`, `config`) and the
  colours of tags (`utils`). The text fields keep their text in a
  ratatui-textarea `TextArea` (`textbuf`).
- `app/` is the program around it: command line, reading and writing the
  configuration file, the terminal event loop, the file explorer of the path
  field, and drawing.
- `tests/` exercises the library.
