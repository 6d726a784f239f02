# fzh

Fuzzy search over the history of Zsh. Every command that is run is put into an index; a menu on
the terminal narrows the history while the user types, and hands the selected command back to the
shell.

- `src/` is the library, verified with Verus:
  - `history` reads what the shell hands over and what stands in a history file,
  - `schema`, `document` and `search` say what the index holds and how it is asked,
  - `select`, `preselect` and `session` are the menu: its settings and what each key does,
  - `render` counts the lines that are on the terminal,
  - `request` reads the command line,
  - `text` and `edit` hold the small operations on texts,
  - `laws` holds what is proved of several of these together.
- `app/` is the program around it: the index on disk, the terminal and the command line.
- `tests/` runs the library with the crates that it calls.

What is not proved but stated of other crates stands in `src/`, each item with a comment that names
the function that it speaks of.
