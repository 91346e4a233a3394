# cdir

`cdir` records the directories a shell visits, keeps named shortcuts to
directories, and offers a terminal interface to search both and jump back.

## Layout

- `src/` is the library, written in Verus. Its functions carry contracts
  that Verus proves, except a few small wrappers around `nucleo-matcher`,
  `yamlpath`, `yamlpatch`, `crossterm` and `String` methods (in `fuzzy`,
  `config_view`, `ansi` and `text`), whose contracts are trusted:
  - `text`: byte views of strings, decimal printing and parsing;
  - `store`, `ranking`, `fuzzy`, `query`: directory entries and shortcuts,
    the smart suggestions, fuzzy ranking (through `nucleo-matcher`) and the
    SQL statements with their parameters;
  - `model`, `tableview`, `search_text_view`: the window of entries a table
    shows, the selection and the search line;
  - `display`: how a path is shortened to fit a column;
  - `config_view`, `shortcut_editor`, `confirmation`, `help`: the dialogs'
    state machines and text;
  - `theme`, `expimp`: choosing and merging themes, and the exported forms
    of the data;
  - `setup`: the files written on the first run (templates, shell file);
  - `ansi`: a displayed path as text with escape sequences, through
    `crossterm`; `config_view` also patches the configuration text through
    `yamlpath` and `yamlpatch`;
  - `tui`: keys, rectangles, and the view manager's routing decisions.
- `app/` is the program around it: the command line, the SQLite database,
  the configuration and theme files, YAML import and export, and the
  ratatui views that draw what the library decides.
- `tests/` runs the library on concrete values.
