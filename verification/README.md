# crabsync

A terminal interface for rsync: configured pairs of a local directory and a
remote target, a file tree in which files and directories are selected, a
dry-run preview, and the sync itself, with a password prompt when the
remote wants one.

The library in `src/` holds the logic, verified with Verus:

- `text` — substring search, joining, repetition and decimal notation on
  strings;
- `config` — pairs, the merge of the local and the global configuration
  file (local pairs shadow global ones of the same name), lookup by name,
  and the addition and removal of pairs;
- `tree` — the file tree: selection, expansion, the selected files, the rows
  shown on screen, and the insertion of the paths a directory walk reports;
- `sync` — the rsync argument lists, the command shown before a sync, the
  `--files-from` content, and how rsync's exit status and output become a
  result or an error;
- `app` — the state of the interface, the pair it opens on start, and its
  transitions on each key, with the outside work each key calls for;
- `ui` — the text and styles of every screen;
- `cli` — the command-line commands, what `remove` tries in turn, and what
  the commands print.

Each module states its laws as public proof functions next to the
functions they are about.

`app/` is the program around the library: argument parsing, the
configuration files (TOML), the directory walk, the rsync processes and
pseudo-terminal sessions, and the painting of the terminal.
