# dotmgr

A terminal dotfile manager: browse home and a sync repository, mark paths
as ignored, sync dotfiles from home into the repository and deploy them
back.

The program's decisions are a library verified with Verus (`src/`):

- `path`: paths as a root flag and components, with `strip_prefix`, `join`,
  `parent`, `file_name` and their text.
- `ignore`: the ignore list, relative paths, and "ignored through a path
  above".
- `listing`: directory entries and their order (directories first, then by
  lower-cased name, stable).
- `app`: the program's state and every key-driven step; work that needs
  the filesystem is returned as an `Effect` and its results handed back.
- `worker`: what the background sync, clean and deploy walks do with each
  entry, when a file is copied, and how each step is counted.
- `stats`: counters of a run and the status line reporting them.
- `utils`: human-readable sizes and file-sample digests.
- `config`, `keys`, `ui`: settings and defaults, key bindings, screen texts.

`app/` is the terminal front end: terminal handling, reading directories,
copying files, the settings files, and drawing.
