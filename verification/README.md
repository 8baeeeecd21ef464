# rotepad

The verified core of Rotepad, a small GTK text editor.

- `src/` is the library, checked by Verus: word counting and the
  thousands-separated word-count label (`words`, `thousands`), the
  configuration document (`config`), the recent-files list and its menu
  (`recent`, with its laws in `recent_laws`), the two background countdowns
  (`timers`), the state of an editor window and the decisions around saving,
  opening and closing (`editor`), and the command that starts another window
  (`launch`).
- `app/` is the GTK program around it: widgets, dialogs, files, the
  configuration directory and the ticker thread.
- `tests/` runs the library on concrete values.
