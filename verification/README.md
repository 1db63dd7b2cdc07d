# barepdf

The verified core of BarePDF, a lightweight PDF reader for Windows: the decisions the
reader makes about tabs, documents, bookmarks, search, printing, PDF tools, the window's
caches and event pump, diagnostics, and its signed self-updater, each with a contract
checked by Verus.

- `src/update/`: the updater's policy. Request and redirect allow-lists, capped body
  reads, Ed25519 verification of the metadata before it is parsed, the stable-channel
  acceptance rules, and the size and SHA-256 checks of a downloaded installer.
- `src/application/`: tabs, the document lifecycle, render-event admission and the
  updater's state machine.
- `src/controllers/`: bookmarks, navigation, search stepping, tab closing and activation.
- `src/presentation/`: the window's rules that do not need the toolkit: caches, outline
  flattening, print preview requests, the command palette, drop routing, zoom and page
  inputs, view settings.
- `src/tools/`, `src/printing/`: tool jobs and passwords, output naming, print
  reservations and bitmap checks.
- `app/`: the program around the library: logging set-up, the preferences file, the
  update worker thread with its HTTPS transport and file handling, and start-up.
- `tests/`: the behaviour tests, run against the compiled library.
