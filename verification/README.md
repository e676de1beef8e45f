# rssh

The verified core of rssh's SFTP commands and WebDAV configuration sync.

- `src/` — the library, verified with Verus:
  - `error` — error kinds, codes and structured details;
  - `text`, `names` — name and path-text logic (edit file names, upload
    paths, the connect-timeout setting);
  - `ids` — UUID identifiers built from random bytes, and their text;
  - `registry` — keyed tables of live objects with map semantics;
  - `transfers` — transfer cancel flags and their guard;
  - `paths` — paths rendered relative to a root from their component lists;
  - `edit` — edit sessions;
  - `walk` — the step-by-step breadth-first local directory walk;
  - `watch` — decisions of the edited-file watcher and the attention
    throttle;
  - `webdav` — URL validation, backup location and reply handling.
- `app/` — the I/O around it: state behind locks, the commands, directory
  reading, the file watcher loop and the HTTP requests.
- `tests/` — tests of the library.
