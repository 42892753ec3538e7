# warm-drive-cache

Maintenance of rclone VFS cache directories: empty a stale cache once nothing in it is
unsaved, then warm it again by walking the mount and reading the files that a size policy
selects.

- `src/` is the library. Every function carries a contract that Verus proves; the laws that
  relate several functions stand beside them as proof functions named `law_…`.
- `app/` is the program around it: files, processes, threads and the terminal.
- `tests/` runs the library on concrete values.

## How the two fit together

Functions that need no outside world take values and return values. Everything else is a
state machine: `run::Run` asks for one action at a time (load the configuration, acquire a
lock, delete, warm, …), the program performs it and reports the outcome, and the next step
follows. The same holds for the check of a pair, the wait for clean metadata, the lock of a
cache, the verification of one file and the walk over a tree. So the library decides which
metadata is scanned, what is deleted and when; the program performs the scan and the
removals that it is asked for, and a law ties the one to the other.

## What is relied on without proof

`serde_json` parses rclone's metadata files and `blake3` computes digests; both stand behind
small wrappers whose contracts name their results. From `std`, `String::push`, the `Debug`
form of strings and `String::from_utf8_lossy` are described in the same way.
