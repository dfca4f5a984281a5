# TieCloud Build API

A service that takes projects as `.tsp` (ZIP) uploads, builds Android packages from them and hands
the packages out. What the service decides is a library that is verified with Verus; the program
around it does the input and output.

## Layout

- `src/api`: uploads, builds, downloads, health and cleanup requests
- `src/worker`: the run of a task, step by step; the compiler and packaging; cleanup
- `src/database`: the statements of each database operation, how rows are read, what the queries ask
  of the tables, migrations, leases
- `src/middleware`: limits on requests in a second and in an hour, and the list of banned clients
- `src/state.rs`: the tasks in memory and the limit of the queue
- `src/build_test.rs`, `src/startup.rs`, `src/config.rs`, `src/assets.rs`: the self-test, arguments,
  settings and resources
- `src/text.rs`, `src/path`, `src/time.rs`: text, paths, times
- `src/outside.rs`, `src/table.rs`: the calls into other crates
- `app`: the program: HTTP, SQLite, files, processes
- `tests`: the library on concrete values, with a real SQLite database where one is asked

## How input and output are kept apart

An operation that alternates decisions and outside work is a value with a stage. The library tells
the next action and takes what became of it; the program carries the action out. The contracts
state which action belongs to which stage and which stage follows which outcome, and the proof
functions named `law_...` state what holds of whole runs.

Functions that read the clock or draw an identifier have a counterpart that takes the time or the
identifier as an argument.

Paths are texts; the functions on them are told whether they are those of a Unix system or of
Windows.

## What is trusted

The functions of `src/outside.rs` and `src/table.rs` that call other crates are not verified: their
contracts are believed, and the comment above each says what is claimed of which call. So is the
contract of `String::push` in `src/text.rs`. Everything else in `src` is proved from them.
