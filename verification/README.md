# repo_sync

`repo_sync` keeps a registry of local Git repositories and brings them up to date: it fetches
them concurrently, decides for each what is to be done, and updates them one after the other,
from the command line or from an interactive terminal interface.

`src/` is the library. Verus proves what its contracts state.

- `text`, `path`, `failure`, `paint`: texts, paths as bytes, chains of messages, styles
- `model`, `config`, `config_laws`: repositories, the registry's file format and its rules
- `git`, `plan`, `plan_laws`, `process`: the questions that are put to Git, what follows from the
  answers, and how a Git process is started and watched
- `engine`, `engine_laws`: the order of concurrent preparations and serial updates
- `cli`: the commands
- `rows`, `form`, `tui`, `batches`, `messages`, `keys`, `tui_laws`, `screen`: the state of the
  interface, how keys and messages change it, and what is drawn

Paths are those of Unix systems: bytes, with `/` between their components.

The library starts no process, reads no file and draws nothing. A computation that needs Git is a
function of the replies so far: it answers with the next command to run or with its result.
`app/` runs the commands, the threads and the terminal. `tests/` runs the library.
