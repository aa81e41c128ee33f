# kex

A terminal multiplexer with a server that keeps terminals running, a window that
attaches to them, and a link that shares them with a cloud.

The crate under `src/` is the logic of the program, verified with Verus. It does
no input or output: what reads, waits and sends is the program under `app/`,
which hands events in and carries out what comes back.

| Module | What it holds |
| --- | --- |
| `tui` | the window: its areas, panes, keys, drawing and the terminal behind a pane |
| `terminal` | a window that is attached to one terminal, as events and actions |
| `ipc` | messages between a client and the server, and the bytes they travel as |
| `server` | what the server does with a request, and what it keeps across restarts |
| `cloud` | the link to the cloud: its frames, messages, state and local ports |
| `cli` | commands, the requests they make and what is shown of the answers |
| `config`, `credential`, `error` | the prefix key, the credential, what can go wrong |
| `emulator`, `stream` | the terminal emulator, and what bytes do to its screen |
| `json`, `table`, `text`, `wire` | what the others are built on |

Two things stay outside. Shares of split panes are floating-point numbers: the
library carries their bit patterns and is handed the arithmetic as functions.
Messages are turned into JSON and back by the program, which has copies of the
message types for that.

Calls into `vt100`, `crossterm`, `serde_json` and those parts of `std` that have
no specification go through small functions whose contracts are taken on trust.
Each says in its comment which function it calls and what is claimed of it.

There are bytes at which `vt100` gives up: lines that wrap on a screen of one row,
characters that are wider than the screen, tabs on screens of more than 65527
columns, and anything on a screen that has cut a wide character in two when it
became narrower. Of the screen that is not shown it is only known in which columns
it may have had wide characters. The contracts leave such bytes out, and
`try_output` and `try_handle` tell them from all others.
