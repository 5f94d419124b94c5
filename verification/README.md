# herdr

The client side of a terminal workspace manager that keeps workspaces and agents on several
machines in one sidebar. The library holds everything the client decides, written in Rust and
proved with Verus; the program around it talks to sockets, processes, files and the terminal.

- `src/` is the verified library.
  - `remote_registry`, `servers`, `supervisor` (with `routes`, `rows`, `overlay`, `laws`),
    `supervisor_api`: the remotes, the servers behind them, and what the client knows and shows of
    them.
  - `client`, `startup`, `client_state`, `client_loop`, `client_laws`, `dispatch`, `notify`: how a
    client starts, what it does with every event, and when it tries a lost server again.
  - `add_remote`, `add_remote_steps`: adding a remote, step by step, and what each step may change.
  - `compositor`, `layout`, `sidebar_plan`, `frame`, `graphics`, `input`, `attach`: the sidebar
    beside the content, clicks and keys, and the terminal of a single attached pane.
  - `remote`, `remote_args`, `remote_prep`, `shell_line`: reaching a host over ssh, having a
    matching binary and server there, and attaching to it again.
  - `bundle`: an executable that carries the binaries of other platforms behind it.
  - `server_cli`, `version`, `build_info`, `protocol`, `api`, `messages`, `text`, `seqs`: command
    lines, versions, requests and messages, and the texts and sequences that all of it is made of.
- `tests/` runs the library on concrete values.
- `app/` is the program: it carries out what the library decides and reports back.

What is not proved is the behaviour of a few outside functions. Each stands behind a small function
whose comment says what is claimed of it: splitting a shell line, the width of characters and texts,
deflate and inflate, base64, UTF-8, and the debug form of a value.
