# sommerfluss_ipc

The command dispatcher of the sommerfluss window manager, verified with Verus.

A client sends a command as argument bytes with NULs between them and reads a
reply. The library splits the request, finds the command, changes the state,
and says what comes back. Each command is specified as a function from the
state and the arguments to the state after it and the reply; the executable
code is proved equal to it.

- `src/request.rs`, `src/dispatch.rs`: from bytes to a command and its first
  step; `src/step.rs`: commands that wait for an answer of the window manager.
- `src/cmd_*.rs`, `src/listing.rs`: the commands.
- `src/state.rs`: the state, its model, and the queue of operations that the
  window manager performs.
- `src/binding.rs`, `src/color.rs`, `src/geometry.rs`, `src/number.rs`,
  `src/frame.rs`, `src/split.rs`, `src/text.rs`: the words of the language.
- `src/laws.rs`: what holds of the commands together.
- `app/`: the socket, the key lookup through libxkbcommon, starting programs,
  and the window manager's side of the queue.

What is trusted: `str::to_ascii_lowercase` in `src/binding.rs`, and
`String::from_utf8_lossy` in `src/request.rs`.
