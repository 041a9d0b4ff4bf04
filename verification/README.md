# wyrd_shell

The logic of the Wyrd desktop shell's companion daemons and bar modules,
written in Verus and proved against its contracts.

- `src/` is the verified library. Each daemon and module has a file of its
  own: the clipboard, notification and audio daemons' state machines
  (`clipboard`, `notifications`, `audio`), the tray menu model (`tray`), the
  network module's authentication flow and scan results (`network`,
  `network_scan`), the module SDK's request builders and command-line
  splitting (`sdk`), and one file per bar module. `text`, `number` and `json`
  hold the string, decimal and JSON models the others are stated over.
  Public proof functions whose names begin with `law_` state properties that
  span several operations.
- `tests/` runs the library on concrete values.
- `app/` is ordinary Rust around the library: the daemons' sockets, D-Bus,
  Wayland and PulseAudio connections, the bar modules' host calls, and the
  popup layouts, whose sizes are floating-point numbers. Verus does not read
  it.

Calls into `serde_json`, `shell-words` and `chrono` that the logic needs stand
in `src/` behind small trusted wrappers, each with a doc comment that says
what its contract claims of the outside function.
