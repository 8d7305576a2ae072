# Kether Internal Services Server

The backend of the Kether.pl community website: the JSON database of binds, bind
suggestions, commands and votes; Steam sign-in; the bridge to the server daemon's map
registry; the FastDL file server; game server queries; Call For Sub; the Steam chat bot's
connection policy; the plan timestamp stream; and the operator console.

## Layout

- `src/` is the library, written in Verus. Every function there carries a contract that
  Verus proves: what it returns and changes, for every input it accepts. Where a result
  rests on the clock or on chance, the function that reads it states what holds of every
  reading, and a companion function taking the reading as an argument (such as
  `session_expiry_at` or `consume_code_at`) states the result exactly. Calls into
  other crates and into `std` that Verus has no specification for go through small
  trusted wrappers, each documented with what it assumes.
- `tests/` exercises the library on concrete values.
- `app/` is the program around the library: the command line, the Rocket web service,
  file and network I/O, the Steam session, the terminal console and the file watcher.
  It hands the library plain values and acts on what comes back.
