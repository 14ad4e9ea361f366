# Ruiss

Two machines, one mouse and keyboard: the cursor crosses the edge of a screen to
the other machine, keys and clicks follow it, and both share a clipboard and
files.

## Layout

- `src/` is the library, verified with Verus. It decides; it does no I/O.
  - `arbiter`, `geometry`, `rounds`, `router`: when control passes over, where the
    cursor appears, which frames count, and what the machine does about an event.
  - `keys`, `key_table`, `platform::keyboard`: keys and shortcuts between a Mac and
    a PC.
  - `protocol`, `net`: messages, frames, pointer packets, and the life of the link.
  - `file_transfer`: planning, sending and receiving files.
  - `clipboard`, `settings`, `selftest`: the remaining rules.
  - `platform::mac`, `platform::win`: codes, hooks, playing of input, cursor,
    clipboard formats and drags of the two systems.
  - `bytes`, `text`, `utf16`, `table`, `ids`: what the rest is built on.
- `tests/` runs the library on concrete values.
- `app/` is the program around it: sockets, files, the systems' own calls, and the
  console or tray front end.

## Reading the contracts

Each type has a view, and each function says in `ensures` what becomes of it. What
holds across functions stands in the public proof functions whose names begin with
`law_`. What is believed of other crates and of the standard library stands in the
functions marked `external_body` and in the `assume_specification` items; the
comment above each says what it claims.
