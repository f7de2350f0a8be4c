# xcode_dap

The engine behind an Xcode-like build and debug loop in Zed: a DAP proxy in front
of `lldb-dap`, the pipeline that builds, installs and launches an app on a
simulator, a build server for `sourcekit-lsp`, and the commands around them. Every
decision is made in a library that Verus verifies; a thin program performs the
reading, running and writing.

## Layout

- `src/` is the verified library.
  - `text`, `number`, `order`, `json`: texts, numbers, orders and JSON documents.
  - `util`: hashing, log lines and dates, paths, pidfiles, ordered maps by name.
  - `dap`: the frames of the protocol, what a frame asks for, and the proxy as a
    state machine from events to actions.
  - `engine`: configurations and selections, simulators, the output and the
    settings of `xcodebuild`, Xcode's build logs and the compile-argument store made
    of them, consoles, and the pipeline as a state machine.
  - `bsp`: the messages and the session of the build server.
  - `setup`: JSONC and the marker blocks in it, the generated files of a project,
    `buildServer.json`, `.git/info/exclude`.
  - `commands`: what each command decides and says, `doctor` among them.
  - `extension`: what the editor extension decides.
- `app/` is the program: arguments, files, processes, async plumbing, the serde
  copies of the library's types, and the implementation of the editor's extension
  trait.
- `tests/` run the library.

## How it is stated

Types have mathematical views, and contracts speak of these. State machines
(`dap::proxy`, `engine::pipeline`, `bsp::ingest`, `extension`) have a spec function per event;
the properties that hold across events and functions are public proof functions,
named `lemma_*`, next to what they speak of. What is read from the file system
reaches the library as values: times as numbers, paths and contents as texts, and
for the compile store a snapshot (`engine::disk`).

Three things come from outside: JSON is read and written by `serde_json`, gzip
streams are inflated by `flate2`, and texts are decoded and lowered by the standard
library. Each has a wrapper whose contract says what is relied on.
