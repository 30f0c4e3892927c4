# yggdre

The verified core of Yggdre, a desktop helper for a Yggdrasil mesh node on
macOS: it finds the node's binaries and configuration, asks the node about
itself through `yggdrasilctl`, lists and probes public peers, and writes a
chosen set of peers into the node's configuration, with or without
administrator privileges.

## Layout

- `src/` — the library, verified with Verus. Every action on the machine
  (running a program, copying, writing, creating or staging a file, removing a
  staged file, resolving a name, opening a connection) goes through a
  `machine::Host`, which records it; the contracts say which actions a
  function takes, with what arguments and in what order, given what each one
  came to, and what it returns. Reads that change nothing (whether a file is
  there, whether a path is a symbolic link, its canonical form, what the file
  system allows, whether the daemon runs, reading an IP address, parsing JSON,
  and writing JSON out as configuration text or as shown coordinates) are
  handed in as closures: the contracts speak of their answers, but not of how
  often they are asked.
  - `machine` — the actions, their record, and `Host`.
  - `text`, `order`, `quoting` — text helpers, the order on texts, and shell,
    AppleScript and XML quoting.
  - `command`, `launchd`, `binaries`, `config`, `clock` — running commands and
    reading their output, launchd status, where binaries are found, which
    configuration paths are accepted, and backup names.
  - `json`, `node` — JSON values, the searches over `yggdrasilctl` answers, and
    the node status.
  - `peers`, `net` — the public peer list and its order, peer URI checks, and
    TCP probes (URLs are parsed with the `url` crate).
  - `scripts`, `apply`, `setup`, `environment` — the privileged scripts, writing
    peers into the configuration, the setup actions, and the environment report.
  - `laws` and the `law_*` proof functions — properties that hold across
    functions.
- `tests/` — tests on concrete values, with a recording machine and closures
  standing in for the computer.
- `app/` — the commands, the machine that does the real work, the reads, and
  the serialised answers.
