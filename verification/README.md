# grodex

The logic of a coding agent as a verified Rust library: the functions in `src/`
state in contracts what they do, and Verus proves that the code keeps them.

- `config`: layers of configuration, their merge, migrations between schema
  versions, the requirements of an enterprise, workspace trust, and the watcher
  that publishes changed files.
- `auth`: accounts and keys, leases on credentials, secret stores, OAuth for MCP
  servers, circuit breakers and the refresh of tokens.
- `capability`: identities of tools and skills, what a turn may use, revocation,
  promotion, search and explanations of what is visible.
- `session`: the protocol with clients, resuming from a journal, permission
  policies, the terminal loop, reports on prompts, journals and evaluations.
- `desktop`: sessions, rules and transport of the desktop application.
- `domain`: identifiers, states and decisions that all of these share.
- `telemetry`, `table`: reports on what was recorded.
- `text`, `entries`, `json`, `toml_value`, `toml_text`, `strmap`, `hash`, `paths`,
  `clock`, `random`: the ground the rest stands on.

Laws that relate several functions are public proof functions beside them.

What other crates compute (hashes, JSON and TOML texts, UUIDs, URLs, random
numbers, the clock) is called through small functions marked
`external_body`. Their contracts are believed, and each says what it claims of
which function.

`app/` is the program around the library: files, the network, the terminal,
databases and threads. What it finds there it hands to the library, which
decides.
