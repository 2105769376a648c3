# infra

`infra` describes, reconciles and observes container infrastructure through one
`.infra` file. This crate is its logic, verified with Verus; `app/` is the
command-line program around it.

## layout

- `src/text.rs`: character-level specifications of the string operations used
  (trimming, lines, prefixes, decimal numbers).
- `src/config.rs`, `src/config_laws.rs`: where `.infra` lives, how the
  generated core is rendered and read back, and how application-owned blocks
  are kept; the laws prove that a rendered configuration reads back as itself
  and that a replacement keeps the blocks of the file it replaces.
- `src/wizard.rs`, `src/wizard_laws.rs`: the `infra conf` dialogue as a state
  machine; the laws cover Enter in edit mode and case-insensitive choices.
- `src/document.rs`, `src/agent_config.rs`, `src/agent_error.rs`,
  `src/network.rs`, `src/address.rs`, `src/agent_laws.rs`: the `agent` block
  and its checks, including the text forms of IP and socket addresses; the law
  states what every accepted block guarantees.
- `src/snapshot.rs`, `src/observe.rs`, `src/events.rs`, `src/event_laws.rs`:
  container observations, transitions between snapshots, the events sent to
  infraBot and when the stored snapshot moves forward.
- `src/auth.rs`: Telegram authorization decisions (endpoint, challenge,
  pairing poll, credentials path).
- `src/runtime.rs`, `src/cli.rs`: the Docker steps of each lifecycle command
  and the command model.

The outside crates appear in `src/` only behind small trusted wrappers:
`reqwest::Url::parse`, `sha2::Sha256::digest`, the URL-safe Base64 engine of
`base64`, and `rand`'s `OsRng` (`try_fill_bytes`); `String::push` is the one
trusted item on std. HTTP, files, the terminal, processes and
argument parsing live in `app/`.
