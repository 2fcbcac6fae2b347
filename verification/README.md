# herdr_core

The verified core of herdr, a terminal multiplexer for coding agents. The
library in `src/` is written in Verus: each public function carries a
contract over mathematical models (sequences, maps, spec functions). Laws
that tie functions together are proved as public proof functions, or stated
in the contract of the function they concern (such as the label round trip
of `parse_agent_label`, which rests on what `str::to_lowercase` does to
ASCII text).

- `protocol/` — snapshot and surface records, their deltas (diff, validate,
  apply) and the base64 framing of encoded surface deltas.
- `detect` — recognising the agent behind a pane's foreground processes.
- `path_links` — finding, cleaning and resolving file paths in terminal text,
  and `file://` URIs.
- `pane/` — kitty keyboard and `modifyOtherKeys` mode tracking.
- `platform`, `ipc`, `persist`, `plugin_installations`, `pty_lifecycle`,
  `remote_desktop`, `integration`, `kiro_session` — the decisions behind
  shells, sockets, session files, plugin leases, PTY handoff, remote desktop
  attach, installed integrations and Kiro sessions.

`app/` holds the host side that Verus does not see: serialization, terminal
events, and the filesystem, process and socket work that feeds the core.
