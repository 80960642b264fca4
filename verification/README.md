# deploykeys_ui

The interface rules of the DeployKeys desktop app (a GitHub deploy-key
manager), written in Verus and proved against their contracts.

- `src/` is the verified library: the progress line and toast stack state
  machines, the connection registry, the string tables and locale rules, the
  Repositories / Keys / Connect screens' filters, orderings and form checks,
  the date picker's calendar, pagination, the command palette with its
  search history, and the text routines they share. Public proof functions
  named `law_*` state the properties that hold across calls.
- `tests/` runs the library on concrete values.
- `app/` is the browser side that Verus does not see: the Tauri bridge and
  host commands (with serde copies of the library's records), browser
  storage, clock and pixel geometry, and reactive controllers that feed timer
  expiries and host events into the library's state machines.
