# fetch-rs

Keeps a NixOS machine on the newest commit of its flake's branch that passed
CI. `fetch-rs` exits with 0 exactly when the machine should be rebuilt (after
switching to the followed branch and fetching it); `rebuild` then rebuilds the
system from the flake and can send an ntfy notification when that fails.

Layout:

- `src/` is the verified library: reading the GitHub owner and repository out
  of the remote's URL (`git`), the configuration's defaults and validation
  (`config`), the rebuild rule and the decisions between steps (`rebuild`),
  exit codes and the notification's arguments (`util`), and the text
  operations they rest on (`text`).
- `app/` runs the git commands, the GitHub requests, the file and environment
  access, and the TOML (de)serialisation, and hands plain values to the
  library. The program acts as `rebuild` when run under that name, and as
  `fetch-rs` otherwise.
- `tests/` exercises the library on concrete values.
