# snout

Tools for the Rime input method: the decisions behind updating the Wanxiang,
Ice (雾凇) and Frost (白霜) schemes, their dictionaries and the Wanxiang
grammar model, redeploying the installed front ends (Fcitx5, IBus, Squirrel,
Weasel), switching Fcitx5 skins and toggling the grammar-model patch.

The decisions of the program are a library verified with Verus; the program
around it does the file, process and terminal work and the downloads.
Looking up releases and unpacking their archives is not part of it: an update
run reports that no update source is available.

## Layout

- `src/` — the verified library
  - `text.rs` — strings as character sequences: trimming, splitting, lines
  - `numfmt.rs` — decimal printing and `u64` parsing
  - `schema.rs`, `platform.rs` — the schemes and platforms
  - `fcitx5.rs` — `key=value` configuration edits, theme install and reload plans
  - `model_patch.rs` — the grammar-model patch of `<schema_id>.custom.yaml`
  - `download.rs` — resumable and parallel download decisions, retries
  - `api.rs` — proxy settings and request headers
  - `deployer.rs` — engine detection, deploy commands, directory sync, hooks
  - `updater.rs` — Ice and Frost update plans, records and results
  - `ui.rs` — the terminal UI's state machine
- `tests/` — tests of the library
- `app/` — the command line, the terminal UI, HTTP, files and processes
