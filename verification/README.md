# configx

A layered configuration store, verified with Verus.

Configuration sources (entries in memory, environment variables, `KEY=VALUE`
files, an optional global file) are merged in the order in which they were
registered, a later source overriding an earlier one, into one immutable
snapshot. The snapshot can be read, compared with another one, cut down to a
subset, described with secret values masked, and subscribed to for changes.

## Layout

- `src/` — the library, verified by Verus. The calls it makes into std and
  into the `toml` crate sit behind a few small trusted wrappers, each with a
  doc comment saying what its contract claims; everything else is proved.
  Functions whose result rests on the shared state of the change bus (its
  generation) say what holds whatever that state is:
  - `map.rs`, `order.rs` — `ConfigMap`, an ordered map kept as entries sorted
    by key in the byte order of `String`, and that order;
  - `key.rs` — the key rules (not empty, no control character, at most 512 bytes);
  - `kv.rs` — the `KEY=VALUE` format;
  - `source.rs`, `global_path.rs` — the sources and where the global file lies;
    a source states, through `loads` and `fails_with`, what a load of it may
    return, and merges and reloads are stated over that;
  - `layered.rs`, `store.rs` — merging of layers and the store (`reload`,
    reads, health, descriptions);
  - `diff.rs`, `view.rs` — differences, subsets and agreement of snapshots;
  - `secret.rs` — masking of secret values for descriptions;
  - `watch.rs` — the change bus and its subscriptions;
  - `config.rs` — the settings, their builder, environment switches and TOML positions.
- `tests/` — tests of the library.
- `app/` — what stays outside the library: reading files and the process
  environment, TOML settings through serde, typed reads through serde_json,
  and an error type implementing `std::error::Error`.
