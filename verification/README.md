# mallet

Mallet is a map editor. This crate holds its core as a library verified with
Verus, and a small program around it.

## Layout

- `src/` — the verified library (`mallet`):
  - `id`, `bytes`: persistent identifiers, their 16-byte big-endian keys and
    the byte order the map database sorts keys by;
  - `checksum`: content checksums (BLAKE3) and stored objects;
  - `idmap`: a map keyed by identifiers;
  - `history`, `state`, `commit`: the edit history tree, saved map states, and
    how a change set becomes a new state and history node;
  - `lookup`, `restore`: live elements by identifier, and the plan that brings
    the live elements to a saved state;
  - `media`: media metadata, per-source collections and the decisions of a
    directory scan or a watcher;
  - `selection`, `modes`: selection targets and editor modes;
  - `core_binds`, `input_binding`, `keybinds`, `keys`: input bindings;
  - `elements`, `store_keys`: element metadata and the tree names of the
    experimental key-value store.
- `tests/` — tests of the library.
- `app/` — the program: command line, data directory, the redb map database,
  media files and watchers, the sled store, and the floating-point geometry of
  brushes and the spatial cursor.
