# yuumi

A companion for the League of Legends client: match history and TFT history,
player tagging and encounter records, loot crafting, automatic gameflow actions
(ready check, lobby, honor, invitations), and match uploads.

- `src/` is the library, written in Verus. Each module states what its
  functions compute in `requires`/`ensures` contracts over mathematical models
  (`Seq`, `Map`, `Set`, the `Json` document model of `src/json.rs`), and the
  properties that span several calls are proved as `law_*` proof functions.
- `tests/` exercises the library on concrete values.
- `app/` is the command-line program around it: requests to the client's local
  API and to remote services, the SQLite store of saved players, file and
  process handling, and the scoring that uses floating point.
