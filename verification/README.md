# svitlo-store

The package source of the Svitlo store. It turns what the `promin` client answers, and the files
that the client keeps, into package cards, updates and operations.

- `src/` is the library. Verus proves its contracts.
  - `backend/promin.rs`: the channel: cards, installed packages, updates, the recipe index.
  - `backend/operation.rs`: installing, updating and removing packages, one command at a time.
  - `backend/command.rs`: what the client is asked, and what its exit means.
  - `backend/json_types.rs`: the forms of the client's answers and files.
  - `backend/appstream.rs`: the catalog of a release, and the cache of its components.
  - `name_map.rs`, `text.rs`, `app_info.rs`: an ordered map, operations on text, metadata.
  - `laws.rs`: what holds of the library as a whole.
- `app/` runs the client, reads files, decodes JSON, and offers the source to a store front.
- `tests/` runs the library.
