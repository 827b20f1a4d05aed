# aurorastorage

A MySQL wallet storage for libindy, with its logic verified by Verus.

- `src/` is the verified library:
  - `wql.rs`: the wallet query language (WQL), its parser (with and
    without `$and`), the simplification of parsed queries, and their
    translation to SQL with bound arguments; with the laws the translation
    keeps.
  - `aurora_storage.rs`: options, the statements made from the caller's
    input, how each answer of the database becomes a result code, and the
    records, searches and metadata that an open wallet hands out under
    handles.
  - `json.rs`: JSON documents as plain values, parsed and written by
    `serde_json`.
  - `utils/`: handle stores, command callbacks, connection settings and the
    pools shared by connection string.
- `app/` is the C interface that libindy calls: the database and pool work
  done with the `mysql` crate, logging, and the registration of the storage.
- `tests/` runs the library on concrete values.
