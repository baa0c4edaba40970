# beacon_schema

The SSZ records a beacon node keeps under its beacon chain key, in the layout
of schema version 22 (with a head tracker) and of schema version 23 (the
genesis block root alone), and the conversions between them.

- `src/codec.rs`: SSZ offsets, lists of roots and of `u64`, and the calls into
  the `ssz` crate that encode and decode them.
- `src/head_tracker.rs`: the head tracker container, its byte-level model, and
  the proofs that its encoding decodes back and determines the value.
- `src/persisted.rs`: the two beacon chain records, their store encodings and
  the same proofs.
- `src/migration.rs`: upgrading and downgrading the record.
- `app/`: the migration drivers over a store and fork choice, and the beacon
  state memory accounting through `milhouse`.
