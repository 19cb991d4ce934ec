# opendal_table

A table over an object store for the DataFusion query engine. Every entry of the store is a
row: where it lies, what kind of thing it is, its size, its type, when it was last modified
and, on request, its content. Rows that are inserted become files.

`src/` holds the rules of the table, verified with Verus:

- `columns`, `schema`: the columns of the table and the schemas made of them;
- `value`, `expr`, `conditions`: which filters are pushed down, and what they say of a value;
- `plan`, `text`: which directory a scan lists, if any;
- `rows`, `batch`, `scan`: how listed entries become rows, and rows batches;
- `sink`: how inserted rows become files;
- `source`: tables, scans that a query asks for, and how they begin;
- `error`: what can go wrong;
- `laws`: what holds of all these together.

A scan and a run of writes are state machines: they say what to ask of the store, and are
told what it answered. `app/` connects them to connections, streams and the engine's traits.
