# Milvus connector

The logic of a connector to the Milvus vector database, over its REST API, written and proved in
Verus.

- `src/` is the library. It reads the options of a request, makes queries ready to be sent, reads
  the replies of the server into tables and descriptions, keeps the table of open connections, and
  takes URLs and secrets out of what is shown. Every function states in its contract what it
  returns; the `law_` functions state what holds across several of them.
- `tests/` runs the library on examples.
- `app/` is the connector around the library: it reads files, sends requests, holds the lock on the
  open connections, and hands answers to the native shim.

Two outside crates are called from the library, each call behind a function with a contract of
its own: `serde_json` reads and writes JSON text (`value`, `json`), and `reqwest` reads PEM files,
sets clients up (`tls`) and names the status of an answer (`exchange`).
