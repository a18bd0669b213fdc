# cluster_node

A small cluster-membership node. Each node keeps a table of the cluster's
members (address, state, role, version, term and a record version `nv`),
persists it to `.data/.node`, exchanges it with peers over HTTP, and watches
the leader's heartbeat.

- `src/` is the verified library (Verus): the cluster table and its edits, the
  merge of a peer's table, the synchronisation and heartbeat decisions, the
  command line and port parsing, and decimal text.
- `app/` is the program around it: the HTTP server (actix-web), HTTP calls to
  peers (reqwest), the node file, and the background tasks.
- `tests/` runs the library on concrete values.
