# kubelet_adapters

The adapters of a Kubernetes node agent: what it decides when it admits pods,
reads manifests and API objects, pulls and clears images, evicts under
pressure, assigns processors, memory and devices, runs hooks and network
plugins, rotates logs and certificates, renews its lease and reports its state.

- `src/` is the library. Its decisions are functions from plain values to plain
  values, with contracts that Verus proves. Readings of clocks and the
  outcomes of I/O are arguments; functions that surround I/O come in two parts,
  one that says what is to be done and one that takes up how it went.
- `tests/` runs the library.
- `app/` does the I/O: files, processes, sockets, the API server.

Laws that relate several functions stand beside them as proof functions whose
names begin with `law_`. Calls into other crates stand in small functions marked
`external_body`, each with a note on what is taken from the crate.
