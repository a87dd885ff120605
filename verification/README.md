# nodegraph

Node graphs that describe a voxel world. Authors wire nodes into graphs for the
world, its zones, its biomes and their foliage; the library validates the graphs,
evaluates them chunk by chunk, and keeps the state of an editor for them.

- `src/` is the verified library. Every function states what it returns; the laws of
  the library stand beside the functions they relate, as public proof functions.
- `app/` is ordinary Rust around it: floating-point arithmetic and noise, files and
  JSON, watching a directory, pictures, and the editor's widgets.
- `tests/` runs the library, with floating-point arithmetic where evaluation asks for
  it.

Single-precision numbers are carried by their bits. An evaluator that needs
arithmetic on them stops and says what is to be computed from what; it goes on when
it is handed the result. Node identities are the keys of a generational slot map, the
one outside collection the library holds; what is taken on trust about it stands in
`src/slots.rs`.
