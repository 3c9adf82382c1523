# ike

The decision-making core of the ike game engine's plugins and derive macros,
written in Verus and proved against its contracts.

- `src/` is the verified library:
  - `post_processing`: bloom mip-chain size, the sources of each sampling
    pass and the order of the passes; tone mapping uniforms; the post
    processing render graph wiring.
  - `light`: directional lights packed for the GPU, shadow map passes, the
    light node's wiring.
  - `pbr`: batching of mesh instances by mesh and material, the draws made
    of them, which materials are rebound after asset changes, which meshes
    are uploaded, the PBR node's wiring.
  - `render`: which cameras render in a frame, and in which order.
  - `render_graph`: the graph operations the plugins ask for.
  - `node`: node stage registries keyed by name and by event type.
  - `physics`: entities stored in body user data, bodies to remove,
    body updates, collision sides and the collision event queue.
  - `macros`: the plans behind the engine's derive macros (`Reflect`,
    labels, components, `type_uuid`, `node`, `SystemParam`) over a small
    model of Rust syntax, and the lookup of engine crate paths.
- `tests/` runs the library on concrete values.
- `app/` is the procedural-macro glue: it reads `syn` trees into the syntax
  model, looks crates up with `proc_macro_crate`, and writes the tokens of
  the plans the library returns.
