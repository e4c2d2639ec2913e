# picodraw

A small 2D drawing library: quads painted by custom shaders written in Rust,
compiled to GLSL and drawn in batches through OpenGL.

## Layout

- `src/` — the verified library (Verus):
  - `texture` — colors, sizes, rectangles and texture descriptions;
  - `shader`, `trace` — shader graphs of typed operations and the typed
    values that build them;
  - `graph`, `dataflow` — typed operation graphs with readers and resolution;
  - `compiler` — from shader graph to GLSL: `analysis` (lowering, pruning,
    merging, variable allocation), `scope` (branch islands), `codegen` (GLSL
    text), `serialize` (object data layout and encoding), and the
    `GlslCompiler` that registers shaders;
  - `batch` — batching objects into draw calls, and counting what is drawn;
  - `gl`, `resources`, `context` — what the backend knows of the GL
    implementation, resource tables, and the frame encoder interface.
- `app/` — the OpenGL backend around the library (GL calls through `glow`),
  the digits of finite float literals, and the type-erased context.
- `tests/` — tests of the library.
