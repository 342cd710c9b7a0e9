# luma

A small rendering library on top of vello/wgpu and winit. `src/` holds the
parts that Verus verifies:

- `shader_model`, `shader_gen`, `shader_expand`: the shader block language
  (Rust-like structs and functions, as plain data) and its expansion into
  WGSL source and plain-data Rust structs.
- `text`: the character-level helpers the expansion needs (replacement,
  space stripping, joining, lookups with "last one wins" semantics).
- `buffer`: byte sizes and offsets of vertex data, the state of a growable
  buffer across pushes, and what a buffer holds after it grows.
- `registry`: named resources (shader modules, render pipelines), each name
  registered once; registering where a name is taken hands the factory back
  uncalled.
- `space`: window configuration and the winit window attributes it asks for
  (named through the one trusted builder call), the event loop's mode, event
  routing, the surface's configuration and its resizing.
- `ui`: the 2D interface scene.

`app/` is the demo program and holds what talks to the GPU or the window
system: device and surface creation, buffer uploads and reads, pipeline and
shader creation, rendering, and the event loop. It also reads shader blocks
from Rust tokens with `syn` into the library's shader model and writes the
expansion back as tokens with `quote`. Each of these calls the library for
its decisions.
