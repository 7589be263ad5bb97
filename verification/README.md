# void_runtime

The logic of a small game-engine runtime, written in Verus and proved
against its contracts: the snapshot format in which engine state is saved,
the packing of textures into atlases, the batching of draws, the order of
cameras and the render textures they need, color codes, text markup and
text components, the bookkeeping of particle effects, and the Rust source
that the code generation tool writes for a platform library.

## Layout

- `src/` is the verified library. Each module opens with a comment that says
  what it holds. Laws that relate several functions are public proof
  functions (`lemma_...`) beside the functions they speak of.
  - `snapshot*.rs`: the binary snapshot format. Every type states its wire
    format as a spec function, and `WireFormat::lemma_round_trip` proves that
    reading back what was written gives the value again. Integers are
    written as they lie in memory, in the byte order of the machine, which
    the contracts name through `vstd::endian::endianness`.
  - `texture_atlas.rs`, `draw_list.rs`, `camera.rs`, `render_plan.rs`,
    `render_targets.rs`, `scene_textures.rs`: decisions of the renderer.
  - `colors.rs`, `text_markup.rs`, `text_render.rs`, `pattern.rs`,
    `codegen.rs`: text work.
  - `ecs.rs`, `graphics.rs`, `text.rs`, `material.rs`, `pipeline.rs`,
    `callable.rs`, `input.rs`, `particles.rs`, `system.rs`,
    `generate_flat_buffers.rs`: the types and small rules of the engine API.
- Calls into outside crates (regex, convert_case, aligned-vec) and into parts
  of std that vstd does not specify go through small wrappers marked
  `#[verifier::external_body]`; each says in its doc comment what its contract
  claims of the function it calls.
- `tests/` runs the library on concrete values.
- `app/` is ordinary Rust around the library: colors as floating point, the
  font sizes of text spans, and the file and process work of the code
  generation tool.

## What stays outside the library

- GPU work (wgpu devices, buffers, pipelines, render passes, glyph layout):
  the library makes the decisions (atlas packing, batching, camera and
  post-process passes, buffer sizes, text spans) and the GPU calls are left to
  the engine, whose wgpu, glyph_brush and image crates this project does not
  build.
- Floating point: colors as `f32` components, transforms and matrices,
  particle physics, font sizes and depths. What depends on them is handed to
  the library as integers (packed colors, depth keys, whether a size reads).
- FFI and raw memory: data buffers shared with the engine, C strings, module
  and platform tables, and the proc-macros that derive snapshot impls.
- Files and processes: the code generation tool's reading of its input and
  its run of `flatc` live in `app/`.
