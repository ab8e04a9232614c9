# ai-vk

Data-driven Vulkan compute graphs. A graph file declares arguments,
resources (images and buffers) and compute dispatches; every resource gets a
persistent bindless slot, and each dispatch waits for the earlier dispatches
it conflicts with on a resource.

## Layout

- `src/` is the verified library (Verus):
  - `arguments.rs`: `$name` / `${name}` argument references, overrides, and
    the `NAME=VALUE` command-line syntax.
  - `validate.rs`, `graph.rs`: the checks a graph must pass, in order, the
    extent of every resource, and the validated `ComputeGraph`.
  - `hazards.rs`: read-after-write, write-after-write and write-after-read
    prerequisites, and the proof that conflicting uses are always ordered.
  - `schedule.rs`: dispatch order, push-constant slot tables and the memory
    barriers planned before each binding, upload and read-back.
  - `format.rs`: texel layouts of the image formats and their conversion to
    and from RGBA8 pixels.
  - `device.rs`, `requests.rs`, `shader.rs`: queue family and memory type
    choice, render request checks, and SPIR-V compilation.
  - `name_map.rs`, `names.rs`, `text.rs`, `errors.rs`: supporting types.
- `app/` is the command-line program: TOML parsing, input inspection, and
  the Vulkan work that records and submits what the library planned.
- `tests/` exercises the library on concrete graphs and values.
