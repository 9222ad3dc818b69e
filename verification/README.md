# nextcore_gpu

Graphics resource contracts for a virtual GPU, with every rule of the library
proved by Verus: framebuffers, textures, synchronization objects, the recorded
command executor, compute pipelines and storage buffers, the SGPU command wire
format and compute session, the Metal acceptance track surfaces (acceptance
report, display-path freeze, public ABI, transport frames, probes, D10 gate
evaluation), the canonical GPU description and vendor adapters, and the rules
of the host Vulkan compute backend (device baseline and selection, memory-type
choice, SPIR-V profile reflection, dispatch limits, pipeline reuse).

Layout:

- `src/` — the verified library. Each module states its behaviour in
  `requires`/`ensures` contracts over spec functions and views; laws that relate
  several operations are public proof functions named `law_*`.
- `tests/` — tests of the library on concrete values.
- `app/` — host code around the library: the Vulkan loader and driver calls,
  the `spirv-val` process, the floating-point software rasterizer and texture
  sampler, host-platform detection, and serde/thiserror copies of library
  types.

Graphics-API `f32` values (clear colors, viewport, sampler limits) are carried
through the library as IEEE-754 bit patterns; the conversion of a color channel
to a byte is proved equal to `(channel * 255.0) as u8` on the bit pattern.

Fences, semaphores and events made by their own constructors hold their own
state; those the synchronization manager hands out are handles on the
manager's state: every such handle with the same id reads and changes one
entry, and changes go through a `&mut` borrow of the manager.
