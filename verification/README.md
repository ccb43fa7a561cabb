# candybox_gfx

The resource bookkeeping of a small wgpu rendering engine, verified with Verus.

- `src/` is the verified library:
  - `kernel::materials` — texture-array size classes, the layer allocator
    (`MemoryGraph`), the texture-array records and the material system, whose
    methods answer the GPU work to do as a list of `MaterialCommand`s;
  - `kernel::meshes` — the instance-buffer slot heap (`MemoryHeap`), the
    instance-buffer records and the mesh system, which answers `MeshCommand`s
    and the draw calls of a frame; `kernel::meshes::laws` states what holds
    across its operations;
  - `kernel` — the surface state of the render kernel (`Core`): resizing,
    reconfiguring, the outcome of a frame and the recovery from a failed one;
  - `materials` — material handles and decoded textures (through the `image`
    crate).
- `tests/` runs the library on concrete cases.
- `app/` is the demo program: it opens a window, owns the GPU objects, and
  carries out the commands that the library plans. It reads its shaders from
  `assets/shaders/` and its images from `assets/textures/` at run time.
