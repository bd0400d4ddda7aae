# renderer_assets

Verified caches of GPU render state.

- `src/pipeline_cache.rs`: the graphics pipeline cache. Render passes and
  material passes are registered per render phase; a pipeline is due for each
  pair registered in the same phase while both resources exist. Render pass
  registrations expire after `frames_to_persist` frames; at the end of each
  frame, registrations and pipelines of resources that are gone are dropped.
  Whether a resource still exists is handed in as a `LiveResources`.
- `src/cache_state.rs`: the abstract state of the cache and what each
  operation does to it; `src/laws.rs` states and proves what holds across
  operations.
- `src/render_registry.rs`: render phases by name and index.
- `src/descriptor_set.rs`, `src/util_blit_image_vert.rs`: a descriptor set
  with pending writes, and set 0 of the image blit vertex shader.
- `src/fnv_map.rs`: the FNV-hashed maps (crate `fnv`) the cache keeps its
  entries in, with the contracts of the map operations used.
- `app/lib.rs`: the `f32` form of the blit shader's uniform block, and the
  loop that builds missing pipelines with a caller-supplied function. Which
  pair to build next, and stopping at the first failure, is decided by the
  verified `GraphicsPipelineCache::next_build`; what gets cached then, by
  `GraphicsPipelineCache::cache_build_results`.
