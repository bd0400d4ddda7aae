//! Caches of GPU render state: which render passes and material passes are
//! registered in which render phase, which graphics pipelines have been built
//! for them, and the descriptor set of the image blit shader.

mod fnv_map;
pub mod render_registry;
pub mod cache_state;
pub mod pipeline_cache;
pub mod laws;
pub mod descriptor_set;
pub mod util_blit_image_vert;
