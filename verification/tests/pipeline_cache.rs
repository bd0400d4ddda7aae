use renderer_assets::cache_state::CachedGraphicsPipelineKey;
use renderer_assets::pipeline_cache::{GraphicsPipelineCache, LiveResources, RenderPhase};
use renderer_assets::render_registry::{RenderRegistry, MAX_RENDER_PHASE_COUNT};

fn registry() -> RenderRegistry {
    let mut registry = RenderRegistry::new();
    assert_eq!(registry.register_render_phase("Opaque"), Some(0));
    assert_eq!(registry.register_render_phase("Transparent"), Some(1));
    registry
}

fn live(renderpasses: &[u64], material_passes: &[u64]) -> LiveResources {
    LiveResources::new(renderpasses.to_vec(), material_passes.to_vec())
}

fn key(material_pass: u64, renderpass: u64) -> CachedGraphicsPipelineKey {
    CachedGraphicsPipelineKey { material_pass, renderpass }
}

fn sorted(mut keys: Vec<CachedGraphicsPipelineKey>) -> Vec<(u64, u64)> {
    keys.sort_by_key(|k| (k.material_pass, k.renderpass));
    keys.into_iter().map(|k| (k.material_pass, k.renderpass)).collect()
}

/// Builds every missing pipeline, numbering them from `first_id`.
fn cache_all(cache: &mut GraphicsPipelineCache, live: &LiveResources, first_id: u64) -> usize {
    let missing = cache.missing_pipelines(live);
    let created: Vec<(CachedGraphicsPipelineKey, u64)> =
        missing.iter().enumerate().map(|(i, k)| (*k, first_id + i as u64)).collect();
    cache.cache_created_pipelines(&created);
    created.len()
}

#[test]
fn new_cache_is_empty() {
    let cache = GraphicsPipelineCache::new(&registry());
    assert!(cache.missing_pipelines(&live(&[1], &[2])).is_empty());
    assert_eq!(cache.find_graphics_pipeline(2, 1), None);
}

#[test]
fn renderphase_lookup_by_name() {
    let cache = GraphicsPipelineCache::new(&registry());
    assert_eq!(cache.get_renderphase_by_name("Opaque"), Some(0));
    assert_eq!(cache.get_renderphase_by_name("Transparent"), Some(1));
    assert_eq!(cache.get_renderphase_by_name("Shadow"), None);
}

#[test]
fn registry_is_full_after_max_phases() {
    let mut registry = RenderRegistry::new();
    for i in 0..MAX_RENDER_PHASE_COUNT {
        assert_eq!(registry.register_render_phase(&format!("phase{}", i)), Some(i));
    }
    assert_eq!(registry.register_render_phase("one_too_many"), None);
    assert_eq!(registry.render_phase_index_from_name("phase31"), Some(31));
    assert_eq!(registry.render_phase_index_from_name("one_too_many"), None);
}

#[test]
fn registry_latest_registration_of_a_name_wins() {
    let mut registry = RenderRegistry::new();
    registry.register_render_phase("A");
    registry.register_render_phase("B");
    registry.register_render_phase("A");
    assert_eq!(registry.render_phase_index_from_name("A"), Some(2));
    assert_eq!(registry.render_phase_index_from_name("B"), Some(1));
}

#[test]
fn pairs_in_the_same_phase_need_pipelines() {
    let mut cache = GraphicsPipelineCache::new(&registry());
    cache.register_renderpass_to_phase_index_per_frame(10, 0);
    cache.register_renderpass_to_phase_index_per_frame(11, 1);
    cache.register_material_to_phase_index(20, 0);
    cache.register_material_to_phase_index(21, 0);
    cache.register_material_to_phase_index(22, 1);
    let live = live(&[10, 11], &[20, 21, 22]);
    let missing = cache.missing_pipelines(&live);
    assert_eq!(sorted(missing), vec![(20, 10), (21, 10), (22, 11)]);
}

#[test]
fn a_pair_in_two_phases_is_listed_once() {
    let mut cache = GraphicsPipelineCache::new(&registry());
    cache.register_renderpass_to_phase_index_per_frame(10, 0);
    cache.register_renderpass_to_phase_index_per_frame(10, 1);
    cache.register_material_to_phase_index(20, 0);
    cache.register_material_to_phase_index(20, 1);
    let missing = cache.missing_pipelines(&live(&[10], &[20]));
    assert_eq!(sorted(missing), vec![(20, 10)]);
}

#[test]
fn dead_resources_need_no_pipeline() {
    let mut cache = GraphicsPipelineCache::new(&registry());
    cache.register_renderpass_to_phase_index_per_frame(10, 0);
    cache.register_material_to_phase_index(20, 0);
    cache.register_material_to_phase_index(21, 0);
    assert_eq!(sorted(cache.missing_pipelines(&live(&[10], &[21]))), vec![(21, 10)]);
    assert!(cache.missing_pipelines(&live(&[], &[20, 21])).is_empty());
}

#[test]
fn cached_pipelines_are_found_and_not_missing() {
    let mut cache = GraphicsPipelineCache::new(&registry());
    cache.register_renderpass_to_phase_index_per_frame(10, 0);
    cache.register_material_to_phase_index(20, 0);
    let live = live(&[10], &[20]);
    assert_eq!(cache_all(&mut cache, &live, 100), 1);
    assert_eq!(cache.find_graphics_pipeline(20, 10), Some(100));
    assert_eq!(cache.find_graphics_pipeline(10, 20), None);
    assert!(cache.missing_pipelines(&live).is_empty());
    // caching again changes nothing
    assert_eq!(cache_all(&mut cache, &live, 200), 0);
    assert_eq!(cache.find_graphics_pipeline(20, 10), Some(100));
}

#[test]
fn later_pipeline_for_a_pair_replaces_earlier() {
    let mut cache = GraphicsPipelineCache::new(&registry());
    cache.cache_created_pipelines(&vec![(key(1, 2), 5), (key(1, 2), 6), (key(3, 4), 7)]);
    assert_eq!(cache.find_graphics_pipeline(1, 2), Some(6));
    assert_eq!(cache.find_graphics_pipeline(3, 4), Some(7));
}

#[test]
fn clear_pipelines_makes_them_missing_again() {
    let mut cache = GraphicsPipelineCache::new(&registry());
    cache.register_renderpass_to_phase_index_per_frame(10, 0);
    cache.register_material_to_phase_index(20, 0);
    let live = live(&[10], &[20]);
    cache_all(&mut cache, &live, 1);
    cache.clear_pipelines();
    assert_eq!(cache.find_graphics_pipeline(20, 10), None);
    assert_eq!(sorted(cache.missing_pipelines(&live)), vec![(20, 10)]);
}

#[test]
fn renderpass_registration_expires_after_one_frame() {
    let mut cache = GraphicsPipelineCache::new(&registry());
    cache.register_renderpass_to_phase_index_per_frame(10, 0);
    cache.register_material_to_phase_index(20, 0);
    let live = live(&[10], &[20]);
    cache_all(&mut cache, &live, 1);
    cache.on_frame_complete(&live);
    // the render pass was not registered again: no pipeline is due for it any more
    assert!(cache.missing_pipelines(&live).is_empty());
    cache.clear_pipelines();
    assert!(cache.missing_pipelines(&live).is_empty());
    // the material pass is still registered
    cache.register_renderpass_to_phase_index_per_frame(10, 0);
    assert_eq!(sorted(cache.missing_pipelines(&live)), vec![(20, 10)]);
}

#[test]
fn renderpass_registered_every_frame_stays() {
    let mut cache = GraphicsPipelineCache::new(&registry());
    cache.register_material_to_phase_index(20, 0);
    let live = live(&[10], &[20]);
    for _ in 0..3 {
        cache.register_renderpass_to_phase_index_per_frame(10, 0);
        cache.clear_pipelines();
        assert_eq!(sorted(cache.missing_pipelines(&live)), vec![(20, 10)]);
        cache.on_frame_complete(&live);
    }
}

#[test]
fn frame_completion_drops_pipelines_of_dead_resources() {
    let mut cache = GraphicsPipelineCache::new(&registry());
    cache.register_renderpass_to_phase_index_per_frame(10, 0);
    cache.register_renderpass_to_phase_index_per_frame(11, 0);
    cache.register_material_to_phase_index(20, 0);
    let all = live(&[10, 11], &[20]);
    assert_eq!(cache_all(&mut cache, &all, 1), 2);
    cache.on_frame_complete(&live(&[10], &[20]));
    assert!(cache.find_graphics_pipeline(20, 10).is_some());
    assert_eq!(cache.find_graphics_pipeline(20, 11), None);
    cache.drop_unused_pipelines(&live(&[10], &[]));
    assert_eq!(cache.find_graphics_pipeline(20, 10), None);
}

#[test]
fn drop_unused_twice_is_drop_unused_once() {
    let mut cache = GraphicsPipelineCache::new(&registry());
    cache.register_renderpass_to_phase_index_per_frame(10, 0);
    cache.register_material_to_phase_index(20, 0);
    cache.register_material_to_phase_index(21, 0);
    let all = live(&[10], &[20, 21]);
    cache_all(&mut cache, &all, 1);
    let some = live(&[10], &[21]);
    cache.drop_unused_pipelines(&some);
    let first = (cache.find_graphics_pipeline(20, 10), cache.find_graphics_pipeline(21, 10));
    cache.drop_unused_pipelines(&some);
    let second = (cache.find_graphics_pipeline(20, 10), cache.find_graphics_pipeline(21, 10));
    assert_eq!(first, second);
    assert_eq!(first.0, None);
    assert!(first.1.is_some());
}

#[test]
fn dead_material_pass_is_unregistered() {
    let mut cache = GraphicsPipelineCache::new(&registry());
    cache.register_material_to_phase_index(20, 0);
    cache.drop_unused_pipelines(&live(&[], &[]));
    cache.register_renderpass_to_phase_index_per_frame(10, 0);
    assert!(cache.missing_pipelines(&live(&[10], &[20])).is_empty());
}

struct Opaque;

impl RenderPhase for Opaque {
    fn spec_render_phase_index() -> u32 {
        1
    }

    fn render_phase_index() -> u32 {
        1
    }
}

#[test]
fn register_renderpass_by_phase_type() {
    let mut cache = GraphicsPipelineCache::new(&registry());
    cache.register_renderpass_to_phase_per_frame::<Opaque>(10);
    cache.register_material_to_phase_index(20, 1);
    cache.register_material_to_phase_index(21, 0);
    assert_eq!(sorted(cache.missing_pipelines(&live(&[10], &[20, 21]))), vec![(20, 10)]);
}

#[test]
fn build_results_cache_all_when_every_build_succeeds() {
    let mut cache = GraphicsPipelineCache::new(&registry());
    let missing = vec![key(1, 2), key(3, 4)];
    let results: Vec<Result<u64, String>> = vec![Ok(10), Ok(11)];
    assert_eq!(cache.cache_build_results(&missing, results), Ok(()));
    assert_eq!(cache.find_graphics_pipeline(1, 2), Some(10));
    assert_eq!(cache.find_graphics_pipeline(3, 4), Some(11));
}

#[test]
fn build_results_stop_at_first_failure() {
    let mut cache = GraphicsPipelineCache::new(&registry());
    let missing = vec![key(1, 2), key(3, 4), key(5, 6)];
    let results: Vec<Result<u64, String>> = vec![Ok(10), Err("device lost".to_string()), Ok(12)];
    assert_eq!(cache.cache_build_results(&missing, results), Err("device lost".to_string()));
    assert_eq!(cache.find_graphics_pipeline(1, 2), Some(10));
    assert_eq!(cache.find_graphics_pipeline(3, 4), None);
    assert_eq!(cache.find_graphics_pipeline(5, 6), None);
}

#[test]
fn renderphase_lookup_matches_registry_after_calls() {
    let registry = registry();
    let mut cache = GraphicsPipelineCache::new(&registry);
    cache.register_renderpass_to_phase_index_per_frame(10, 0);
    cache.register_material_to_phase_index(20, 1);
    cache.cache_created_pipelines(&vec![(key(20, 10), 1)]);
    cache.on_frame_complete(&live(&[10], &[20]));
    for name in ["Opaque", "Transparent", "Shadow"] {
        assert_eq!(cache.get_renderphase_by_name(name), registry.render_phase_index_from_name(name));
    }
}

#[test]
fn next_build_walks_missing_in_order_and_stops_at_failure() {
    let missing = vec![key(1, 2), key(3, 4), key(5, 6)];
    let mut results: Vec<Result<u64, String>> = Vec::new();
    assert_eq!(GraphicsPipelineCache::next_build(&missing, &results), Some(0));
    results.push(Ok(10));
    assert_eq!(GraphicsPipelineCache::next_build(&missing, &results), Some(1));
    results.push(Err("out of memory".to_string()));
    assert_eq!(GraphicsPipelineCache::next_build(&missing, &results), None);
}

#[test]
fn next_build_ends_when_every_pair_is_built() {
    let missing = vec![key(1, 2)];
    let results: Vec<Result<u64, String>> = vec![Ok(10)];
    assert_eq!(GraphicsPipelineCache::next_build(&missing, &results), None);
    let none: Vec<CachedGraphicsPipelineKey> = Vec::new();
    let empty: Vec<Result<u64, String>> = Vec::new();
    assert_eq!(GraphicsPipelineCache::next_build(&none, &empty), None);
}
