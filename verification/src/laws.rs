//! What holds across the operations of the pipeline cache and the render
//! registry, stated over their abstract states.
use vstd::prelude::*;
use crate::render_registry::{MAX_RENDER_PHASE_COUNT, RenderPhaseIndex, phase_index_of};
use crate::cache_state::{ResourceId, GraphicsPipelineId, CachedGraphicsPipelineKey, PipelineCacheState, CacheOp};
use crate::descriptor_set::{DynDescriptorSetState, DescriptorWrite, DescriptorKind, DescriptorContent, ImageViewId, DescriptorBinding, layout_kinds, distinct_bindings};
use crate::util_blit_image_vert::{ConfigStd140Bits, config_std140_bytes, u32_le_bytes, with_args};

verus! {

/// A phase registered under `name` is found under that name.
pub proof fn law_registered_phase_is_found(names: Seq<Seq<char>>, name: Seq<char>)
    requires
        names.len() < MAX_RENDER_PHASE_COUNT,
    ensures
        phase_index_of(names.push(name), name) == Some(names.len() as RenderPhaseIndex),
{
    assert(names.push(name).last() == name);
}

/// Registering a phase under another name does not change what `name` finds.
pub proof fn law_other_registration_keeps_lookup(names: Seq<Seq<char>>, other: Seq<char>, name: Seq<char>)
    requires
        other != name,
    ensures
        phase_index_of(names.push(other), name) == phase_index_of(names, name),
{
    assert(names.push(other).drop_last() =~= names);
}

/// Registering a render pass in a phase twice, with no frame completed in
/// between, does what registering it once does.
pub proof fn law_register_renderpass_idempotent(s: PipelineCacheState, phase: int, renderpass: ResourceId)
    requires
        s.has_all_phases(),
        0 <= phase < MAX_RENDER_PHASE_COUNT,
    ensures
        s.register_renderpass(phase, renderpass).register_renderpass(phase, renderpass) == s.register_renderpass(
            phase,
            renderpass,
        ),
{
    let once = s.register_renderpass(phase, renderpass);
    let twice = once.register_renderpass(phase, renderpass);
    assert(twice.renderpasses[phase] =~= once.renderpasses[phase]);
    assert(twice.renderpasses =~= once.renderpasses);
}

/// Registering a render pass in a phase sets that one registration to run
/// out `frames_to_persist` frames from now and changes nothing else: no
/// pipeline, no material pass registration, no other registration, and not
/// the frame index.
pub proof fn law_register_renderpass_changes_only_its_entry(s: PipelineCacheState, phase: int, renderpass: ResourceId)
    requires
        s.has_all_phases(),
        0 <= phase < MAX_RENDER_PHASE_COUNT,
    ensures
        ({
            let t = s.register_renderpass(phase, renderpass);
            &&& t.has_all_phases()
            &&& t.renderpasses[phase].contains_key(renderpass)
            &&& t.renderpasses[phase][renderpass] == s.keep_until()
            &&& forall|other: ResourceId| other != renderpass ==> (#[trigger] t.renderpasses[phase].contains_key(other)
                <==> s.renderpasses[phase].contains_key(other)) && t.renderpasses[phase][other] == s.renderpasses[phase][other]
            &&& forall|q: int| 0 <= q < MAX_RENDER_PHASE_COUNT && q != phase ==> #[trigger] t.renderpasses[q] == s.renderpasses[q]
            &&& t.material_passes == s.material_passes
            &&& t.pipelines == s.pipelines
            &&& t.current_frame_index == s.current_frame_index
            &&& t.frames_to_persist == s.frames_to_persist
            &&& t.phase_names == s.phase_names
        }),
{
}

/// Registering a material pass that is registered in the phase already
/// changes nothing; so registering one twice does what registering it once
/// does.
pub proof fn law_register_material_pass_again_changes_nothing(s: PipelineCacheState, phase: int, material_pass: ResourceId)
    requires
        s.has_all_phases(),
        0 <= phase < MAX_RENDER_PHASE_COUNT,
    ensures
        s.material_passes[phase].contains(material_pass) ==> s.register_material_pass(phase, material_pass) == s,
        s.register_material_pass(phase, material_pass).register_material_pass(phase, material_pass)
            == s.register_material_pass(phase, material_pass),
{
    if s.material_passes[phase].contains(material_pass) {
        assert(s.material_passes[phase].insert(material_pass) =~= s.material_passes[phase]);
        assert(s.register_material_pass(phase, material_pass).material_passes =~= s.material_passes);
    }
    let once = s.register_material_pass(phase, material_pass);
    let twice = once.register_material_pass(phase, material_pass);
    assert(twice.material_passes[phase] =~= once.material_passes[phase]);
    assert(twice.material_passes =~= once.material_passes);
}

/// Registering a material pass in a phase adds it to that phase and changes
/// nothing else: no pipeline, no render pass registration, no other
/// registration, and not the frame index.
pub proof fn law_register_material_pass_changes_only_its_entry(s: PipelineCacheState, phase: int, material_pass: ResourceId)
    requires
        s.has_all_phases(),
        0 <= phase < MAX_RENDER_PHASE_COUNT,
    ensures
        ({
            let t = s.register_material_pass(phase, material_pass);
            &&& t.has_all_phases()
            &&& t.material_passes[phase].contains(material_pass)
            &&& forall|other: ResourceId| other != material_pass ==> (#[trigger] t.material_passes[phase].contains(other)
                <==> s.material_passes[phase].contains(other))
            &&& forall|q: int| 0 <= q < MAX_RENDER_PHASE_COUNT && q != phase ==> #[trigger] t.material_passes[q] == s.material_passes[q]
            &&& t.renderpasses == s.renderpasses
            &&& t.pipelines == s.pipelines
            &&& t.current_frame_index == s.current_frame_index
            &&& t.frames_to_persist == s.frames_to_persist
            &&& t.phase_names == s.phase_names
        }),
{
}

/// With registrations lasting one frame, a render pass registered in one
/// phase only and not registered again is gone from every phase once the
/// frame completes: no pipeline is due for it any more, and none is cached
/// for it that was not cached before.
pub proof fn law_unrenewed_renderpass_expires(
    s: PipelineCacheState,
    phase: int,
    renderpass: ResourceId,
    live_renderpasses: Set<ResourceId>,
    live_material_passes: Set<ResourceId>,
)
    requires
        s.has_all_phases(),
        0 <= phase < MAX_RENDER_PHASE_COUNT,
        s.frames_to_persist == 1,
        s.current_frame_index < u64::MAX,
        forall|q: int| 0 <= q < MAX_RENDER_PHASE_COUNT && q != phase ==> !(#[trigger] s.renderpasses[q]).contains_key(renderpass),
    ensures
        ({
            let t = s.register_renderpass(phase, renderpass).complete_frame(live_renderpasses, live_material_passes);
            &&& forall|q: int| 0 <= q < MAX_RENDER_PHASE_COUNT ==> !(#[trigger] t.renderpasses[q]).contains_key(renderpass)
            &&& forall|k: CachedGraphicsPipelineKey| #[trigger] t.missing_pipelines(live_renderpasses, live_material_passes).contains(k)
                ==> k.renderpass != renderpass
            &&& forall|k: CachedGraphicsPipelineKey| #[trigger] t.pipelines.contains_key(k) ==> s.pipelines.contains_key(k)
        }),
{
    let t = s.register_renderpass(phase, renderpass).complete_frame(live_renderpasses, live_material_passes);
    assert forall|k: CachedGraphicsPipelineKey| #[trigger] t.missing_pipelines(live_renderpasses, live_material_passes).contains(k)
        implies k.renderpass != renderpass by {
        let p = choose|p: int|
            0 <= p < MAX_RENDER_PHASE_COUNT && #[trigger] t.renderpasses[p].contains_key(k.renderpass)
                && t.material_passes[p].contains(k.material_pass);
        assert(!t.renderpasses[p].contains_key(renderpass));
    }
}

/// Sweeping unused entries twice, with the same resources alive, does what
/// sweeping once does.
pub proof fn law_drop_unused_idempotent(s: PipelineCacheState, live_renderpasses: Set<ResourceId>, live_material_passes: Set<ResourceId>)
    ensures
        s.drop_unused(live_renderpasses, live_material_passes).drop_unused(live_renderpasses, live_material_passes)
            == s.drop_unused(live_renderpasses, live_material_passes),
{
    let once = s.drop_unused(live_renderpasses, live_material_passes);
    let twice = once.drop_unused(live_renderpasses, live_material_passes);
    assert forall|p: int| 0 <= p < s.renderpasses.len() implies #[trigger] twice.renderpasses[p] =~= once.renderpasses[p] by {}
    assert(twice.renderpasses =~= once.renderpasses);
    assert forall|p: int| 0 <= p < s.material_passes.len() implies #[trigger] twice.material_passes[p] =~= once.material_passes[p] by {}
    assert(twice.material_passes =~= once.material_passes);
    assert(twice.pipelines =~= once.pipelines);
    assert(twice =~= once);
}

/// After a sweep, every cached pipeline was cached before, unchanged, and
/// both its resources are alive; every registered render pass is alive and
/// its registration outlasts the current frame; every registered material
/// pass is alive.
pub proof fn law_drop_unused_keeps_only_live(s: PipelineCacheState, live_renderpasses: Set<ResourceId>, live_material_passes: Set<ResourceId>)
    ensures
        ({
            let t = s.drop_unused(live_renderpasses, live_material_passes);
            &&& forall|k: CachedGraphicsPipelineKey| #[trigger] t.pipelines.contains_key(k) ==> {
                &&& s.pipelines.contains_key(k)
                &&& t.pipelines[k] == s.pipelines[k]
                &&& live_renderpasses.contains(k.renderpass)
                &&& live_material_passes.contains(k.material_pass)
            }
            &&& forall|p: int, rp: ResourceId| 0 <= p < s.renderpasses.len() && #[trigger] t.renderpasses[p].contains_key(rp) ==> {
                &&& live_renderpasses.contains(rp)
                &&& t.renderpasses[p][rp] > t.current_frame_index
                &&& s.renderpasses[p].contains_key(rp)
            }
            &&& forall|p: int, mp: ResourceId| 0 <= p < s.material_passes.len() && #[trigger] t.material_passes[p].contains(mp) ==> {
                &&& live_material_passes.contains(mp)
                &&& s.material_passes[p].contains(mp)
            }
        }),
{
}

/// A render pass registered in a frame is still registered after that
/// frame completes exactly when it still exists and registrations last
/// longer than one frame: with the default of one frame, a render pass must
/// be registered again every frame.
pub proof fn law_registration_lasts_frames_to_persist(
    s: PipelineCacheState,
    phase: int,
    renderpass: ResourceId,
    live_renderpasses: Set<ResourceId>,
    live_material_passes: Set<ResourceId>,
)
    requires
        s.has_all_phases(),
        0 <= phase < MAX_RENDER_PHASE_COUNT,
        s.current_frame_index + s.frames_to_persist <= u64::MAX,
        s.current_frame_index < u64::MAX,
    ensures
        s.register_renderpass(phase, renderpass).complete_frame(live_renderpasses, live_material_passes).renderpasses[phase].contains_key(
            renderpass,
        ) <==> (live_renderpasses.contains(renderpass) && s.frames_to_persist > 1),
{
}

/// Once a render pass and a material pass are registered in the same phase,
/// a pipeline is due for them exactly when both are alive and none is
/// cached yet.
pub proof fn law_registered_pair_needs_pipeline(
    s: PipelineCacheState,
    phase: int,
    renderpass: ResourceId,
    material_pass: ResourceId,
    live_renderpasses: Set<ResourceId>,
    live_material_passes: Set<ResourceId>,
)
    requires
        s.has_all_phases(),
        0 <= phase < MAX_RENDER_PHASE_COUNT,
    ensures
        ({
            let t = s.register_renderpass(phase, renderpass).register_material_pass(phase, material_pass);
            let key = CachedGraphicsPipelineKey { material_pass, renderpass };
            t.missing_pipelines(live_renderpasses, live_material_passes).contains(key) <==> (
                live_renderpasses.contains(renderpass) && live_material_passes.contains(material_pass)
                    && !s.pipelines.contains_key(key))
        }),
{
    let t = s.register_renderpass(phase, renderpass).register_material_pass(phase, material_pass);
    let key = CachedGraphicsPipelineKey { material_pass, renderpass };
    assert(t.renderpasses[phase].contains_key(key.renderpass));
    assert(t.material_passes[phase].contains(key.material_pass));
    assert(t.registered_together(key));
}

/// Caching pipelines changes only the cached pipelines: a pair has one
/// afterwards exactly when it had one before or is among those cached; the
/// pipeline of a pair is the last one cached for it.
pub proof fn lemma_cache_created(s: PipelineCacheState, created: Seq<(CachedGraphicsPipelineKey, GraphicsPipelineId)>)
    ensures
        ({
            let t = s.cache_created(created);
            &&& t.renderpasses == s.renderpasses
            &&& t.material_passes == s.material_passes
            &&& t.phase_names == s.phase_names
            &&& t.current_frame_index == s.current_frame_index
            &&& t.frames_to_persist == s.frames_to_persist
            &&& forall|k: CachedGraphicsPipelineKey| #[trigger] t.pipelines.contains_key(k) <==> (
                s.pipelines.contains_key(k) || exists|i: int| 0 <= i < created.len() && #[trigger] created[i].0 == k)
        }),
    decreases created.len(),
{
    if created.len() > 0 {
        let prev = created.drop_last();
        lemma_cache_created(s, prev);
        let t = s.cache_created(created);
        assert forall|k: CachedGraphicsPipelineKey| #[trigger] t.pipelines.contains_key(k) <==> (
            s.pipelines.contains_key(k) || exists|i: int| 0 <= i < created.len() && #[trigger] created[i].0 == k) by {
            if exists|i: int| 0 <= i < created.len() && #[trigger] created[i].0 == k {
                let i = choose|i: int| 0 <= i < created.len() && #[trigger] created[i].0 == k;
                if i < prev.len() {
                    assert(prev[i].0 == k);
                }
            }
            if exists|i: int| 0 <= i < prev.len() && #[trigger] prev[i].0 == k {
                let i = choose|i: int| 0 <= i < prev.len() && #[trigger] prev[i].0 == k;
                assert(created[i].0 == k);
            }
            if k == created.last().0 {
                assert(created[created.len() - 1].0 == k);
            }
        }
    }
}

/// The pipeline of a pair after caching is the one of the last entry of
/// `created` for that pair, or the one it had before where `created` has
/// none.
pub proof fn lemma_cache_created_value(
    s: PipelineCacheState,
    created: Seq<(CachedGraphicsPipelineKey, GraphicsPipelineId)>,
    key: CachedGraphicsPipelineKey,
)
    ensures
        s.cache_created(created).pipelines.contains_key(key) ==> (exists|j: int|
            0 <= j < created.len() && #[trigger] created[j] == (key, s.cache_created(created).pipelines[key])) || (
        s.pipelines.contains_key(key) && s.cache_created(created).pipelines[key] == s.pipelines[key]),
    decreases created.len(),
{
    if created.len() > 0 {
        let prev = created.drop_last();
        lemma_cache_created_value(s, prev, key);
        let t = s.cache_created(created);
        if t.pipelines.contains_key(key) {
            if created.last().0 == key {
                assert(created[created.len() - 1] == (key, t.pipelines[key]));
            } else {
                assert(t.pipelines[key] == s.cache_created(prev).pipelines[key]);
                if exists|j: int| 0 <= j < prev.len() && #[trigger] prev[j] == (key, s.cache_created(prev).pipelines[key]) {
                    let j = choose|j: int| 0 <= j < prev.len() && #[trigger] prev[j] == (key, s.cache_created(prev).pipelines[key]);
                    assert(created[j] == prev[j]);
                }
            }
        }
    }
}

/// A call that caches nothing never adds a pipeline nor changes one: every
/// pipeline afterwards was there before, unchanged.
pub proof fn lemma_apply_without_caching(s: PipelineCacheState, op: CacheOp)
    requires
        !op.caches(),
    ensures
        forall|k: CachedGraphicsPipelineKey| #[trigger] s.apply(op).pipelines.contains_key(k) ==> s.pipelines.contains_key(k)
            && s.apply(op).pipelines[k] == s.pipelines[k],
{
}

/// No call changes the names of the render phases.
pub proof fn law_run_keeps_phase_names(s: PipelineCacheState, ops: Seq<CacheOp>)
    ensures
        s.run(ops).phase_names == s.phase_names,
    decreases ops.len(),
{
    if ops.len() > 0 {
        law_run_keeps_phase_names(s, ops.drop_last());
        if let CacheOp::CacheCreated { created } = ops.last() {
            lemma_cache_created(s.run(ops.drop_last()), created);
        }
    }
}

/// Calls that cache nothing neither add nor change pipelines: every
/// pipeline afterwards was there before, unchanged.
pub proof fn law_pipelines_only_come_from_caching(s: PipelineCacheState, ops: Seq<CacheOp>)
    requires
        forall|i: int| 0 <= i < ops.len() ==> !(#[trigger] ops[i]).caches(),
    ensures
        forall|k: CachedGraphicsPipelineKey| #[trigger] s.run(ops).pipelines.contains_key(k) ==> s.pipelines.contains_key(k)
            && s.run(ops).pipelines[k] == s.pipelines[k],
    decreases ops.len(),
{
    if ops.len() > 0 {
        let prev = ops.drop_last();
        assert forall|i: int| 0 <= i < prev.len() implies !(#[trigger] prev[i]).caches() by {
            assert(prev[i] == ops[i]);
        }
        law_pipelines_only_come_from_caching(s, prev);
        assert(!ops[ops.len() - 1].caches());
        lemma_apply_without_caching(s.run(prev), ops.last());
    }
}

/// A new cache, or one whose pipelines were just cleared, finds no pipeline
/// until a call caches one.
pub proof fn law_no_pipeline_before_caching(
    phase_names: Seq<Seq<char>>,
    frames_to_persist: u64,
    s: PipelineCacheState,
    ops: Seq<CacheOp>,
)
    requires
        forall|i: int| 0 <= i < ops.len() ==> !(#[trigger] ops[i]).caches(),
    ensures
        forall|k: CachedGraphicsPipelineKey|
            !#[trigger] PipelineCacheState::initial(phase_names, frames_to_persist).run(ops).pipelines.contains_key(k),
        forall|k: CachedGraphicsPipelineKey| !#[trigger] s.clear_pipelines().run(ops).pipelines.contains_key(k),
{
    law_pipelines_only_come_from_caching(PipelineCacheState::initial(phase_names, frames_to_persist), ops);
    law_pipelines_only_come_from_caching(s.clear_pipelines(), ops);
}

/// A pipeline found after a sequence of calls was either there before them,
/// unchanged, or was cached for that pair by one of them.
pub proof fn law_found_pipeline_was_cached(s: PipelineCacheState, ops: Seq<CacheOp>, key: CachedGraphicsPipelineKey)
    ensures
        s.run(ops).pipelines.contains_key(key) ==> (s.pipelines.contains_key(key) && s.run(ops).pipelines[key]
            == s.pipelines[key]) || exists|i: int|
            0 <= i < ops.len() && #[trigger] ops[i].caches_pipeline(key, s.run(ops).pipelines[key]),
    decreases ops.len(),
{
    if ops.len() > 0 {
        let prev = ops.drop_last();
        let u = s.run(prev);
        let t = s.run(ops);
        law_found_pipeline_was_cached(s, prev, key);
        if t.pipelines.contains_key(key) {
            let last = ops.last();
            let from_before = u.pipelines.contains_key(key) && u.pipelines[key] == t.pipelines[key];
            if let CacheOp::CacheCreated { created } = last {
                lemma_cache_created_value(u, created, key);
                if !from_before {
                    assert(ops[ops.len() - 1].caches_pipeline(key, t.pipelines[key]));
                }
            } else {
                lemma_apply_without_caching(u, last);
            }
            if from_before {
                if !(s.pipelines.contains_key(key) && u.pipelines[key] == s.pipelines[key]) {
                    let i = choose|i: int| 0 <= i < prev.len() && #[trigger] prev[i].caches_pipeline(key, u.pipelines[key]);
                    assert(ops[i] == prev[i]);
                }
            }
        }
    }
}

/// Completing a frame keeps every cached pipeline whose render pass and
/// material pass are both alive, unchanged, even where the render pass's
/// registration ran out: only a resource that is gone evicts a pipeline.
pub proof fn law_live_pipeline_survives_frame(
    s: PipelineCacheState,
    key: CachedGraphicsPipelineKey,
    live_renderpasses: Set<ResourceId>,
    live_material_passes: Set<ResourceId>,
)
    requires
        s.pipelines.contains_key(key),
        live_renderpasses.contains(key.renderpass),
        live_material_passes.contains(key.material_pass),
    ensures
        s.complete_frame(live_renderpasses, live_material_passes).pipelines.contains_key(key),
        s.complete_frame(live_renderpasses, live_material_passes).pipelines[key] == s.pipelines[key],
{
}

/// Caching a pipeline for each pair that was due one leaves no pair due:
/// every render pass and material pass that are registered together and
/// alive then have a cached pipeline.
pub proof fn law_caching_missing_completes(
    s: PipelineCacheState,
    live_renderpasses: Set<ResourceId>,
    live_material_passes: Set<ResourceId>,
    created: Seq<(CachedGraphicsPipelineKey, GraphicsPipelineId)>,
)
    requires
        forall|k: CachedGraphicsPipelineKey|
            #[trigger] s.missing_pipelines(live_renderpasses, live_material_passes).contains(k) ==> exists|i: int|
                0 <= i < created.len() && #[trigger] created[i].0 == k,
    ensures
        ({
            let t = s.cache_created(created);
            &&& t.missing_pipelines(live_renderpasses, live_material_passes) == Set::<CachedGraphicsPipelineKey>::empty()
            &&& forall|k: CachedGraphicsPipelineKey|
                #[trigger] t.registered_together(k) && live_renderpasses.contains(k.renderpass)
                    && live_material_passes.contains(k.material_pass) ==> t.pipelines.contains_key(k)
        }),
{
    let t = s.cache_created(created);
    lemma_cache_created(s, created);
    assert forall|k: CachedGraphicsPipelineKey|
        #[trigger] t.registered_together(k) && live_renderpasses.contains(k.renderpass)
            && live_material_passes.contains(k.material_pass) implies t.pipelines.contains_key(k) by {
        assert(s.registered_together(k));
        if !s.pipelines.contains_key(k) {
            assert(s.missing_pipelines(live_renderpasses, live_material_passes).contains(k));
        }
    }
    assert(t.missing_pipelines(live_renderpasses, live_material_passes) =~= Set::<CachedGraphicsPipelineKey>::empty());
}

/// The pipeline found for a pair right after caching one for it is that one.
pub proof fn law_cached_pipeline_is_found(s: PipelineCacheState, key: CachedGraphicsPipelineKey, pipeline: GraphicsPipelineId)
    ensures
        s.cache_created(seq![(key, pipeline)]).pipelines.contains_key(key),
        s.cache_created(seq![(key, pipeline)]).pipelines[key] == pipeline,
{
    let created = seq![(key, pipeline)];
    assert(created.drop_last() =~= Seq::<(CachedGraphicsPipelineKey, GraphicsPipelineId)>::empty());
}

/// After the cached pipelines are cleared, a pipeline is due for every pair
/// registered together whose resources are alive.
pub proof fn law_clear_makes_all_due(s: PipelineCacheState, live_renderpasses: Set<ResourceId>, live_material_passes: Set<ResourceId>)
    ensures
        forall|k: CachedGraphicsPipelineKey|
            #[trigger] s.clear_pipelines().missing_pipelines(live_renderpasses, live_material_passes).contains(k) <==> (
            s.registered_together(k) && live_renderpasses.contains(k.renderpass) && live_material_passes.contains(
                k.material_pass,
            )),
{
    let c = s.clear_pipelines();
    assert forall|k: CachedGraphicsPipelineKey|
        #[trigger] c.missing_pipelines(live_renderpasses, live_material_passes).contains(k) <==> (
        s.registered_together(k) && live_renderpasses.contains(k.renderpass) && live_material_passes.contains(
            k.material_pass,
        )) by {
        if s.registered_together(k) {
            let p = choose|p: int|
                0 <= p < MAX_RENDER_PHASE_COUNT && #[trigger] s.renderpasses[p].contains_key(k.renderpass)
                    && s.material_passes[p].contains(k.material_pass);
            assert(c.renderpasses[p].contains_key(k.renderpass));
        }
        if c.registered_together(k) {
            let p = choose|p: int|
                0 <= p < MAX_RENDER_PHASE_COUNT && #[trigger] c.renderpasses[p].contains_key(k.renderpass)
                    && c.material_passes[p].contains(k.material_pass);
            assert(s.renderpasses[p].contains_key(k.renderpass));
        }
    }
}


/// A flush right after a flush hands out nothing.
pub proof fn law_second_flush_is_empty(s: DynDescriptorSetState, writes: Seq<DescriptorWrite>)
    requires
        s.flushed().flushed_writes(writes),
    ensures
        writes.len() == 0,
{
}

/// An image bound to an image binding of the layout is handed out by the
/// next flush, once, at that binding.
pub proof fn law_bound_image_is_flushed(s: DynDescriptorSetState, binding: u32, image_view: ImageViewId, writes: Seq<DescriptorWrite>)
    requires
        s.kinds.contains_key(binding),
        s.kinds[binding] == DescriptorKind::Image,
        s.set_image(binding, image_view).flushed_writes(writes),
    ensures
        exists|i: int| 0 <= i < writes.len() && #[trigger] writes[i].binding == binding
            && writes[i].value.content() == DescriptorContent::Image(image_view),
{
    let t = s.set_image(binding, image_view);
    assert(t.dirty.contains(binding));
    let i = choose|i: int| 0 <= i < writes.len() && #[trigger] writes[i].binding == binding;
    assert(writes[i].value.content() == t.values[binding]);
}

/// The config block takes 16 bytes: `src_uv_min` at offset 0 and
/// `src_uv_max` at offset 8, 8 bytes each.
pub proof fn law_config_std140_layout(c: ConfigStd140Bits)
    ensures
        config_std140_bytes(c).len() == 16,
        config_std140_bytes(c).subrange(0, 8) == u32_le_bytes(c.src_uv_min[0]) + u32_le_bytes(c.src_uv_min[1]),
        config_std140_bytes(c).subrange(8, 16) == u32_le_bytes(c.src_uv_max[0]) + u32_le_bytes(c.src_uv_max[1]),
{
    let b = config_std140_bytes(c);
    assert(b.subrange(0, 8) =~= u32_le_bytes(c.src_uv_min[0]) + u32_le_bytes(c.src_uv_min[1]));
    assert(b.subrange(8, 16) =~= u32_le_bytes(c.src_uv_max[0]) + u32_le_bytes(c.src_uv_max[1]));
}


/// A sweep keeps exactly: the render pass registrations whose render pass is
/// alive and whose registration runs out after the current frame, the
/// material pass registrations whose material pass is alive (whatever render
/// passes are alive), and the pipelines whose render pass and material pass
/// are both alive. What it keeps is unchanged, and nothing else changes.
pub proof fn law_drop_unused_exact(s: PipelineCacheState, live_renderpasses: Set<ResourceId>, live_material_passes: Set<ResourceId>)
    ensures
        ({
            let t = s.drop_unused(live_renderpasses, live_material_passes);
            &&& t.renderpasses.len() == s.renderpasses.len()
            &&& t.material_passes.len() == s.material_passes.len()
            &&& forall|p: int, rp: ResourceId| 0 <= p < s.renderpasses.len() ==> (#[trigger] t.renderpasses[p].contains_key(rp) <==> (
                s.renderpasses[p].contains_key(rp) && live_renderpasses.contains(rp) && s.renderpasses[p][rp] > s.current_frame_index))
            &&& forall|p: int, rp: ResourceId| 0 <= p < s.renderpasses.len() && #[trigger] t.renderpasses[p].contains_key(rp)
                ==> t.renderpasses[p][rp] == s.renderpasses[p][rp]
            &&& forall|p: int, mp: ResourceId| 0 <= p < s.material_passes.len() ==> (#[trigger] t.material_passes[p].contains(mp) <==> (
                s.material_passes[p].contains(mp) && live_material_passes.contains(mp)))
            &&& forall|k: CachedGraphicsPipelineKey| #[trigger] t.pipelines.contains_key(k) <==> (s.pipelines.contains_key(k)
                && live_renderpasses.contains(k.renderpass) && live_material_passes.contains(k.material_pass))
            &&& forall|k: CachedGraphicsPipelineKey| #[trigger] t.pipelines.contains_key(k) ==> t.pipelines[k] == s.pipelines[k]
            &&& t.current_frame_index == s.current_frame_index
            &&& t.frames_to_persist == s.frames_to_persist
            &&& t.phase_names == s.phase_names
        }),
{
}

/// Which material pass registrations a sweep keeps does not depend on which
/// render passes are alive.
pub proof fn law_material_sweep_ignores_renderpasses(
    s: PipelineCacheState,
    live_renderpasses_a: Set<ResourceId>,
    live_renderpasses_b: Set<ResourceId>,
    live_material_passes: Set<ResourceId>,
)
    ensures
        s.drop_unused(live_renderpasses_a, live_material_passes).material_passes == s.drop_unused(
            live_renderpasses_b,
            live_material_passes,
        ).material_passes,
{
    let a = s.drop_unused(live_renderpasses_a, live_material_passes).material_passes;
    let b = s.drop_unused(live_renderpasses_b, live_material_passes).material_passes;
    assert forall|p: int| 0 <= p < a.len() implies #[trigger] a[p] =~= b[p] by {}
    assert(a =~= b);
}

/// Completing a frame moves the frame index on by one and keeps exactly: the
/// render pass registrations whose render pass is alive and whose
/// registration runs out after the new frame index, every material pass
/// registration whose material pass is alive (whatever else was registered in
/// its phase that frame), and the pipelines whose render pass and material
/// pass are both alive, unchanged.
pub proof fn law_complete_frame_exact(s: PipelineCacheState, live_renderpasses: Set<ResourceId>, live_material_passes: Set<ResourceId>)
    requires
        s.current_frame_index < u64::MAX,
    ensures
        ({
            let t = s.complete_frame(live_renderpasses, live_material_passes);
            &&& t.current_frame_index == s.current_frame_index + 1
            &&& t.renderpasses.len() == s.renderpasses.len()
            &&& t.material_passes.len() == s.material_passes.len()
            &&& forall|p: int, rp: ResourceId| 0 <= p < s.renderpasses.len() ==> (#[trigger] t.renderpasses[p].contains_key(rp) <==> (
                s.renderpasses[p].contains_key(rp) && live_renderpasses.contains(rp) && s.renderpasses[p][rp] > s.current_frame_index
                    + 1))
            &&& forall|p: int, rp: ResourceId| 0 <= p < s.renderpasses.len() && #[trigger] t.renderpasses[p].contains_key(rp)
                ==> t.renderpasses[p][rp] == s.renderpasses[p][rp]
            &&& forall|p: int, mp: ResourceId| 0 <= p < s.material_passes.len() ==> (#[trigger] t.material_passes[p].contains(mp) <==> (
                s.material_passes[p].contains(mp) && live_material_passes.contains(mp)))
            &&& forall|k: CachedGraphicsPipelineKey| #[trigger] t.pipelines.contains_key(k) <==> (s.pipelines.contains_key(k)
                && live_renderpasses.contains(k.renderpass) && live_material_passes.contains(k.material_pass))
            &&& forall|k: CachedGraphicsPipelineKey| #[trigger] t.pipelines.contains_key(k) ==> t.pipelines[k] == s.pipelines[k]
            &&& t.frames_to_persist == s.frames_to_persist
            &&& t.phase_names == s.phase_names
        }),
{
}

/// Byte `i` (least significant first) of `x`.
pub open spec fn le_byte(x: u32, i: int) -> u8 {
    ((x >> ((8 * i) as u32)) & 0xff) as u8
}

/// The config block is the bytes of `src_uv_min[0]`, `src_uv_min[1]`,
/// `src_uv_max[0]` and `src_uv_max[1]`, four each, least significant first.
pub proof fn law_config_bytes(c: ConfigStd140Bits)
    ensures
        config_std140_bytes(c).len() == 16,
        forall|i: int| 0 <= i < 4 ==> #[trigger] config_std140_bytes(c)[i] == le_byte(c.src_uv_min[0], i),
        forall|i: int| 0 <= i < 4 ==> #[trigger] config_std140_bytes(c)[4 + i] == le_byte(c.src_uv_min[1], i),
        forall|i: int| 0 <= i < 4 ==> #[trigger] config_std140_bytes(c)[8 + i] == le_byte(c.src_uv_max[0], i),
        forall|i: int| 0 <= i < 4 ==> #[trigger] config_std140_bytes(c)[12 + i] == le_byte(c.src_uv_max[1], i),
{
    let b = config_std140_bytes(c);
    assert forall|x: u32, i: int| 0 <= i < 4 implies #[trigger] u32_le_bytes(x)[i] == le_byte(x, i) by {
        if i == 0 {
            assert((x >> 0u32) == x) by (bit_vector);
        }
    }
    assert forall|i: int| 0 <= i < 4 implies #[trigger] b[i] == le_byte(c.src_uv_min[0], i) by {
        assert(b[i] == u32_le_bytes(c.src_uv_min[0])[i]);
    }
    assert forall|i: int| 0 <= i < 4 implies #[trigger] b[4 + i] == le_byte(c.src_uv_min[1], i) by {
        assert(b[4 + i] == u32_le_bytes(c.src_uv_min[1])[i]);
    }
    assert forall|i: int| 0 <= i < 4 implies #[trigger] b[8 + i] == le_byte(c.src_uv_max[0], i) by {
        assert(b[8 + i] == u32_le_bytes(c.src_uv_max[0])[i]);
    }
    assert forall|i: int| 0 <= i < 4 implies #[trigger] b[12 + i] == le_byte(c.src_uv_max[1], i) by {
        assert(b[12 + i] == u32_le_bytes(c.src_uv_max[1])[i]);
    }
}

/// Writing the args of set 0 binds `src_tex` at binding 1 and writes the
/// config block of `config` itself at binding 2 (`src_uv_min` in bytes
/// 0..8, `src_uv_max` in bytes 8..16), each where the layout has a binding
/// of that kind, and marks both dirty; no other binding changes.
pub proof fn law_set_args_writes_both(s: DynDescriptorSetState, src_tex: ImageViewId, config: ConfigStd140Bits)
    requires
        s.kinds.contains_key(1),
        s.kinds[1] == DescriptorKind::Image,
        s.kinds.contains_key(2),
        s.kinds[2] == DescriptorKind::BufferData,
    ensures
        ({
            let t = with_args(s, src_tex, config);
            &&& t.values.contains_key(1) && t.values[1] == DescriptorContent::Image(src_tex)
            &&& t.values.contains_key(2) && t.values[2] is BufferData
            &&& t.values[2]->BufferData_0.len() == 16
            &&& forall|i: int| 0 <= i < 4 ==> #[trigger] t.values[2]->BufferData_0[i] == le_byte(config.src_uv_min[0], i)
            &&& forall|i: int| 0 <= i < 4 ==> #[trigger] t.values[2]->BufferData_0[4 + i] == le_byte(config.src_uv_min[1], i)
            &&& forall|i: int| 0 <= i < 4 ==> #[trigger] t.values[2]->BufferData_0[8 + i] == le_byte(config.src_uv_max[0], i)
            &&& forall|i: int| 0 <= i < 4 ==> #[trigger] t.values[2]->BufferData_0[12 + i] == le_byte(config.src_uv_max[1], i)
            &&& t.dirty.contains(1) && t.dirty.contains(2)
            &&& forall|b: u32| b != 1 && b != 2 ==> (#[trigger] t.values.contains_key(b) <==> s.values.contains_key(b))
                && t.values[b] == s.values[b] && (t.dirty.contains(b) <==> s.dirty.contains(b))
            &&& t.kinds == s.kinds
            &&& t.descriptor_set == s.descriptor_set
        }),
{
    law_config_bytes(config);
}

/// Writing buffer data to a buffer binding of the layout replaces what it
/// held, whatever that was, and marks it dirty; a write to any other binding
/// changes nothing. Written again after a flush, it is dirty again with the
/// new data.
pub proof fn law_set_buffer_data_replaces(s: DynDescriptorSetState, binding: u32, first: Seq<u8>, data: Seq<u8>)
    ensures
        s.kinds.contains_key(binding) && s.kinds[binding] == DescriptorKind::BufferData ==> {
            &&& s.set_buffer_data(binding, data).values.contains_key(binding)
            &&& s.set_buffer_data(binding, data).values[binding] == DescriptorContent::BufferData(data)
            &&& s.set_buffer_data(binding, data).dirty.contains(binding)
            &&& s.set_buffer_data(binding, first).flushed().set_buffer_data(binding, data).values[binding]
                == DescriptorContent::BufferData(data)
            &&& s.set_buffer_data(binding, first).flushed().set_buffer_data(binding, data).dirty == Set::<u32>::empty().insert(binding)
            &&& forall|b: u32| b != binding ==> (#[trigger] s.set_buffer_data(binding, data).values.contains_key(b)
                <==> s.values.contains_key(b)) && s.set_buffer_data(binding, data).values[b] == s.values[b]
        },
        !(s.kinds.contains_key(binding) && s.kinds[binding] == DescriptorKind::BufferData) ==> s.set_buffer_data(binding, data)
            == s,
{
    if s.kinds.contains_key(binding) && s.kinds[binding] == DescriptorKind::BufferData {
        let t = s.set_buffer_data(binding, first).flushed().set_buffer_data(binding, data);
        assert(t.dirty =~= Set::<u32>::empty().insert(binding));
    }
}

/// Binding an image at an image binding of the layout replaces what it held,
/// whatever that was, and marks it dirty; at any other binding it changes
/// nothing.
pub proof fn law_set_image_replaces(s: DynDescriptorSetState, binding: u32, image_view: ImageViewId)
    ensures
        s.kinds.contains_key(binding) && s.kinds[binding] == DescriptorKind::Image ==> {
            &&& s.set_image(binding, image_view).values.contains_key(binding)
            &&& s.set_image(binding, image_view).values[binding] == DescriptorContent::Image(image_view)
            &&& s.set_image(binding, image_view).dirty.contains(binding)
        },
        !(s.kinds.contains_key(binding) && s.kinds[binding] == DescriptorKind::Image) ==> s.set_image(binding, image_view) == s,
{
}

/// A layout gives each of its binding numbers the kind listed with it, in
/// whatever order the layout lists them, and no other binding number a kind.
pub proof fn law_layout_kinds_by_binding_number(layout: Seq<DescriptorBinding>)
    requires
        distinct_bindings(layout),
    ensures
        forall|i: int| 0 <= i < layout.len() ==> layout_kinds(layout).contains_key(#[trigger] layout[i].binding)
            && layout_kinds(layout)[layout[i].binding] == layout[i].kind,
        forall|b: u32| #[trigger] layout_kinds(layout).contains_key(b) ==> exists|i: int| 0 <= i < layout.len() && layout[i].binding == b,
{
    assert forall|i: int| 0 <= i < layout.len() implies layout_kinds(layout).contains_key(#[trigger] layout[i].binding)
        && layout_kinds(layout)[layout[i].binding] == layout[i].kind by {
        let b = layout[i].binding;
        let j = choose|j: int| 0 <= j < layout.len() && #[trigger] layout[j].binding == b;
        if j != i {
            if j < i {
                assert(layout[j].binding != layout[i].binding);
            } else {
                assert(layout[i].binding != layout[j].binding);
            }
        }
    }
}


/// Data written to a buffer binding of the layout is handed out by the next
/// flush, once, at that binding, whatever the binding held before.
pub proof fn law_written_buffer_is_flushed(s: DynDescriptorSetState, binding: u32, data: Seq<u8>, writes: Seq<DescriptorWrite>)
    requires
        s.kinds.contains_key(binding),
        s.kinds[binding] == DescriptorKind::BufferData,
        s.set_buffer_data(binding, data).flushed_writes(writes),
    ensures
        exists|i: int| 0 <= i < writes.len() && #[trigger] writes[i].binding == binding
            && writes[i].value.content() == DescriptorContent::BufferData(data),
{
    let t = s.set_buffer_data(binding, data);
    assert(t.dirty.contains(binding));
    let i = choose|i: int| 0 <= i < writes.len() && #[trigger] writes[i].binding == binding;
    assert(writes[i].value.content() == t.values[binding]);
}

} // verus!
