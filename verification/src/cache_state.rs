//! The abstract state of a graphics pipeline cache and what each operation
//! does to it.
use vstd::prelude::*;
use crate::render_registry::MAX_RENDER_PHASE_COUNT;

verus! {

/// Identifies a GPU resource (a render pass or a material pass) by the hash
/// it was created under.
pub type ResourceId = u64;

/// Handle of a graphics pipeline built for a material pass and a render pass.
pub type GraphicsPipelineId = u64;

/// The pair a graphics pipeline is built for.
#[derive(Clone, Copy, PartialEq, Eq, Debug)]
pub struct CachedGraphicsPipelineKey {
    pub material_pass: ResourceId,
    pub renderpass: ResourceId,
}

/// What a cache holds, phase by phase.
#[verifier::ext_equal]
pub struct PipelineCacheState {
    /// The name of each render phase, by phase index.
    pub phase_names: Seq<Seq<char>>,
    /// For each phase, the render passes registered in it and the frame
    /// index at which each registration runs out.
    pub renderpasses: Seq<Map<ResourceId, u64>>,
    /// For each phase, the material passes registered in it.
    pub material_passes: Seq<Set<ResourceId>>,
    /// The graphics pipelines built so far.
    pub pipelines: Map<CachedGraphicsPipelineKey, GraphicsPipelineId>,
    pub current_frame_index: u64,
    pub frames_to_persist: u64,
}

impl PipelineCacheState {
    /// One (empty) registration table per phase index.
    pub open spec fn has_all_phases(self) -> bool {
        &&& self.renderpasses.len() == MAX_RENDER_PHASE_COUNT
        &&& self.material_passes.len() == MAX_RENDER_PHASE_COUNT
    }

    /// The state of a new cache.
    pub open spec fn initial(phase_names: Seq<Seq<char>>, frames_to_persist: u64) -> Self {
        PipelineCacheState {
            phase_names,
            renderpasses: Seq::new(MAX_RENDER_PHASE_COUNT as nat, |p: int| Map::<ResourceId, u64>::empty()),
            material_passes: Seq::new(MAX_RENDER_PHASE_COUNT as nat, |p: int| Set::<ResourceId>::empty()),
            pipelines: Map::empty(),
            current_frame_index: 0,
            frames_to_persist,
        }
    }

    /// The frame index at which a registration made now runs out.
    pub open spec fn keep_until(self) -> u64 {
        (self.current_frame_index + self.frames_to_persist) as u64
    }

    /// `renderpass` registered in `phase` for this frame (and, where it was
    /// there already, kept for longer).
    pub open spec fn register_renderpass(self, phase: int, renderpass: ResourceId) -> Self {
        PipelineCacheState {
            renderpasses: self.renderpasses.update(
                phase,
                self.renderpasses[phase].insert(renderpass, self.keep_until()),
            ),
            ..self
        }
    }

    /// `material_pass` registered in `phase`.
    pub open spec fn register_material_pass(self, phase: int, material_pass: ResourceId) -> Self {
        PipelineCacheState {
            material_passes: self.material_passes.update(
                phase,
                self.material_passes[phase].insert(material_pass),
            ),
            ..self
        }
    }

    /// Whether the registration of `renderpass` in `phase` survives a sweep:
    /// the render pass still exists and its registration has not run out.
    pub open spec fn renderpass_kept(self, phase: int, renderpass: ResourceId, live_renderpasses: Set<ResourceId>) -> bool {
        &&& self.renderpasses[phase].contains_key(renderpass)
        &&& live_renderpasses.contains(renderpass)
        &&& self.renderpasses[phase][renderpass] > self.current_frame_index
    }

    /// Whether a cached pipeline survives a sweep: both resources it was
    /// built for still exist.
    pub open spec fn pipeline_kept(
        self,
        key: CachedGraphicsPipelineKey,
        live_renderpasses: Set<ResourceId>,
        live_material_passes: Set<ResourceId>,
    ) -> bool {
        &&& self.pipelines.contains_key(key)
        &&& live_renderpasses.contains(key.renderpass)
        &&& live_material_passes.contains(key.material_pass)
    }

    /// The state after dropping every registration and every pipeline whose
    /// resources are gone, and every render pass registration that has run out.
    pub open spec fn drop_unused(self, live_renderpasses: Set<ResourceId>, live_material_passes: Set<ResourceId>) -> Self {
        PipelineCacheState {
            renderpasses: Seq::new(
                self.renderpasses.len(),
                |p: int|
                    Map::new(
                        |rp: ResourceId| self.renderpass_kept(p, rp, live_renderpasses),
                        |rp: ResourceId| self.renderpasses[p][rp],
                    ),
            ),
            material_passes: Seq::new(
                self.material_passes.len(),
                |p: int| self.material_passes[p].intersect(live_material_passes),
            ),
            pipelines: Map::new(
                |k: CachedGraphicsPipelineKey| self.pipeline_kept(k, live_renderpasses, live_material_passes),
                |k: CachedGraphicsPipelineKey| self.pipelines[k],
            ),
            ..self
        }
    }

    /// The state after the current frame is complete: the frame index moves
    /// on by one, then unused entries are dropped.
    pub open spec fn complete_frame(self, live_renderpasses: Set<ResourceId>, live_material_passes: Set<ResourceId>) -> Self {
        PipelineCacheState { current_frame_index: (self.current_frame_index + 1) as u64, ..self }.drop_unused(
            live_renderpasses,
            live_material_passes,
        )
    }

    /// Whether some phase has both the render pass and the material pass of
    /// `key` registered in it.
    pub open spec fn registered_together(self, key: CachedGraphicsPipelineKey) -> bool {
        exists|p: int|
            0 <= p < MAX_RENDER_PHASE_COUNT && #[trigger] self.renderpasses[p].contains_key(key.renderpass)
                && self.material_passes[p].contains(key.material_pass)
    }

    /// Whether a pipeline has to be built for `key`: its render pass and
    /// material pass are registered together in some phase, both still
    /// exist, and no pipeline is cached for it yet.
    pub open spec fn needs_pipeline(
        self,
        key: CachedGraphicsPipelineKey,
        live_renderpasses: Set<ResourceId>,
        live_material_passes: Set<ResourceId>,
    ) -> bool {
        &&& self.registered_together(key)
        &&& live_renderpasses.contains(key.renderpass)
        &&& live_material_passes.contains(key.material_pass)
        &&& !self.pipelines.contains_key(key)
    }

    /// Whether `key` needs a pipeline on account of `phase`: the phase has
    /// both its render pass and its material pass registered, both still
    /// exist, and no pipeline is cached for it yet.
    pub open spec fn needs_pipeline_in_phase(
        self,
        phase: int,
        key: CachedGraphicsPipelineKey,
        live_renderpasses: Set<ResourceId>,
        live_material_passes: Set<ResourceId>,
    ) -> bool {
        &&& self.renderpasses[phase].contains_key(key.renderpass)
        &&& self.material_passes[phase].contains(key.material_pass)
        &&& live_renderpasses.contains(key.renderpass)
        &&& live_material_passes.contains(key.material_pass)
        &&& !self.pipelines.contains_key(key)
    }

    /// Every pair a pipeline has to be built for.
    pub open spec fn missing_pipelines(self, live_renderpasses: Set<ResourceId>, live_material_passes: Set<ResourceId>) -> Set<CachedGraphicsPipelineKey> {
        Set::new(|k: CachedGraphicsPipelineKey| self.needs_pipeline(k, live_renderpasses, live_material_passes))
    }

    /// The state after the pipelines in `created` were built and cached, in
    /// order.
    pub open spec fn cache_created(self, created: Seq<(CachedGraphicsPipelineKey, GraphicsPipelineId)>) -> Self
        decreases created.len(),
    {
        if created.len() == 0 {
            self
        } else {
            let prev = self.cache_created(created.drop_last());
            PipelineCacheState {
                pipelines: prev.pipelines.insert(created.last().0, created.last().1),
                ..prev
            }
        }
    }

    /// The state after every cached pipeline is dropped.
    pub open spec fn clear_pipelines(self) -> Self {
        PipelineCacheState { pipelines: Map::empty(), ..self }
    }
}

/// The first `n` builds of `results`, each with the pair it was built for
/// (`missing[i]` for `results[i]`).
pub open spec fn built_pipelines<E>(
    missing: Seq<CachedGraphicsPipelineKey>,
    results: Seq<Result<GraphicsPipelineId, E>>,
    n: int,
) -> Seq<(CachedGraphicsPipelineKey, GraphicsPipelineId)> {
    Seq::new(n as nat, |i: int| (missing[i], results[i]->Ok_0))
}

/// A call that changes a cache, as far as its state is concerned.
pub enum CacheOp {
    RegisterRenderpass { phase: int, renderpass: ResourceId },
    RegisterMaterialPass { phase: int, material_pass: ResourceId },
    DropUnused { live_renderpasses: Set<ResourceId>, live_material_passes: Set<ResourceId> },
    CompleteFrame { live_renderpasses: Set<ResourceId>, live_material_passes: Set<ResourceId> },
    CacheCreated { created: Seq<(CachedGraphicsPipelineKey, GraphicsPipelineId)> },
    ClearPipelines,
}

impl CacheOp {
    /// Whether the call caches pipelines.
    pub open spec fn caches(self) -> bool {
        self is CacheCreated
    }

    /// Whether the call caches `pipeline` for `key`.
    pub open spec fn caches_pipeline(self, key: CachedGraphicsPipelineKey, pipeline: GraphicsPipelineId) -> bool {
        match self {
            CacheOp::CacheCreated { created } => exists|j: int| 0 <= j < created.len() && #[trigger] created[j] == (key, pipeline),
            _ => false,
        }
    }
}

impl PipelineCacheState {
    /// The state after `op`.
    pub open spec fn apply(self, op: CacheOp) -> Self {
        match op {
            CacheOp::RegisterRenderpass { phase, renderpass } => self.register_renderpass(phase, renderpass),
            CacheOp::RegisterMaterialPass { phase, material_pass } => self.register_material_pass(phase, material_pass),
            CacheOp::DropUnused { live_renderpasses, live_material_passes } => self.drop_unused(
                live_renderpasses,
                live_material_passes,
            ),
            CacheOp::CompleteFrame { live_renderpasses, live_material_passes } => self.complete_frame(
                live_renderpasses,
                live_material_passes,
            ),
            CacheOp::CacheCreated { created } => self.cache_created(created),
            CacheOp::ClearPipelines => self.clear_pipelines(),
        }
    }

    /// The state after the calls `ops`, in order.
    pub open spec fn run(self, ops: Seq<CacheOp>) -> Self
        decreases ops.len(),
    {
        if ops.len() == 0 {
            self
        } else {
            self.run(ops.drop_last()).apply(ops.last())
        }
    }
}

} // verus!
