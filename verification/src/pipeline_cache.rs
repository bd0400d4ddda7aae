//! A cache of graphics pipelines, one for each pair of a render pass and a
//! material pass that are registered in the same render phase.
//!
//! Render passes are registered per frame and expire after
//! `frames_to_persist` frames unless registered again; material passes stay
//! registered while they exist. Whether a resource still exists is handed in
//! by the caller as a `LiveResources`: the cache holds only resource ids.
use vstd::prelude::*;
use fnv::FnvHashMap;
use crate::fnv_map::{EntryFilter, new_map, map_get, map_contains_key, map_insert, map_retain, map_keys};
use crate::render_registry::{RenderRegistry, RenderPhaseIndex, MAX_RENDER_PHASE_COUNT, phase_index_of};
use crate::cache_state::{ResourceId, GraphicsPipelineId, CachedGraphicsPipelineKey, PipelineCacheState, built_pipelines};

verus! {

/// How many frames a render pass registration lasts in a new cache.
pub const DEFAULT_FRAMES_TO_PERSIST: u64 = 1;

/// A render phase type, whose index the registry assigned.
pub trait RenderPhase {
    /// The index of this phase.
    spec fn spec_render_phase_index() -> RenderPhaseIndex;

    fn render_phase_index() -> (r: RenderPhaseIndex)
        ensures
            r == Self::spec_render_phase_index(),
    ;
}

/// The resources that still exist at the moment of a call: a weak reference
/// to one of them could still be upgraded.
pub struct LiveResources {
    renderpasses: Vec<ResourceId>,
    material_passes: Vec<ResourceId>,
}

fn vec_contains(v: &Vec<ResourceId>, id: ResourceId) -> (r: bool)
    ensures
        r == v@.contains(id),
{
    let n = v.len();
    for i in 0..n
        invariant
            n == v@.len(),
            forall|j: int| 0 <= j < i ==> v@[j] != id,
    {
        if v[i] == id {
            return true;
        }
    }
    false
}

impl LiveResources {
    pub fn new(renderpasses: Vec<ResourceId>, material_passes: Vec<ResourceId>) -> (r: Self)
        ensures
            r.live_renderpasses() == renderpasses@.to_set(),
            r.live_material_passes() == material_passes@.to_set(),
    {
        LiveResources { renderpasses, material_passes }
    }

    pub closed spec fn live_renderpasses(&self) -> Set<ResourceId> {
        self.renderpasses@.to_set()
    }

    pub closed spec fn live_material_passes(&self) -> Set<ResourceId> {
        self.material_passes@.to_set()
    }

    pub fn renderpass_is_alive(&self, renderpass: ResourceId) -> (r: bool)
        ensures
            r == self.live_renderpasses().contains(renderpass),
    {
        vec_contains(&self.renderpasses, renderpass)
    }

    pub fn material_pass_is_alive(&self, material_pass: ResourceId) -> (r: bool)
        ensures
            r == self.live_material_passes().contains(material_pass),
    {
        vec_contains(&self.material_passes, material_pass)
    }
}

/// A render pass registered in a phase: the render pass, and the frame index
/// at which the registration runs out.
#[derive(Clone, Copy)]
struct RegisteredRenderpass {
    keep_until_frame: u64,
    renderpass: ResourceId,
}

/// A built pipeline, with the resources it was built for.
#[derive(Clone, Copy)]
struct CachedGraphicsPipeline {
    material_pass_resource: ResourceId,
    renderpass_resource: ResourceId,
    graphics_pipeline: GraphicsPipelineId,
}

/// Keeps the render pass registrations whose render pass still exists and
/// whose time has not run out in `current_frame_index`.
struct RenderpassSweep<'a> {
    live: &'a LiveResources,
    current_frame_index: u64,
}

impl<'a> EntryFilter<ResourceId, RegisteredRenderpass> for RenderpassSweep<'a> {
    closed spec fn keeps(&self, k: ResourceId, v: RegisteredRenderpass) -> bool {
        self.live.live_renderpasses().contains(v.renderpass) && self.current_frame_index < v.keep_until_frame
    }

    fn keep(&self, k: &ResourceId, v: &RegisteredRenderpass) -> (r: bool) {
        self.live.renderpass_is_alive(v.renderpass) && self.current_frame_index < v.keep_until_frame
    }
}

/// Keeps the material pass registrations whose material pass still exists.
struct MaterialPassSweep<'a> {
    live: &'a LiveResources,
}

impl<'a> EntryFilter<ResourceId, ResourceId> for MaterialPassSweep<'a> {
    closed spec fn keeps(&self, k: ResourceId, v: ResourceId) -> bool {
        self.live.live_material_passes().contains(v)
    }

    fn keep(&self, k: &ResourceId, v: &ResourceId) -> (r: bool) {
        self.live.material_pass_is_alive(*v)
    }
}

/// Keeps the cached pipelines whose render pass and material pass both
/// still exist.
struct PipelineSweep<'a> {
    live: &'a LiveResources,
}

impl<'a> EntryFilter<(ResourceId, ResourceId), CachedGraphicsPipeline> for PipelineSweep<'a> {
    closed spec fn keeps(&self, k: (ResourceId, ResourceId), v: CachedGraphicsPipeline) -> bool {
        &&& self.live.live_renderpasses().contains(v.renderpass_resource)
        &&& self.live.live_material_passes().contains(v.material_pass_resource)
    }

    fn keep(&self, k: &(ResourceId, ResourceId), v: &CachedGraphicsPipeline) -> (r: bool) {
        self.live.renderpass_is_alive(v.renderpass_resource) && self.live.material_pass_is_alive(
            v.material_pass_resource,
        )
    }
}

/// The key under which the pipeline of `k` is cached.
spec fn map_key(k: CachedGraphicsPipelineKey) -> (ResourceId, ResourceId) {
    (k.material_pass, k.renderpass)
}

pub struct GraphicsPipelineCache {
    render_registry: RenderRegistry,
    // indexed by render phase index
    renderpass_assignments: Vec<FnvHashMap<ResourceId, RegisteredRenderpass>>,
    material_pass_assignments: Vec<FnvHashMap<ResourceId, ResourceId>>,
    // keyed by (material pass, render pass)
    cached_pipelines: FnvHashMap<(ResourceId, ResourceId), CachedGraphicsPipeline>,
    current_frame_index: u64,
    frames_to_persist: u64,
}

impl View for GraphicsPipelineCache {
    type V = PipelineCacheState;

    closed spec fn view(&self) -> PipelineCacheState {
        PipelineCacheState {
            phase_names: self.render_registry@,
            renderpasses: self.renderpass_assignments@.map_values(
                |m: FnvHashMap<ResourceId, RegisteredRenderpass>|
                    m@.map_values(|r: RegisteredRenderpass| r.keep_until_frame),
            ),
            material_passes: self.material_pass_assignments@.map_values(
                |m: FnvHashMap<ResourceId, ResourceId>| m@.dom(),
            ),
            pipelines: Map::new(
                |k: CachedGraphicsPipelineKey| self.cached_pipelines@.contains_key(map_key(k)),
                |k: CachedGraphicsPipelineKey| self.cached_pipelines@[map_key(k)].graphics_pipeline,
            ),
            current_frame_index: self.current_frame_index,
            frames_to_persist: self.frames_to_persist,
        }
    }
}

impl GraphicsPipelineCache {
    /// Every entry is filed under the id of the resource it holds, and there
    /// is one registration table per phase.
    pub closed spec fn wf(&self) -> bool {
        &&& self.render_registry@.len() <= MAX_RENDER_PHASE_COUNT
        &&& self.renderpass_assignments@.len() == MAX_RENDER_PHASE_COUNT
        &&& self.material_pass_assignments@.len() == MAX_RENDER_PHASE_COUNT
        &&& forall|p: int, rp: ResourceId|
            0 <= p < MAX_RENDER_PHASE_COUNT && #[trigger] self.renderpass_assignments@[p]@.contains_key(rp)
                ==> self.renderpass_assignments@[p]@[rp].renderpass == rp
        &&& forall|p: int, mp: ResourceId|
            0 <= p < MAX_RENDER_PHASE_COUNT && #[trigger] self.material_pass_assignments@[p]@.contains_key(mp)
                ==> self.material_pass_assignments@[p]@[mp] == mp
        &&& forall|k: (ResourceId, ResourceId)| #[trigger]
            self.cached_pipelines@.contains_key(k) ==> self.cached_pipelines@[k].material_pass_resource
                == k.0 && self.cached_pipelines@[k].renderpass_resource == k.1
    }

    /// A well-formed cache has one registration table per phase.
    pub proof fn lemma_wf_has_all_phases(&self)
        requires
            self.wf(),
        ensures
            self@.has_all_phases(),
    {
    }

    /// A cache with nothing registered and nothing built, at frame 0.
    pub fn new(render_registry: &RenderRegistry) -> (r: Self)
        ensures
            r.wf(),
            r@.has_all_phases(),
            r@ == PipelineCacheState::initial(render_registry@, DEFAULT_FRAMES_TO_PERSIST),
    {
        let mut renderpass_assignments: Vec<FnvHashMap<ResourceId, RegisteredRenderpass>> = Vec::new();
        let mut material_pass_assignments: Vec<FnvHashMap<ResourceId, ResourceId>> = Vec::new();
        for i in 0..MAX_RENDER_PHASE_COUNT
            invariant
                renderpass_assignments@.len() == i,
                material_pass_assignments@.len() == i,
                forall|p: int| 0 <= p < i ==> (#[trigger] renderpass_assignments@[p])@ == Map::<ResourceId, RegisteredRenderpass>::empty(),
                forall|p: int| 0 <= p < i ==> (#[trigger] material_pass_assignments@[p])@ == Map::<ResourceId, ResourceId>::empty(),
        {
            renderpass_assignments.push(new_map());
            material_pass_assignments.push(new_map());
        }
        let r = GraphicsPipelineCache {
            render_registry: render_registry.clone(),
            renderpass_assignments,
            material_pass_assignments,
            cached_pipelines: new_map(),
            current_frame_index: 0,
            frames_to_persist: DEFAULT_FRAMES_TO_PERSIST,
        };
        assert forall|p: int| 0 <= p < MAX_RENDER_PHASE_COUNT implies #[trigger] r@.renderpasses[p]
            =~= Map::<ResourceId, u64>::empty() by {
            assert(r.renderpass_assignments@[p]@ == Map::<ResourceId, RegisteredRenderpass>::empty());
        }
        assert(r@.renderpasses =~= PipelineCacheState::initial(render_registry@, DEFAULT_FRAMES_TO_PERSIST).renderpasses);
        assert(r@.material_passes =~= PipelineCacheState::initial(render_registry@, DEFAULT_FRAMES_TO_PERSIST).material_passes);
        assert(r@.pipelines =~= Map::empty());
        r
    }
}


impl GraphicsPipelineCache {
    /// Drops the render pass registrations whose render pass is gone or whose
    /// time has run out, the material pass registrations whose material pass
    /// is gone, and the cached pipelines of which either resource is gone.
    pub fn drop_unused_pipelines(&mut self, live: &LiveResources)
        requires
            old(self).wf(),
        ensures
            final(self).wf(),
            final(self)@.has_all_phases(),
            final(self)@ == old(self)@.drop_unused(live.live_renderpasses(), live.live_material_passes()),
    {
        let ghost pre = self@;
        let ghost old_rp = self.renderpass_assignments@;
        let ghost old_mp = self.material_pass_assignments@;
        let ghost old_cached = self.cached_pipelines@;
        let ghost lr = live.live_renderpasses();
        let ghost lm = live.live_material_passes();
        let ghost s0 = *self;
        let n: usize = MAX_RENDER_PHASE_COUNT as usize;

        let rp_filter = RenderpassSweep { live, current_frame_index: self.current_frame_index };
        let mut p: usize = 0;
        while p < n
            invariant
                n == MAX_RENDER_PHASE_COUNT,
                p <= n,
                rp_filter.live == live,
                rp_filter.current_frame_index == self.current_frame_index,
                self.render_registry == s0.render_registry,
                self.material_pass_assignments == s0.material_pass_assignments,
                self.cached_pipelines == s0.cached_pipelines,
                self.current_frame_index == s0.current_frame_index,
                self.frames_to_persist == s0.frames_to_persist,
                self.renderpass_assignments@.len() == n,
                forall|q: int| p <= q < n ==> #[trigger] self.renderpass_assignments@[q] == old_rp[q],
                forall|q: int|
                    0 <= q < p ==> (#[trigger] self.renderpass_assignments@[q])@ == Map::new(
                        |rp: ResourceId| old_rp[q]@.contains_key(rp) && rp_filter.keeps(rp, old_rp[q]@[rp]),
                        |rp: ResourceId| old_rp[q]@[rp],
                    ),
            decreases n - p,
        {
            map_retain(&mut self.renderpass_assignments[p], &rp_filter);
            p = p + 1;
        }

        let mp_filter = MaterialPassSweep { live };
        let ghost s1 = *self;
        let mut p: usize = 0;
        while p < n
            invariant
                n == MAX_RENDER_PHASE_COUNT,
                p <= n,
                mp_filter.live == live,
                self.render_registry == s0.render_registry,
                self.renderpass_assignments == s1.renderpass_assignments,
                self.cached_pipelines == s0.cached_pipelines,
                self.current_frame_index == s0.current_frame_index,
                self.frames_to_persist == s0.frames_to_persist,
                self.material_pass_assignments@.len() == n,
                forall|q: int| p <= q < n ==> #[trigger] self.material_pass_assignments@[q] == old_mp[q],
                forall|q: int|
                    0 <= q < p ==> (#[trigger] self.material_pass_assignments@[q])@ == Map::new(
                        |mp: ResourceId| old_mp[q]@.contains_key(mp) && mp_filter.keeps(mp, old_mp[q]@[mp]),
                        |mp: ResourceId| old_mp[q]@[mp],
                    ),
            decreases n - p,
        {
            map_retain(&mut self.material_pass_assignments[p], &mp_filter);
            p = p + 1;
        }

        let pipeline_filter = PipelineSweep { live };
        map_retain(&mut self.cached_pipelines, &pipeline_filter);

        proof {
            let post = pre.drop_unused(lr, lm);
            assert forall|q: int| 0 <= q < n implies #[trigger] self@.renderpasses[q] =~= post.renderpasses[q] by {
                assert forall|rp: ResourceId| old_rp[q]@.contains_key(rp) implies old_rp[q]@[rp].renderpass == rp by {}
            }
            assert(self@.renderpasses =~= post.renderpasses);
            assert forall|q: int| 0 <= q < n implies #[trigger] self@.material_passes[q] =~= post.material_passes[q] by {
                assert forall|mp: ResourceId| old_mp[q]@.contains_key(mp) implies old_mp[q]@[mp] == mp by {}
            }
            assert(self@.material_passes =~= post.material_passes);
            assert forall|k: (ResourceId, ResourceId)| old_cached.contains_key(k) implies
                old_cached[k].material_pass_resource == k.0 && old_cached[k].renderpass_resource == k.1 by {}
            assert forall|k: CachedGraphicsPipelineKey| #[trigger] self@.pipelines.contains_key(k) <==> post.pipelines.contains_key(k) by {
                assert(old_cached.contains_key(map_key(k)) ==> old_cached[map_key(k)].material_pass_resource == k.material_pass);
            }
            assert(self@.pipelines =~= post.pipelines);
        }
    }
}


impl GraphicsPipelineCache {
    /// Ends the current frame: the frame index moves on by one, then unused
    /// registrations and pipelines are dropped.
    pub fn on_frame_complete(&mut self, live: &LiveResources)
        requires
            old(self).wf(),
            old(self)@.current_frame_index < u64::MAX,
        ensures
            final(self).wf(),
            final(self)@.has_all_phases(),
            final(self)@ == old(self)@.complete_frame(live.live_renderpasses(), live.live_material_passes()),
    {
        self.current_frame_index = self.current_frame_index + 1;
        self.drop_unused_pipelines(live);
    }

    /// The index of the render phase registered under `name`, if any.
    pub fn get_renderphase_by_name(&self, name: &str) -> (r: Option<RenderPhaseIndex>)
        requires
            self.wf(),
        ensures
            r == phase_index_of(self@.phase_names, name@),
    {
        self.render_registry.render_phase_index_from_name(name)
    }

    /// Registers `renderpass` in the phase of `T` for this frame; see
    /// `register_renderpass_to_phase_index_per_frame`.
    pub fn register_renderpass_to_phase_per_frame<T: RenderPhase>(&mut self, renderpass: ResourceId)
        requires
            old(self).wf(),
            T::spec_render_phase_index() < MAX_RENDER_PHASE_COUNT,
            old(self)@.current_frame_index + old(self)@.frames_to_persist <= u64::MAX,
        ensures
            final(self).wf(),
            final(self)@.has_all_phases(),
            final(self)@ == old(self)@.register_renderpass(T::spec_render_phase_index() as int, renderpass),
    {
        self.register_renderpass_to_phase_index_per_frame(renderpass, T::render_phase_index())
    }

    /// Registers `renderpass` as part of a phase, so that pipelines get built
    /// for it with every material pass of that phase. The registration lasts
    /// `frames_to_persist` frames from now: a render pass that is used every
    /// frame is registered every frame. Registering it again only moves that
    /// limit.
    pub fn register_renderpass_to_phase_index_per_frame(
        &mut self,
        renderpass: ResourceId,
        render_phase_index: RenderPhaseIndex,
    )
        requires
            old(self).wf(),
            render_phase_index < MAX_RENDER_PHASE_COUNT,
            old(self)@.current_frame_index + old(self)@.frames_to_persist <= u64::MAX,
        ensures
            final(self).wf(),
            final(self)@.has_all_phases(),
            final(self)@ == old(self)@.register_renderpass(render_phase_index as int, renderpass),
    {
        let ghost pre = self@;
        let keep_until_frame = self.current_frame_index + self.frames_to_persist;
        // Whether the render pass was registered already or not, the entry now
        // refers to it and lasts until `keep_until_frame`.
        map_insert(
            &mut self.renderpass_assignments[render_phase_index as usize],
            renderpass,
            RegisteredRenderpass { keep_until_frame, renderpass },
        );
        proof {
            let post = pre.register_renderpass(render_phase_index as int, renderpass);
            assert(self@.renderpasses[render_phase_index as int] =~= post.renderpasses[render_phase_index as int]);
            assert(self@.renderpasses =~= post.renderpasses);
        }
    }

    /// Registers `material_pass` as part of a phase, so that pipelines get
    /// built for it with every render pass of that phase. It stays
    /// registered for as long as it exists.
    pub fn register_material_to_phase_index(
        &mut self,
        material_pass: ResourceId,
        render_phase_index: RenderPhaseIndex,
    )
        requires
            old(self).wf(),
            render_phase_index < MAX_RENDER_PHASE_COUNT,
        ensures
            final(self).wf(),
            final(self)@.has_all_phases(),
            final(self)@ == old(self)@.register_material_pass(render_phase_index as int, material_pass),
    {
        let ghost pre = self@;
        let phase = render_phase_index as usize;
        if map_contains_key(&self.material_pass_assignments[phase], &material_pass) {
            // Nothing to do here, it is registered already
            assert(pre.material_passes[phase as int].insert(material_pass) =~= pre.material_passes[phase as int]);
            assert(self@.material_passes =~= pre.register_material_pass(render_phase_index as int, material_pass).material_passes);
            return;
        }
        map_insert(&mut self.material_pass_assignments[phase], material_pass, material_pass);
        proof {
            let post = pre.register_material_pass(render_phase_index as int, material_pass);
            assert(self@.material_passes[phase as int] =~= post.material_passes[phase as int]);
            assert(self@.material_passes =~= post.material_passes);
        }
    }

    /// The pipeline cached for `material` and `renderpass`, if one is.
    pub fn find_graphics_pipeline(&self, material: ResourceId, renderpass: ResourceId) -> (r: Option<GraphicsPipelineId>)
        requires
            self.wf(),
        ensures
            ({
                let key = CachedGraphicsPipelineKey { material_pass: material, renderpass };
                r == if self@.pipelines.contains_key(key) {
                    Some(self@.pipelines[key])
                } else {
                    None
                }
            }),
    {
        let key = (material, renderpass);
        match map_get(&self.cached_pipelines, &key) {
            Some(cached) => Some(cached.graphics_pipeline),
            None => None,
        }
    }

    /// Caches the pipelines in `created`, in order: each was built for the
    /// pair it comes with.
    pub fn cache_created_pipelines(&mut self, created: &Vec<(CachedGraphicsPipelineKey, GraphicsPipelineId)>)
        requires
            old(self).wf(),
        ensures
            final(self).wf(),
            final(self)@.has_all_phases(),
            final(self)@ == old(self)@.cache_created(created@),
            final(self)@.phase_names == old(self)@.phase_names,
    {
        let ghost pre = self@;
        let n = created.len();
        for i in 0..n
            invariant
                n == created@.len(),
                self.wf(),
                self@ == pre.cache_created(created@.take(i as int)),
        {
            let (key, graphics_pipeline) = created[i];
            map_insert(
                &mut self.cached_pipelines,
                (key.material_pass, key.renderpass),
                CachedGraphicsPipeline {
                    material_pass_resource: key.material_pass,
                    renderpass_resource: key.renderpass,
                    graphics_pipeline,
                },
            );
            proof {
                let prefix = created@.take(i + 1);
                assert(prefix.drop_last() =~= created@.take(i as int));
                assert(self@.pipelines =~= pre.cache_created(prefix).pipelines);
            }
        }
        assert(created@.take(n as int) =~= created@);
        proof {
            crate::laws::lemma_cache_created(pre, created@);
        }
    }

    /// Drops every cached pipeline; registrations stay.
    pub fn clear_pipelines(&mut self)
        requires
            old(self).wf(),
        ensures
            final(self).wf(),
            final(self)@.has_all_phases(),
            final(self)@ == old(self)@.clear_pipelines(),
    {
        self.cached_pipelines.clear();
        assert(self@.pipelines =~= Map::empty());
    }
}


fn keys_contain(keys: &Vec<CachedGraphicsPipelineKey>, key: CachedGraphicsPipelineKey) -> (r: bool)
    ensures
        r == keys@.contains(key),
{
    let n = keys.len();
    for i in 0..n
        invariant
            n == keys@.len(),
            forall|j: int| 0 <= j < i ==> keys@[j] != key,
    {
        if keys[i].material_pass == key.material_pass && keys[i].renderpass == key.renderpass {
            return true;
        }
    }
    false
}

proof fn lemma_push_no_duplicates<A>(s: Seq<A>, x: A)
    requires
        s.no_duplicates(),
        !s.contains(x),
    ensures
        s.push(x).no_duplicates(),
{
    assert forall|i: int, j: int| 0 <= i < s.push(x).len() && 0 <= j < s.push(x).len() && i != j implies
        s.push(x)[i] != s.push(x)[j] by {
        if i == s.len() as int {
            assert(s[j] == s.push(x)[j]);
        } else if j == s.len() as int {
            assert(s[i] == s.push(x)[i]);
        }
    }
}

impl GraphicsPipelineCache {
    /// Adds to `acc` each pair that needs a pipeline on account of `phase`
    /// and is not in `acc` yet.
    fn collect_missing_in_phase(
        &self,
        phase: usize,
        live: &LiveResources,
        acc: &mut Vec<CachedGraphicsPipelineKey>,
    )
        requires
            self.wf(),
            phase < MAX_RENDER_PHASE_COUNT,
            old(acc)@.no_duplicates(),
        ensures
            final(acc)@.no_duplicates(),
            forall|k: CachedGraphicsPipelineKey|
                #[trigger] final(acc)@.contains(k) <==> (old(acc)@.contains(k)
                    || self@.needs_pipeline_in_phase(phase as int, k, live.live_renderpasses(), live.live_material_passes())),
    {
        let ghost lr = live.live_renderpasses();
        let ghost lm = live.live_material_passes();
        let ghost st = self@;
        let ghost acc0 = acc@;
        let renderpasses = map_keys(&self.renderpass_assignments[phase]);
        let material_passes = map_keys(&self.material_pass_assignments[phase]);
        assert(renderpasses@.to_set() =~= st.renderpasses[phase as int].dom());
        assert(material_passes@.to_set() =~= st.material_passes[phase as int]);
        let nr = renderpasses.len();
        let nm = material_passes.len();
        for i in 0..nr
            invariant
                nr == renderpasses@.len(),
                nm == material_passes@.len(),
                self.wf(),
                st == self@,
                renderpasses@.to_set() == st.renderpasses[phase as int].dom(),
                material_passes@.to_set() == st.material_passes[phase as int],
                lr == live.live_renderpasses(),
                lm == live.live_material_passes(),
                acc@.no_duplicates(),
                forall|k: CachedGraphicsPipelineKey|
                    #[trigger] acc@.contains(k) <==> (acc0.contains(k) || (st.needs_pipeline_in_phase(phase as int, k, lr, lm)
                        && renderpasses@.take(i as int).contains(k.renderpass))),
        {
            let renderpass = renderpasses[i];
            let ghost acc1 = acc@;
            if live.renderpass_is_alive(renderpass) {
                for j in 0..nm
                    invariant
                        nr == renderpasses@.len(),
                        nm == material_passes@.len(),
                        i < nr,
                        renderpass == renderpasses@[i as int],
                        lr.contains(renderpass),
                        self.wf(),
                        st == self@,
                        material_passes@.to_set() == st.material_passes[phase as int],
                        renderpasses@.to_set() == st.renderpasses[phase as int].dom(),
                        lr == live.live_renderpasses(),
                        lm == live.live_material_passes(),
                        acc@.no_duplicates(),
                        forall|k: CachedGraphicsPipelineKey|
                            #[trigger] acc@.contains(k) <==> (acc1.contains(k) || (st.needs_pipeline_in_phase(phase as int, k, lr, lm)
                                && k.renderpass == renderpass && material_passes@.take(j as int).contains(k.material_pass))),
                {
                    let material_pass = material_passes[j];
                    let key = CachedGraphicsPipelineKey { material_pass, renderpass };
                    let ghost acc2 = acc@;
                    if live.material_pass_is_alive(material_pass) && !map_contains_key(&self.cached_pipelines, &(material_pass, renderpass))
                        && !keys_contain(acc, key) {
                        proof {
                            lemma_push_no_duplicates(acc@, key);
                        }
                        acc.push(key);
                        assert forall|k: CachedGraphicsPipelineKey| #[trigger] acc@.contains(k) <==> (acc2.contains(k) || k == key) by {
                            if acc@.contains(k) && k != key {
                                let w = choose|w: int| 0 <= w < acc@.len() && acc@[w] == k;
                                assert(acc2[w] == k);
                            }
                            if acc2.contains(k) {
                                let w = choose|w: int| 0 <= w < acc2.len() && acc2[w] == k;
                                assert(acc@[w] == k);
                            }
                            if k == key {
                                assert(acc@[acc2.len() as int] == key);
                            }
                        }
                    }
                    assert forall|k: CachedGraphicsPipelineKey|
                        #[trigger] acc@.contains(k) <==> (acc1.contains(k) || (st.needs_pipeline_in_phase(phase as int, k, lr, lm)
                            && k.renderpass == renderpass && material_passes@.take(j as int + 1).contains(k.material_pass))) by {
                        assert(material_passes@.take(j as int + 1) =~= material_passes@.take(j as int).push(material_pass));
                        vstd::seq_lib::lemma_seq_contains_after_push(material_passes@.take(j as int), material_pass, k.material_pass);
                        assert(material_passes@.take(j as int + 1).contains(k.material_pass) <==> (
                            material_passes@.take(j as int).contains(k.material_pass) || k.material_pass == material_pass));
                        if k.material_pass == material_pass && k.renderpass == renderpass {
                            assert(k == key);
                        }
                    }
                }
                assert(material_passes@.take(nm as int) =~= material_passes@);
            }
            assert forall|k: CachedGraphicsPipelineKey|
                #[trigger] acc@.contains(k) <==> (acc0.contains(k) || (st.needs_pipeline_in_phase(phase as int, k, lr, lm)
                    && renderpasses@.take(i as int + 1).contains(k.renderpass))) by {
                assert(renderpasses@.take(i as int + 1) =~= renderpasses@.take(i as int).push(renderpass));
                vstd::seq_lib::lemma_seq_contains_after_push(renderpasses@.take(i as int), renderpass, k.renderpass);
                assert(renderpasses@.take(i as int + 1).contains(k.renderpass) <==> (
                    renderpasses@.take(i as int).contains(k.renderpass) || k.renderpass == renderpass));
                if st.needs_pipeline_in_phase(phase as int, k, lr, lm) {
                    assert(material_passes@.to_set().contains(k.material_pass));
                }
            }
        }
        assert(renderpasses@.take(nr as int) =~= renderpasses@);
    }

    /// The pairs for which a pipeline has to be built: a render pass and a
    /// material pass registered in the same phase, both still existing, with
    /// no pipeline cached for them. Each pair comes once.
    ///
    /// Building them is the caller's work; `cache_created_pipelines` then
    /// caches what was built.
    pub fn missing_pipelines(&self, live: &LiveResources) -> (r: Vec<CachedGraphicsPipelineKey>)
        requires
            self.wf(),
        ensures
            r@.to_set() == self@.missing_pipelines(live.live_renderpasses(), live.live_material_passes()),
            r@.no_duplicates(),
    {
        let ghost lr = live.live_renderpasses();
        let ghost lm = live.live_material_passes();
        let mut acc: Vec<CachedGraphicsPipelineKey> = Vec::new();
        for phase in 0..MAX_RENDER_PHASE_COUNT as usize
            invariant
                self.wf(),
                lr == live.live_renderpasses(),
                lm == live.live_material_passes(),
                acc@.no_duplicates(),
                forall|k: CachedGraphicsPipelineKey|
                    #[trigger] acc@.contains(k) <==> exists|p: int|
                        0 <= p < phase && #[trigger] self@.needs_pipeline_in_phase(p, k, lr, lm),
        {
            let ghost acc0 = acc@;
            self.collect_missing_in_phase(phase, live, &mut acc);
            assert forall|k: CachedGraphicsPipelineKey|
                #[trigger] acc@.contains(k) <==> exists|p: int|
                    0 <= p < phase + 1 && #[trigger] self@.needs_pipeline_in_phase(p, k, lr, lm) by {
                if acc@.contains(k) && !acc0.contains(k) {
                    assert(self@.needs_pipeline_in_phase(phase as int, k, lr, lm));
                }
            }
        }
        let ghost missing = self@.missing_pipelines(lr, lm);
        assert forall|k: CachedGraphicsPipelineKey| acc@.to_set().contains(k) <==> missing.contains(k) by {
            if missing.contains(k) {
                let p = choose|p: int|
                    0 <= p < MAX_RENDER_PHASE_COUNT && #[trigger] self@.renderpasses[p].contains_key(k.renderpass)
                        && self@.material_passes[p].contains(k.material_pass);
                assert(self@.needs_pipeline_in_phase(p, k, lr, lm));
            }
            if acc@.contains(k) {
                let p = choose|p: int| 0 <= p < MAX_RENDER_PHASE_COUNT && #[trigger] self@.needs_pipeline_in_phase(p, k, lr, lm);
                assert(self@.renderpasses[p].contains_key(k.renderpass));
            }
        }
        assert(acc@.to_set() =~= missing);
        acc
    }
}


/// The position of the first failed build in `results`, or its length where
/// every build succeeded.
fn first_failure<E>(results: &Vec<Result<GraphicsPipelineId, E>>) -> (n: usize)
    ensures
        n <= results@.len(),
        forall|j: int| 0 <= j < n ==> results@[j] is Ok,
        n < results@.len() ==> results@[n as int] is Err,
{
    let len = results.len();
    for i in 0..len
        invariant
            len == results@.len(),
            forall|j: int| 0 <= j < i ==> results@[j] is Ok,
    {
        if results[i].is_err() {
            return i;
        }
    }
    len
}

impl GraphicsPipelineCache {
    /// The next pair of `missing` to build, given the outcomes of the builds
    /// so far (`results[i]` for `missing[i]`): none once a build has failed
    /// or every pair is built, the next one in order otherwise.
    pub fn next_build<E>(missing: &Vec<CachedGraphicsPipelineKey>, results: &Vec<Result<GraphicsPipelineId, E>>) -> (r: Option<usize>)
        requires
            results@.len() <= missing@.len(),
        ensures
            r == if (exists|j: int| 0 <= j < results@.len() && #[trigger] results@[j] is Err) || results@.len() == missing@.len() {
                None::<usize>
            } else {
                Some(results@.len() as usize)
            },
    {
        let n = first_failure(results);
        if n < results.len() || results.len() == missing.len() {
            None
        } else {
            Some(results.len())
        }
    }

    /// Takes the outcome of building the pipelines for `missing`, in order
    /// (`results[i]` for `missing[i]`), where building stopped at the first
    /// failure: caches every pipeline built before the first failure and
    /// returns that failure, or caches them all and returns `Ok`.
    pub fn cache_build_results<E>(
        &mut self,
        missing: &Vec<CachedGraphicsPipelineKey>,
        results: Vec<Result<GraphicsPipelineId, E>>,
    ) -> (r: Result<(), E>)
        requires
            old(self).wf(),
            results@.len() <= missing@.len(),
        ensures
            final(self).wf(),
            final(self)@.has_all_phases(),
            final(self)@.phase_names == old(self)@.phase_names,
            r is Ok <==> forall|j: int| 0 <= j < results@.len() ==> results@[j] is Ok,
            r is Ok ==> final(self)@ == old(self)@.cache_created(built_pipelines(missing@, results@, results@.len() as int)),
            r matches Err(e) ==> exists|n: int|
                0 <= n < results@.len() && results@[n] == Err::<GraphicsPipelineId, E>(e) && (forall|j: int|
                    0 <= j < n ==> results@[j] is Ok) && final(self)@ == old(self)@.cache_created(
                    built_pipelines(missing@, results@, n),
                ),
    {
        let n = first_failure(&results);
        let mut created: Vec<(CachedGraphicsPipelineKey, GraphicsPipelineId)> = Vec::new();
        for i in 0..n
            invariant
                n <= results@.len() <= missing@.len(),
                forall|j: int| 0 <= j < n ==> results@[j] is Ok,
                created@ == built_pipelines(missing@, results@, i as int),
        {
            match &results[i] {
                Ok(pipeline) => {
                    created.push((missing[i], *pipeline));
                },
                Err(_) => {},
            }
            assert(created@ =~= built_pipelines(missing@, results@, i + 1));
        }
        self.cache_created_pipelines(&created);
        if n < results.len() {
            let mut results = results;
            let failure = results.swap_remove(n);
            match failure {
                Ok(_) => Ok(()),
                Err(e) => Err(e),
            }
        } else {
            Ok(())
        }
    }
}

} // verus!
