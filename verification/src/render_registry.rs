//! The registry of render phases: each phase is registered under a name and
//! gets the next free phase index.
use vstd::prelude::*;

verus! {

/// Index of a render phase in the registry.
pub type RenderPhaseIndex = u32;

/// How many render phases a registry can hold; phase indices lie below it.
pub const MAX_RENDER_PHASE_COUNT: u32 = 32;

/// The index under which `name` is registered in `names` (phase `i` is named
/// `names[i]`). Where a name was registered more than once, the latest
/// registration wins.
pub open spec fn phase_index_of(names: Seq<Seq<char>>, name: Seq<char>) -> Option<RenderPhaseIndex>
    decreases names.len(),
{
    if names.len() == 0 {
        None
    } else if names.last() == name {
        Some((names.len() - 1) as RenderPhaseIndex)
    } else {
        phase_index_of(names.drop_last(), name)
    }
}

/// The render phases known to the renderer, by name.
pub struct RenderRegistry {
    render_phase_names: Vec<String>,
}

impl View for RenderRegistry {
    type V = Seq<Seq<char>>;

    /// The name of each registered phase, by phase index.
    closed spec fn view(&self) -> Seq<Seq<char>> {
        self.render_phase_names@.map_values(|s: String| s@)
    }
}

impl RenderRegistry {
    /// A registry never holds more than `MAX_RENDER_PHASE_COUNT` phases.
    #[verifier::type_invariant]
    closed spec fn at_most_max_phases(self) -> bool {
        self.render_phase_names@.len() <= MAX_RENDER_PHASE_COUNT
    }
}

impl Clone for RenderRegistry {
    fn clone(&self) -> (r: Self)
        ensures
            r@ == self@,
            self@.len() <= MAX_RENDER_PHASE_COUNT,
    {
        proof {
            use_type_invariant(self);
        }
        let mut render_phase_names: Vec<String> = Vec::new();
        let n = self.render_phase_names.len();
        for i in 0..n
            invariant
                n == self.render_phase_names@.len(),
                render_phase_names@.len() == i,
                forall|j: int| 0 <= j < i ==> #[trigger] render_phase_names@[j]@ == self.render_phase_names@[j]@,
        {
            render_phase_names.push(self.render_phase_names[i].clone());
        }
        let r = RenderRegistry { render_phase_names };
        assert(r@ =~= self@);
        r
    }
}

impl RenderRegistry {
    /// A registry with no phases.
    pub fn new() -> (r: Self)
        ensures
            r@ == Seq::<Seq<char>>::empty(),
    {
        let r = RenderRegistry { render_phase_names: Vec::new() };
        assert(r@ =~= Seq::<Seq<char>>::empty());
        r
    }

    /// Registers a phase under `name`, giving it the next free index, which is
    /// returned; `None` where all `MAX_RENDER_PHASE_COUNT` indices are taken.
    pub fn register_render_phase(&mut self, name: &str) -> (r: Option<RenderPhaseIndex>)
        ensures
            old(self)@.len() < MAX_RENDER_PHASE_COUNT ==> r == Some(old(self)@.len() as RenderPhaseIndex)
                && final(self)@ == old(self)@.push(name@),
            old(self)@.len() >= MAX_RENDER_PHASE_COUNT ==> r is None && final(self)@ == old(self)@,
            final(self)@.len() <= MAX_RENDER_PHASE_COUNT,
    {
        proof {
            use_type_invariant(&*self);
        }
        if self.render_phase_names.len() >= MAX_RENDER_PHASE_COUNT as usize {
            return None;
        }
        let index = self.render_phase_names.len() as u32;
        let owned = name.to_owned();
        let mut render_phase_names: Vec<String> = Vec::new();
        std::mem::swap(&mut render_phase_names, &mut self.render_phase_names);
        render_phase_names.push(owned);
        self.render_phase_names = render_phase_names;
        assert(self@ =~= old(self)@.push(name@));
        Some(index)
    }

    /// The index of the phase registered under `name`, if there is one.
    pub fn render_phase_index_from_name(&self, name: &str) -> (r: Option<RenderPhaseIndex>)
        ensures
            r == phase_index_of(self@, name@),
            self@.len() <= MAX_RENDER_PHASE_COUNT,
    {
        proof {
            use_type_invariant(self);
        }
        let wanted = name.to_owned();
        let mut i = self.render_phase_names.len();
        assert(self@.take(i as int) =~= self@);
        while i > 0
            invariant
                i <= self.render_phase_names@.len() <= MAX_RENDER_PHASE_COUNT,
                phase_index_of(self@, name@) == phase_index_of(self@.take(i as int), name@),
                wanted@ == name@,
            decreases i,
        {
            let ghost prefix = self@.take(i as int);
            assert(prefix.drop_last() =~= self@.take(i - 1));
            if self.render_phase_names[i - 1] == wanted {
                return Some((i - 1) as u32);
            }
            i = i - 1;
        }
        assert(self@.take(0) =~= Seq::<Seq<char>>::empty());
        None
    }
}

} // verus!
