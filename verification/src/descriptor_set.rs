//! A descriptor set whose bindings are written one at a time and handed to
//! the GPU in batches: every write marks its binding dirty, and a flush hands
//! out the current value of each dirty binding.
use vstd::prelude::*;

verus! {

/// Handle of an image view resource.
pub type ImageViewId = u64;

/// Handle of an allocated descriptor set.
pub type DescriptorSetId = u64;

/// What a binding of a descriptor set layout holds.
#[derive(Clone, Copy, PartialEq, Eq, Structural, Debug)]
pub enum DescriptorKind {
    /// An immutable sampler, fixed by the layout.
    Sampler,
    /// A sampled image.
    Image,
    /// A uniform buffer whose contents the set owns.
    BufferData,
}

/// A binding of a descriptor set layout.
#[derive(Clone, Copy, PartialEq, Eq, Debug)]
pub struct DescriptorBinding {
    pub binding: u32,
    pub kind: DescriptorKind,
}

/// A value written to a binding.
#[derive(Debug)]
pub enum DescriptorValue {
    Image(ImageViewId),
    BufferData(Vec<u8>),
}

/// The contents of a binding, as a mathematical value.
pub enum DescriptorContent {
    Image(ImageViewId),
    BufferData(Seq<u8>),
}

impl DescriptorValue {
    pub open spec fn content(&self) -> DescriptorContent {
        match self {
            DescriptorValue::Image(view) => DescriptorContent::Image(*view),
            DescriptorValue::BufferData(bytes) => DescriptorContent::BufferData(bytes@),
        }
    }
}

/// A write to hand to the GPU: `binding` now holds `value`.
#[derive(Debug)]
pub struct DescriptorWrite {
    pub binding: u32,
    pub value: DescriptorValue,
}

fn copy_bytes(bytes: &[u8]) -> (r: Vec<u8>)
    ensures
        r@ == bytes@,
{
    let mut r: Vec<u8> = Vec::new();
    let n = bytes.len();
    for i in 0..n
        invariant
            n == bytes@.len(),
            r@ == bytes@.take(i as int),
    {
        r.push(bytes[i]);
        assert(bytes@.take(i + 1) =~= bytes@.take(i as int).push(bytes@[i as int]));
    }
    assert(bytes@.take(n as int) =~= bytes@);
    r
}

fn copy_value(value: &DescriptorValue) -> (r: DescriptorValue)
    ensures
        r.content() == value.content(),
{
    match value {
        DescriptorValue::Image(view) => DescriptorValue::Image(*view),
        DescriptorValue::BufferData(bytes) => DescriptorValue::BufferData(copy_bytes(bytes.as_slice())),
    }
}

/// A binding of the set with its kind and what was last written to it.
struct DescriptorElement {
    binding: u32,
    kind: DescriptorKind,
    value: Option<DescriptorValue>,
}

/// What a descriptor set holds, binding by binding.
pub struct DynDescriptorSetState {
    pub descriptor_set: DescriptorSetId,
    /// The layout: the kind of each binding.
    pub kinds: Map<u32, DescriptorKind>,
    /// What was last written to each binding that was written.
    pub values: Map<u32, DescriptorContent>,
    /// The bindings written since the last flush.
    pub dirty: Set<u32>,
}

impl DynDescriptorSetState {
    /// The state after `content` is written to `binding`. A binding that is
    /// not in the layout, or that holds another kind of descriptor, is left
    /// as it is.
    pub open spec fn write(self, binding: u32, kind: DescriptorKind, content: DescriptorContent) -> Self {
        if self.kinds.contains_key(binding) && self.kinds[binding] == kind {
            DynDescriptorSetState {
                values: self.values.insert(binding, content),
                dirty: self.dirty.insert(binding),
                ..self
            }
        } else {
            self
        }
    }

    pub open spec fn set_image(self, binding: u32, image_view: ImageViewId) -> Self {
        self.write(binding, DescriptorKind::Image, DescriptorContent::Image(image_view))
    }

    pub open spec fn set_buffer_data(self, binding: u32, data: Seq<u8>) -> Self {
        self.write(binding, DescriptorKind::BufferData, DescriptorContent::BufferData(data))
    }

    /// Whether `writes` is what a flush hands out: the current value of each
    /// dirty binding, each binding once.
    pub open spec fn flushed_writes(self, writes: Seq<DescriptorWrite>) -> bool {
        &&& writes.len() == self.dirty.len()
        &&& forall|i: int| 0 <= i < writes.len() ==> {
            &&& self.dirty.contains(#[trigger] writes[i].binding)
            &&& self.values.contains_key(writes[i].binding)
            &&& writes[i].value.content() == self.values[writes[i].binding]
        }
        &&& forall|i: int, j: int| 0 <= i < j < writes.len() ==> #[trigger] writes[i].binding != #[trigger] writes[j].binding
        &&& forall|b: u32| #[trigger] self.dirty.contains(b) ==> exists|i: int| 0 <= i < writes.len() && #[trigger] writes[i].binding == b
    }

    /// The state after a flush: nothing is dirty.
    pub open spec fn flushed(self) -> Self {
        DynDescriptorSetState { dirty: Set::empty(), ..self }
    }
}

/// A descriptor set with its pending writes.
pub struct DynDescriptorSet {
    descriptor_set: DescriptorSetId,
    elements: Vec<DescriptorElement>,
    // bindings written since the last flush, each once
    dirty: Vec<u32>,
}

impl View for DynDescriptorSet {
    type V = DynDescriptorSetState;

    closed spec fn view(&self) -> DynDescriptorSetState {
        DynDescriptorSetState {
            descriptor_set: self.descriptor_set,
            kinds: Map::new(
                |b: u32| exists|i: int| 0 <= i < self.elements.len() && #[trigger] self.elements@[i].binding == b,
                |b: u32| self.elements@[self.element_index(b)].kind,
            ),
            values: Map::new(
                |b: u32|
                    exists|i: int|
                        0 <= i < self.elements.len() && #[trigger] self.elements@[i].binding == b
                            && self.elements@[i].value is Some,
                |b: u32| self.elements@[self.element_index(b)].value->0.content(),
            ),
            dirty: self.dirty@.to_set(),
        }
    }
}

impl DynDescriptorSet {
    /// The position of the element of binding `b`.
    closed spec fn element_index(&self, b: u32) -> int {
        choose|i: int| 0 <= i < self.elements.len() && #[trigger] self.elements@[i].binding == b
    }

    closed spec fn distinct_elements(&self) -> bool {
        forall|i: int, j: int|
            0 <= i < j < self.elements.len() ==> #[trigger] self.elements@[i].binding != #[trigger] self.elements@[j].binding
    }

    /// Each binding has one element, and each dirty binding was written.
    pub closed spec fn wf(&self) -> bool {
        &&& self.distinct_elements()
        &&& self.dirty@.no_duplicates()
        &&& forall|i: int| 0 <= i < self.dirty.len() ==> self@.values.contains_key(#[trigger] self.dirty@[i])
    }
}


/// The kind of each binding of `layout`.
pub open spec fn layout_kinds(layout: Seq<DescriptorBinding>) -> Map<u32, DescriptorKind> {
    Map::new(
        |b: u32| exists|i: int| 0 <= i < layout.len() && #[trigger] layout[i].binding == b,
        |b: u32| layout[choose|i: int| 0 <= i < layout.len() && #[trigger] layout[i].binding == b].kind,
    )
}

/// No binding occurs twice in `layout`.
pub open spec fn distinct_bindings(layout: Seq<DescriptorBinding>) -> bool {
    forall|i: int, j: int| 0 <= i < j < layout.len() ==> #[trigger] layout[i].binding != #[trigger] layout[j].binding
}

fn dirty_contains(dirty: &Vec<u32>, binding: u32) -> (r: bool)
    ensures
        r == dirty@.contains(binding),
{
    let n = dirty.len();
    for i in 0..n
        invariant
            n == dirty@.len(),
            forall|j: int| 0 <= j < i ==> dirty@[j] != binding,
    {
        if dirty[i] == binding {
            return true;
        }
    }
    false
}

impl DynDescriptorSet {
    proof fn lemma_element_index(&self, b: u32, i: int)
        requires
            self.distinct_elements(),
            0 <= i < self.elements.len(),
            self.elements@[i].binding == b,
        ensures
            self.element_index(b) == i,
    {
        let k = self.element_index(b);
        if k != i {
            if k < i {
                assert(self.elements@[k].binding != self.elements@[i].binding);
            } else {
                assert(self.elements@[i].binding != self.elements@[k].binding);
            }
        }
    }

    /// A descriptor set laid out as `layout`, with nothing written yet.
    pub fn new(descriptor_set: DescriptorSetId, layout: &Vec<DescriptorBinding>) -> (r: Self)
        requires
            distinct_bindings(layout@),
        ensures
            r.wf(),
            r@.descriptor_set == descriptor_set,
            r@.kinds == layout_kinds(layout@),
            r@.values == Map::<u32, DescriptorContent>::empty(),
            r@.dirty == Set::<u32>::empty(),
    {
        let mut elements: Vec<DescriptorElement> = Vec::new();
        let n = layout.len();
        for i in 0..n
            invariant
                n == layout@.len(),
                elements@.len() == i,
                forall|j: int| 0 <= j < i ==> (#[trigger] elements@[j]).binding == layout@[j].binding
                    && elements@[j].kind == layout@[j].kind && elements@[j].value is None,
        {
            elements.push(DescriptorElement { binding: layout[i].binding, kind: layout[i].kind, value: None });
        }
        let r = DynDescriptorSet { descriptor_set, elements, dirty: Vec::new() };
        assert forall|b: u32| #[trigger] r@.kinds.contains_key(b) <==> layout_kinds(layout@).contains_key(b) by {
            if r@.kinds.contains_key(b) {
                let i = choose|i: int| 0 <= i < r.elements.len() && #[trigger] r.elements@[i].binding == b;
                assert(layout@[i].binding == b);
            }
            if layout_kinds(layout@).contains_key(b) {
                let i = choose|i: int| 0 <= i < layout@.len() && #[trigger] layout@[i].binding == b;
                assert(r.elements@[i].binding == b);
            }
        }
        assert forall|b: u32| #[trigger] r@.kinds.contains_key(b) implies r@.kinds[b] == layout_kinds(layout@)[b] by {
            let i = choose|i: int| 0 <= i < r.elements.len() && #[trigger] r.elements@[i].binding == b;
            r.lemma_element_index(b, i);
            let j = choose|j: int| 0 <= j < layout@.len() && #[trigger] layout@[j].binding == b;
            if i != j {
                if i < j {
                    assert(layout@[i].binding != layout@[j].binding);
                } else {
                    assert(layout@[j].binding != layout@[i].binding);
                }
            }
        }
        assert(r@.kinds =~= layout_kinds(layout@));
        assert(r@.values =~= Map::<u32, DescriptorContent>::empty());
        assert(r@.dirty =~= Set::<u32>::empty());
        r
    }

    /// The descriptor set the writes go to.
    pub fn descriptor_set(&self) -> (r: DescriptorSetId)
        ensures
            r == self@.descriptor_set,
    {
        self.descriptor_set
    }

    fn find_element(&self, binding_index: u32) -> (r: Option<usize>)
        ensures
            match r {
                Some(i) => i < self.elements@.len() && self.elements@[i as int].binding == binding_index,
                None => forall|j: int| 0 <= j < self.elements@.len() ==> self.elements@[j].binding != binding_index,
            },
    {
        let n = self.elements.len();
        for i in 0..n
            invariant
                n == self.elements@.len(),
                forall|j: int| 0 <= j < i ==> self.elements@[j].binding != binding_index,
        {
            if self.elements[i].binding == binding_index {
                return Some(i);
            }
        }
        None
    }

    /// Writes `value` to `binding_index` where the layout has a binding of
    /// that kind there; leaves the set as it is otherwise.
    fn write(&mut self, binding_index: u32, kind: DescriptorKind, value: DescriptorValue)
        requires
            old(self).wf(),
        ensures
            final(self).wf(),
            final(self)@ == old(self)@.write(binding_index, kind, value.content()),
    {
        let ghost pre = self@;
        let ghost content = value.content();
        let found = self.find_element(binding_index);
        if found.is_none() {
            assert(!pre.kinds.contains_key(binding_index));
            return;
        }
        let i = found.unwrap();
        proof {
            self.lemma_element_index(binding_index, i as int);
        }
        if self.elements[i].kind != kind {
            return;
        }
        let ghost old_elements = self.elements@;
        self.elements[i].value = Some(value);
        proof {
            assert forall|a: int, b: int|
                0 <= a < b < self.elements.len() implies #[trigger] self.elements@[a].binding != #[trigger] self.elements@[b].binding by {
                assert(old_elements[a].binding != old_elements[b].binding);
            }
            self.lemma_element_index(binding_index, i as int);
            assert forall|b: u32| #[trigger] pre.kinds.contains_key(b) implies self@.kinds.contains_key(b)
                && self@.kinds[b] == pre.kinds[b] by {
                let j = choose|j: int| 0 <= j < old_elements.len() && #[trigger] old_elements[j].binding == b;
                assert(self.elements@[j].binding == b);
                self.lemma_element_index(b, j);
                assert(self.element_index(b) == j);
            }
            assert(self@.kinds =~= pre.kinds);
            assert forall|b: u32| #[trigger] self@.values.contains_key(b) <==> (pre.values.contains_key(b) || b == binding_index) by {
                if b == binding_index {
                    assert(self.elements@[i as int].binding == b);
                }
                if pre.values.contains_key(b) {
                    let j = choose|j: int| 0 <= j < old_elements.len() && #[trigger] old_elements[j].binding == b
                        && old_elements[j].value is Some;
                    assert(self.elements@[j].binding == b);
                }
                if self@.values.contains_key(b) && b != binding_index {
                    let j = choose|j: int| 0 <= j < self.elements.len() && #[trigger] self.elements@[j].binding == b
                        && self.elements@[j].value is Some;
                    assert(old_elements[j].binding == b);
                }
            }
            assert forall|b: u32| #[trigger] self@.values.contains_key(b) implies self@.values[b]
                == pre.values.insert(binding_index, content)[b] by {
                if b != binding_index {
                    let j = choose|j: int| 0 <= j < self.elements.len() && #[trigger] self.elements@[j].binding == b
                        && self.elements@[j].value is Some;
                    self.lemma_element_index(b, j);
                    assert(old_elements[j].binding == b);
                }
            }
            assert(self@.values =~= pre.values.insert(binding_index, content));
        }
        let ghost mid = self@;
        if !dirty_contains(&self.dirty, binding_index) {
            proof {
                vstd::seq_lib::lemma_seq_contains_after_push(self.dirty@, binding_index, binding_index);
            }
            let ghost old_dirty = self.dirty@;
            self.dirty.push(binding_index);
            proof {
                assert forall|a: int, b: int|
                    0 <= a < self.dirty.len() && 0 <= b < self.dirty.len() && a != b implies self.dirty@[a] != self.dirty@[b] by {
                    if a == old_dirty.len() as int {
                        assert(old_dirty.contains(self.dirty@[b]));
                    } else if b == old_dirty.len() as int {
                        assert(old_dirty.contains(self.dirty@[a]));
                    }
                }
                assert forall|x: u32| #[trigger] self.dirty@.to_set().contains(x) <==> mid.dirty.insert(binding_index).contains(x) by {
                    vstd::seq_lib::lemma_seq_contains_after_push(old_dirty, binding_index, x);
                }
                assert(self@.dirty =~= mid.dirty.insert(binding_index));
            }
        } else {
            assert(self@.dirty =~= mid.dirty.insert(binding_index));
        }
        assert(self@.kinds == mid.kinds);
        assert(self@.values == mid.values);
        assert(pre.kinds.contains_key(binding_index));
        assert(pre.kinds[binding_index] == kind);
        assert(self@ == pre.write(binding_index, kind, content));
    }
}


impl DynDescriptorSet {
    /// Binds `image_view` at `binding_index`, where the layout has an image
    /// binding there; leaves the set as it is otherwise.
    pub fn set_image(&mut self, binding_index: u32, image_view: ImageViewId)
        requires
            old(self).wf(),
        ensures
            final(self).wf(),
            final(self)@ == old(self)@.set_image(binding_index, image_view),
    {
        self.write(binding_index, DescriptorKind::Image, DescriptorValue::Image(image_view))
    }

    /// Stores a copy of `data` as the contents of the buffer at
    /// `binding_index`, where the layout has a buffer binding there; leaves
    /// the set as it is otherwise.
    pub fn set_buffer_data(&mut self, binding_index: u32, data: &[u8])
        requires
            old(self).wf(),
        ensures
            final(self).wf(),
            final(self)@ == old(self)@.set_buffer_data(binding_index, data@),
    {
        self.write(binding_index, DescriptorKind::BufferData, DescriptorValue::BufferData(copy_bytes(data)))
    }

    /// Hands out the current value of each binding written since the last
    /// flush, to be queued as an update of the descriptor set, and marks
    /// nothing dirty. With nothing dirty there is nothing to queue.
    pub fn flush(&mut self) -> (writes: Vec<DescriptorWrite>)
        requires
            old(self).wf(),
        ensures
            final(self).wf(),
            old(self)@.flushed_writes(writes@),
            final(self)@ == old(self)@.flushed(),
    {
        let ghost pre = self@;
        let mut writes: Vec<DescriptorWrite> = Vec::new();
        let n = self.dirty.len();
        for i in 0..n
            invariant
                self.wf(),
                self@ == pre,
                n == self.dirty@.len(),
                writes@.len() == i,
                forall|j: int| 0 <= j < i ==> (#[trigger] writes@[j]).binding == self.dirty@[j]
                    && writes@[j].value.content() == pre.values[self.dirty@[j]],
        {
            let binding = self.dirty[i];
            assert(pre.values.contains_key(binding));
            let found = self.find_element(binding);
            let ghost w = choose|w: int| 0 <= w < self.elements.len() && #[trigger] self.elements@[w].binding == binding
                && self.elements@[w].value is Some;
            let index = found.unwrap();
            proof {
                self.lemma_element_index(binding, w);
                self.lemma_element_index(binding, index as int);
            }
            match &self.elements[index].value {
                Some(value) => {
                    writes.push(DescriptorWrite { binding, value: copy_value(value) });
                },
                None => {},
            }
        }
        proof {
            let d = self.dirty@;
            d.unique_seq_to_set();
            assert forall|j: int, k: int| 0 <= j < k < writes@.len() implies #[trigger] writes@[j].binding
                != #[trigger] writes@[k].binding by {}
            assert forall|b: u32| #[trigger] pre.dirty.contains(b) implies exists|j: int|
                0 <= j < writes@.len() && #[trigger] writes@[j].binding == b by {
                let j = choose|j: int| 0 <= j < d.len() && d[j] == b;
                assert(writes@[j].binding == b);
            }
        }
        self.dirty = Vec::new();
        proof {
            assert(self@.dirty =~= Set::<u32>::empty());
            assert(self@.kinds == pre.kinds);
            assert(self@.values == pre.values);
        }
        writes
    }
}

} // verus!
