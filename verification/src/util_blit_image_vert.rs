//! The descriptor set of the image blit vertex shader: set 0 holds a sampler
//! (binding 0), the source texture (binding 1) and the `Config` uniform
//! block (binding 2).
use vstd::prelude::*;
use crate::descriptor_set::{DynDescriptorSet, DynDescriptorSetState, DescriptorWrite, DescriptorSetId, ImageViewId};

verus! {

pub const SMP_DESCRIPTOR_SET_INDEX: usize = 0;
pub const SMP_DESCRIPTOR_BINDING_INDEX: usize = 0;
pub const SRC_TEX_DESCRIPTOR_SET_INDEX: usize = 0;
pub const SRC_TEX_DESCRIPTOR_BINDING_INDEX: usize = 1;
pub const CONFIG_DESCRIPTOR_SET_INDEX: usize = 0;
pub const CONFIG_DESCRIPTOR_BINDING_INDEX: usize = 2;

/// The `Config` uniform block in std140 layout, each `float` given by its
/// IEEE-754 bit pattern.
#[derive(Clone, Copy, PartialEq, Eq, Debug)]
pub struct ConfigStd140Bits {
    pub src_uv_min: [u32; 2],
    pub src_uv_max: [u32; 2],
}

/// The four bytes of `x`, least significant first.
pub open spec fn u32_le_bytes(x: u32) -> Seq<u8> {
    seq![(x & 0xff) as u8, ((x >> 8u32) & 0xff) as u8, ((x >> 16u32) & 0xff) as u8, ((x >> 24u32) & 0xff) as u8]
}

/// The 16 bytes of the block: `src_uv_min` at offset 0 (8 bytes) and
/// `src_uv_max` at offset 8 (8 bytes).
pub open spec fn config_std140_bytes(c: ConfigStd140Bits) -> Seq<u8> {
    u32_le_bytes(c.src_uv_min[0]) + u32_le_bytes(c.src_uv_min[1]) + u32_le_bytes(c.src_uv_max[0]) + u32_le_bytes(
        c.src_uv_max[1],
    )
}

fn push_u32_le(bytes: &mut Vec<u8>, x: u32)
    ensures
        final(bytes)@ == old(bytes)@ + u32_le_bytes(x),
{
    bytes.push((x & 0xff) as u8);
    bytes.push(((x >> 8u32) & 0xff) as u8);
    bytes.push(((x >> 16u32) & 0xff) as u8);
    bytes.push(((x >> 24u32) & 0xff) as u8);
    assert(final(bytes)@ =~= old(bytes)@ + u32_le_bytes(x));
}

impl ConfigStd140Bits {
    /// The bytes of the block as the shader reads them.
    pub fn to_std140_bytes(&self) -> (r: Vec<u8>)
        ensures
            r@ == config_std140_bytes(*self),
            r@.len() == 16,
    {
        let mut bytes: Vec<u8> = Vec::new();
        push_u32_le(&mut bytes, self.src_uv_min[0]);
        push_u32_le(&mut bytes, self.src_uv_min[1]);
        push_u32_le(&mut bytes, self.src_uv_max[0]);
        push_u32_le(&mut bytes, self.src_uv_max[1]);
        assert(bytes@ =~= config_std140_bytes(*self));
        bytes
    }
}

/// The values that set 0 is written with.
pub struct DescriptorSet0Args<'a> {
    pub src_tex: &'a ImageViewId,
    pub config: &'a ConfigStd140Bits,
}

/// `s` with the source texture and the config block of `args` written.
pub open spec fn with_args(s: DynDescriptorSetState, src_tex: ImageViewId, config: ConfigStd140Bits) -> DynDescriptorSetState {
    s.set_image(SRC_TEX_DESCRIPTOR_BINDING_INDEX as u32, src_tex).set_buffer_data(
        CONFIG_DESCRIPTOR_BINDING_INDEX as u32,
        config_std140_bytes(config),
    )
}

/// Set 0 of the blit vertex shader.
pub struct DescriptorSet0(pub DynDescriptorSet);

impl<'a> DescriptorSet0Args<'a> {
    /// Set 0 on `descriptor_set`, with `args` written.
    pub fn create_dyn_descriptor_set(descriptor_set: DynDescriptorSet, args: Self) -> (r: DescriptorSet0)
        requires
            descriptor_set.wf(),
        ensures
            r.0.wf(),
            r.0@ == with_args(descriptor_set@, *args.src_tex, *args.config),
    {
        let mut descriptor = DescriptorSet0(descriptor_set);
        descriptor.set_args(args);
        descriptor
    }

    /// Writes `args` into `descriptor_set`.
    pub fn write_to(descriptor_set: &mut DynDescriptorSet, args: Self)
        requires
            old(descriptor_set).wf(),
        ensures
            final(descriptor_set).wf(),
            final(descriptor_set)@ == with_args(old(descriptor_set)@, *args.src_tex, *args.config),
    {
        descriptor_set.set_image(SRC_TEX_DESCRIPTOR_BINDING_INDEX as u32, *args.src_tex);
        let bytes = args.config.to_std140_bytes();
        descriptor_set.set_buffer_data(CONFIG_DESCRIPTOR_BINDING_INDEX as u32, bytes.as_slice());
    }

    /// Writes `args` to set 0 on `descriptor_set` and flushes it: the
    /// descriptor set, with the writes to queue as its update.
    pub fn create_descriptor_set(descriptor_set: DynDescriptorSet, args: Self) -> (r: (DescriptorSetId, Vec<DescriptorWrite>))
        requires
            descriptor_set.wf(),
        ensures
            r.0 == descriptor_set@.descriptor_set,
            with_args(descriptor_set@, *args.src_tex, *args.config).flushed_writes(r.1@),
    {
        let mut descriptor = Self::create_dyn_descriptor_set(descriptor_set, args);
        let writes = descriptor.0.flush();
        (descriptor.0.descriptor_set(), writes)
    }
}

impl DescriptorSet0 {
    /// Writes `args` to `descriptor_set`.
    pub fn set_args_static(descriptor_set: &mut DynDescriptorSet, args: DescriptorSet0Args)
        requires
            old(descriptor_set).wf(),
        ensures
            final(descriptor_set).wf(),
            final(descriptor_set)@ == with_args(old(descriptor_set)@, *args.src_tex, *args.config),
    {
        descriptor_set.set_image(SRC_TEX_DESCRIPTOR_BINDING_INDEX as u32, *args.src_tex);
        let bytes = args.config.to_std140_bytes();
        descriptor_set.set_buffer_data(CONFIG_DESCRIPTOR_BINDING_INDEX as u32, bytes.as_slice());
    }

    /// Writes `args` to this set.
    pub fn set_args(&mut self, args: DescriptorSet0Args)
        requires
            old(self).0.wf(),
        ensures
            final(self).0.wf(),
            final(self).0@ == with_args(old(self).0@, *args.src_tex, *args.config),
    {
        self.set_src_tex(args.src_tex);
        self.set_config(args.config);
    }

    /// Binds `src_tex` as the source texture.
    pub fn set_src_tex(&mut self, src_tex: &ImageViewId)
        requires
            old(self).0.wf(),
        ensures
            final(self).0.wf(),
            final(self).0@ == old(self).0@.set_image(SRC_TEX_DESCRIPTOR_BINDING_INDEX as u32, *src_tex),
    {
        self.0.set_image(SRC_TEX_DESCRIPTOR_BINDING_INDEX as u32, *src_tex);
    }

    /// Writes `config` to the config uniform block.
    pub fn set_config(&mut self, config: &ConfigStd140Bits)
        requires
            old(self).0.wf(),
        ensures
            final(self).0.wf(),
            final(self).0@ == old(self).0@.set_buffer_data(CONFIG_DESCRIPTOR_BINDING_INDEX as u32, config_std140_bytes(*config)),
    {
        let bytes = config.to_std140_bytes();
        self.0.set_buffer_data(CONFIG_DESCRIPTOR_BINDING_INDEX as u32, bytes.as_slice());
    }

    /// The writes to queue as the update of this set; see
    /// `DynDescriptorSet::flush`.
    pub fn flush(&mut self) -> (writes: Vec<DescriptorWrite>)
        requires
            old(self).0.wf(),
        ensures
            final(self).0.wf(),
            old(self).0@.flushed_writes(writes@),
            final(self).0@ == old(self).0@.flushed(),
    {
        self.0.flush()
    }
}

} // verus!
