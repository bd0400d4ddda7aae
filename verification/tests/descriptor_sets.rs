use renderer_assets::descriptor_set::{DescriptorBinding, DescriptorKind, DescriptorValue, DescriptorWrite, DynDescriptorSet};
use renderer_assets::util_blit_image_vert::{
    ConfigStd140Bits, DescriptorSet0, DescriptorSet0Args, CONFIG_DESCRIPTOR_BINDING_INDEX,
    SMP_DESCRIPTOR_BINDING_INDEX, SRC_TEX_DESCRIPTOR_BINDING_INDEX,
};

fn blit_layout() -> Vec<DescriptorBinding> {
    vec![
        DescriptorBinding { binding: SMP_DESCRIPTOR_BINDING_INDEX as u32, kind: DescriptorKind::Sampler },
        DescriptorBinding { binding: SRC_TEX_DESCRIPTOR_BINDING_INDEX as u32, kind: DescriptorKind::Image },
        DescriptorBinding { binding: CONFIG_DESCRIPTOR_BINDING_INDEX as u32, kind: DescriptorKind::BufferData },
    ]
}

fn sorted(mut writes: Vec<DescriptorWrite>) -> Vec<DescriptorWrite> {
    writes.sort_by_key(|w| w.binding);
    writes
}

fn config() -> ConfigStd140Bits {
    ConfigStd140Bits {
        src_uv_min: [0.25f32.to_bits(), 0.5f32.to_bits()],
        src_uv_max: [0.75f32.to_bits(), 1.0f32.to_bits()],
    }
}

#[test]
fn config_std140_layout() {
    let c = config();
    let bytes = c.to_std140_bytes();
    assert_eq!(bytes.len(), 16);
    assert_eq!(&bytes[0..4], &0.25f32.to_le_bytes());
    assert_eq!(&bytes[4..8], &0.5f32.to_le_bytes());
    assert_eq!(&bytes[8..12], &0.75f32.to_le_bytes());
    assert_eq!(&bytes[12..16], &1.0f32.to_le_bytes());
}

#[test]
fn config_std140_bytes_of_a_pattern() {
    let c = ConfigStd140Bits { src_uv_min: [0x04030201, 0x08070605], src_uv_max: [0x0c0b0a09, 0x100f0e0d] };
    assert_eq!(c.to_std140_bytes(), (1u8..=16).collect::<Vec<u8>>());
}

#[test]
fn set_src_tex_binds_binding_1() {
    let mut set = DescriptorSet0(DynDescriptorSet::new(7, &blit_layout()));
    set.set_src_tex(&42);
    let writes = set.flush();
    assert_eq!(writes.len(), 1);
    assert_eq!(writes[0].binding, 1);
    assert!(matches!(writes[0].value, DescriptorValue::Image(42)));
}

#[test]
fn set_config_writes_bytes_to_binding_2() {
    let mut set = DescriptorSet0(DynDescriptorSet::new(7, &blit_layout()));
    set.set_config(&config());
    let writes = set.flush();
    assert_eq!(writes.len(), 1);
    assert_eq!(writes[0].binding, 2);
    match &writes[0].value {
        DescriptorValue::BufferData(bytes) => assert_eq!(bytes, &config().to_std140_bytes()),
        other => panic!("unexpected {:?}", other),
    }
}

#[test]
fn flush_hands_out_each_dirty_binding_once() {
    let mut set = DescriptorSet0(DynDescriptorSet::new(7, &blit_layout()));
    set.set_src_tex(&1);
    set.set_src_tex(&2);
    set.set_config(&config());
    let writes = sorted(set.flush());
    assert_eq!(writes.len(), 2);
    assert!(matches!(writes[0].value, DescriptorValue::Image(2)));
    assert_eq!(writes[1].binding, 2);
    assert!(set.flush().is_empty());
}

#[test]
fn writes_to_a_binding_of_another_kind_are_ignored() {
    let mut set = DynDescriptorSet::new(7, &blit_layout());
    set.set_image(0, 5);
    set.set_image(2, 5);
    set.set_buffer_data(1, &[1, 2, 3]);
    set.set_image(9, 5);
    assert!(set.flush().is_empty());
}

#[test]
fn create_descriptor_set_writes_both_args() {
    let c = config();
    let tex = 42u64;
    let (descriptor_set, writes) =
        DescriptorSet0Args::create_descriptor_set(DynDescriptorSet::new(7, &blit_layout()), DescriptorSet0Args { src_tex: &tex, config: &c });
    assert_eq!(descriptor_set, 7);
    let writes = sorted(writes);
    assert_eq!(writes.len(), 2);
    assert!(matches!(writes[0].value, DescriptorValue::Image(42)));
    assert_eq!(writes[0].binding, 1);
    assert_eq!(writes[1].binding, 2);
}

#[test]
fn set_args_static_matches_set_args() {
    let c = config();
    let tex = 3u64;
    let mut a = DynDescriptorSet::new(1, &blit_layout());
    DescriptorSet0::set_args_static(&mut a, DescriptorSet0Args { src_tex: &tex, config: &c });
    let mut b = DescriptorSet0(DynDescriptorSet::new(1, &blit_layout()));
    b.set_args(DescriptorSet0Args { src_tex: &tex, config: &c });
    let wa = sorted(a.flush());
    let wb = sorted(b.flush());
    assert_eq!(format!("{:?}", wa), format!("{:?}", wb));
    assert_eq!(wa.len(), 2);
}

#[test]
fn create_dyn_descriptor_set_keeps_the_set() {
    let c = config();
    let tex = 3u64;
    let mut set = DescriptorSet0Args::create_dyn_descriptor_set(DynDescriptorSet::new(11, &blit_layout()), DescriptorSet0Args { src_tex: &tex, config: &c });
    assert_eq!(set.0.descriptor_set(), 11);
    assert_eq!(set.flush().len(), 2);
}

#[test]
fn write_to_writes_both_args() {
    let c = config();
    let tex = 8u64;
    let mut set = DynDescriptorSet::new(1, &blit_layout());
    DescriptorSet0Args::write_to(&mut set, DescriptorSet0Args { src_tex: &tex, config: &c });
    let writes = sorted(set.flush());
    assert_eq!(writes.len(), 2);
    assert!(matches!(writes[0].value, DescriptorValue::Image(8)));
}
