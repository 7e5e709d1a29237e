use unm::id_map::IdMap;
use unm::material::{
    is_blending_active, BlendComponent, BlendFactor, BlendOperation, CompareFunction, Material,
    MaterialDescriptor, MaterialHandle, MaterialUniforms, PolygonMode, PrimitiveTopology,
    PrimitiveType, StencilFaceState, StencilOperation, UniformError,
};
use unm::texture::Texture2DHandle;
use unm::uniform::{Uniform, UniformDef, UniformSizeMismatch};

fn f(x: f32) -> u32 {
    x.to_bits()
}

fn replace() -> BlendComponent {
    BlendComponent {
        src_factor: BlendFactor::One,
        dst_factor: BlendFactor::Zero,
        operation: BlendOperation::Add,
    }
}

fn opaque_descriptor() -> MaterialDescriptor {
    MaterialDescriptor { color_blend: replace(), alpha_blend: replace(), ..MaterialDescriptor::default() }
}

fn material(descriptor: MaterialDescriptor, defs: Option<Vec<(String, UniformDef)>>) -> Material<()> {
    let (uniforms, _) = MaterialUniforms::new(defs);
    Material { name: "m".to_string(), material_descriptor: descriptor, uniforms, resources: () }
}

#[test]
fn default_descriptor_blends_and_tests_depth() {
    let d = MaterialDescriptor::default();
    assert!(d.should_render_as_transparent());
    assert!(d.is_depth_enabled());
    assert!(!d.is_stencil_enabled());
    assert_eq!(d.primitive_type, PrimitiveType::Triangles);
    assert_eq!(d.depth_stencil.depth_compare, Some(CompareFunction::Less));
    assert_eq!(d.depth_stencil.depth_write_enabled, Some(false));
    assert_eq!(d.color_write.0, 15);
}

#[test]
fn shape_descriptors_differ_only_in_primitive() {
    let t = MaterialDescriptor::triangle();
    let l = MaterialDescriptor::lines();
    let p = MaterialDescriptor::points();
    assert_eq!(t, MaterialDescriptor::default());
    assert_eq!(l, MaterialDescriptor { primitive_type: PrimitiveType::Lines, ..t });
    assert_eq!(p, MaterialDescriptor { primitive_type: PrimitiveType::Points, ..t });
    assert_eq!(PrimitiveTopology::from(PrimitiveType::Lines), PrimitiveTopology::LineList);
    assert_eq!(PrimitiveTopology::from(PrimitiveType::Points), PrimitiveTopology::PointList);
    assert_eq!(PrimitiveTopology::from(PrimitiveType::Triangles), PrimitiveTopology::TriangleList);
    assert_eq!(PolygonMode::from(PrimitiveType::Points), PolygonMode::Point);
    assert_eq!(PolygonMode::from(PrimitiveType::Lines), PolygonMode::Fill);
}

#[test]
fn replace_blending_is_not_active() {
    assert!(!is_blending_active(&replace()));
    let add = BlendComponent { operation: BlendOperation::Max, ..replace() };
    assert!(is_blending_active(&add));
    let d = opaque_descriptor();
    assert!(!d.should_render_as_transparent());
    let half = MaterialDescriptor { alpha_blend: replace(), ..MaterialDescriptor::default() };
    assert!(half.should_render_as_transparent());
}

#[test]
fn depth_and_stencil_predicates() {
    let mut d = MaterialDescriptor::default();
    d.depth_stencil.depth_compare = Some(CompareFunction::Always);
    assert!(!d.is_depth_enabled());
    d.depth_stencil.depth_compare = None;
    assert!(!d.is_depth_enabled());
    d.depth_stencil.depth_write_enabled = Some(true);
    assert!(d.is_depth_enabled());
    d.depth_stencil.stencil.front = StencilFaceState {
        compare: CompareFunction::Equal,
        fail_op: StencilOperation::Keep,
        depth_fail_op: StencilOperation::Keep,
        pass_op: StencilOperation::Replace,
    };
    assert!(!d.is_stencil_enabled());
    d.depth_stencil.stencil.read_mask = 0xff;
    assert!(d.is_stencil_enabled());
    assert!(d.depth_stencil.stencil.is_enabled());
}

#[test]
fn new_uniforms_start_at_zero() {
    let defs = vec![("tint".to_string(), UniformDef::Vec4), ("time".to_string(), UniformDef::F32)];
    let (u, data) = MaterialUniforms::new(Some(defs));
    // "time" comes before "tint": time at 0, tint at the next 16-byte boundary
    assert_eq!(u.total_ubo_size(), 32);
    assert_eq!(data, vec![0u8; 32]);
    assert!(matches!(u.value(&"time".to_string()), Some(Uniform::F32(0))));
    assert!(matches!(u.value(&"tint".to_string()), Some(Uniform::Vec4([0, 0, 0, 0]))));
    assert!(u.value(&"other".to_string()).is_none());
    let layout = u.uniform_layout().as_ref().unwrap();
    assert_eq!(layout.get(&"time".to_string()), Some((0, 4)));
    assert_eq!(layout.get(&"tint".to_string()), Some((16, 16)));
}

#[test]
fn material_without_uniforms() {
    let (mut u, data) = MaterialUniforms::new(None);
    assert!(data.is_empty());
    assert_eq!(u.total_ubo_size(), 0);
    assert!(u.uniform_layout().is_none());
    assert_eq!(u.check_uniform(&"x".to_string()), Err(UniformError::NoUserUniforms));
    assert_eq!(u.set_uniform(&"x".to_string(), Uniform::F32(f(1.0))), Err(UniformError::NoUserUniforms));
    assert!(u.uniform_buffer_data().is_none());
}

#[test]
fn setting_uniforms_checks_the_name() {
    let defs = vec![("time".to_string(), UniformDef::F32)];
    let (mut u, _) = MaterialUniforms::new(Some(defs));
    assert_eq!(u.check_uniform(&"time".to_string()), Ok(()));
    assert_eq!(u.check_uniform(&"speed".to_string()), Err(UniformError::NotFound));
    assert_eq!(u.set_uniform(&"speed".to_string(), Uniform::F32(f(2.0))), Err(UniformError::NotFound));
    assert!(u.value(&"speed".to_string()).is_none());
    assert_eq!(u.set_uniform(&"time".to_string(), Uniform::F32(f(2.0))), Ok(()));
    assert!(matches!(u.value(&"time".to_string()), Some(Uniform::F32(b)) if b == f(2.0)));
    let data = u.uniform_buffer_data().unwrap().unwrap();
    assert_eq!(data, 2.0f32.to_ne_bytes().to_vec());
    let all = u.all_values();
    assert!(matches!(all.get(&"time".to_string()), Some(Uniform::F32(b)) if b == f(2.0)));
}

#[test]
fn buffer_data_rejects_a_value_of_another_size() {
    let defs = vec![("a".to_string(), UniformDef::F32), ("b".to_string(), UniformDef::Vec2)];
    let (mut u, _) = MaterialUniforms::new(Some(defs));
    assert_eq!(u.set_uniform(&"b".to_string(), Uniform::Vec4([f(1.0); 4])), Ok(()));
    let err = u.uniform_buffer_data().unwrap().unwrap_err();
    assert_eq!(err, UniformSizeMismatch { index: 1, expected: 8, got: 16 });
}

#[test]
fn rebuild_keeps_values_and_writes_them() {
    let defs = vec![("a".to_string(), UniformDef::Vec2)];
    let (mut u, _) = MaterialUniforms::new(Some(defs));
    u.set_uniform(&"a".to_string(), Uniform::Vec2([f(1.0), f(2.0)])).unwrap();
    let data = u.rebuild();
    let mut expected = 1.0f32.to_ne_bytes().to_vec();
    expected.extend_from_slice(&2.0f32.to_ne_bytes());
    assert_eq!(data, expected);
    assert!(matches!(u.value(&"a".to_string()), Some(Uniform::Vec2(v)) if v == [f(1.0), f(2.0)]));
    assert_eq!(u.total_ubo_size(), 8);
}

#[test]
fn rebuild_leaves_a_slot_of_another_size_zero() {
    let defs = vec![("a".to_string(), UniformDef::F32), ("b".to_string(), UniformDef::Vec2)];
    let (mut u, _) = MaterialUniforms::new(Some(defs));
    u.set_uniform(&"a".to_string(), Uniform::Vec4([f(3.0); 4])).unwrap();
    u.set_uniform(&"b".to_string(), Uniform::Vec2([f(1.0), f(1.0)])).unwrap();
    let data = u.rebuild();
    let mut expected = vec![0u8; 8];
    expected.extend_from_slice(&1.0f32.to_ne_bytes());
    expected.extend_from_slice(&1.0f32.to_ne_bytes());
    assert_eq!(data, expected);
    assert!(matches!(u.value(&"a".to_string()), Some(Uniform::Vec4(_))));
    let (mut none, _) = MaterialUniforms::new(None);
    assert!(none.rebuild().is_empty());
}

#[test]
fn handle_queries_look_up_the_material() {
    let mut materials: IdMap<Material<()>, MaterialHandle> = IdMap::new();
    let blended = materials.insert(material(MaterialDescriptor::default(), None));
    let opaque = materials.insert(material(opaque_descriptor(), None));
    let missing = MaterialHandle(99);
    assert!(blended.should_render_as_transparent(&materials));
    assert!(!opaque.should_render_as_transparent(&materials));
    assert!(!missing.should_render_as_transparent(&materials));
    assert!(blended.is_depth_enabled(&materials));
    assert!(!missing.is_depth_enabled(&materials));
    assert!(!blended.is_stencil_enabled(&materials));
    assert!(blended.get_all_uniform(&materials).is_some());
    assert!(missing.get_all_uniform(&materials).is_none());
}

#[test]
fn handle_set_uniform_and_texture_break_batching() {
    let mut materials: IdMap<Material<()>, MaterialHandle> = IdMap::new();
    let defs = vec![("time".to_string(), UniformDef::F32)];
    let h = materials.insert(material(MaterialDescriptor::default(), Some(defs)));
    let mut brk = false;
    assert_eq!(h.set_uniform(&mut materials, &mut brk, &"time".to_string(), Uniform::F32(f(5.0))), Some(Ok(())));
    assert!(brk);
    let vals = h.get_all_uniform(&materials).unwrap();
    assert!(matches!(vals.get(&"time".to_string()), Some(Uniform::F32(b)) if b == f(5.0)));
    let mut brk = false;
    assert_eq!(
        h.set_uniform(&mut materials, &mut brk, &"nope".to_string(), Uniform::F32(f(5.0))),
        Some(Err(UniformError::NotFound))
    );
    assert!(brk);
    let mut brk = false;
    assert_eq!(MaterialHandle(42).set_uniform(&mut materials, &mut brk, &"time".to_string(), Uniform::F32(0)), None);
    assert!(!brk);
    MaterialHandle(42).set_texture(&materials, &mut brk, &"tex".to_string(), Texture2DHandle(1));
    assert!(!brk);
    h.set_texture(&materials, &mut brk, &"tex".to_string(), Texture2DHandle(1));
    assert!(brk);
}
