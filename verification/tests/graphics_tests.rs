use unm::graphics::{
    active_render_target, batch_fits, compare_render_commands, geometry, msaa_change, resize_needed,
    set_material, DrawCall, DrawOrder, RenderCommand,
};
use unm::id_map::IdMap;
use unm::material::{
    BlendComponent, BlendFactor, BlendOperation, Material, MaterialDescriptor, MaterialHandle,
    MaterialUniforms,
};
use unm::msaa::Msaa;
use unm::render_target::RenderTargetHandle;
use unm::uniform::{Uniform, UniformDef};

fn replace() -> BlendComponent {
    BlendComponent {
        src_factor: BlendFactor::One,
        dst_factor: BlendFactor::Zero,
        operation: BlendOperation::Add,
    }
}

fn registry() -> (IdMap<Material<()>, MaterialHandle>, MaterialHandle, MaterialHandle) {
    let mut materials: IdMap<Material<()>, MaterialHandle> = IdMap::new();
    let (u1, _) = MaterialUniforms::new(None);
    let transparent = materials.insert(Material {
        name: "sprite".to_string(),
        material_descriptor: MaterialDescriptor::default(),
        uniforms: u1,
        resources: (),
    });
    let (u2, _) = MaterialUniforms::new(None);
    let opaque = materials.insert(Material {
        name: "solid".to_string(),
        material_descriptor: MaterialDescriptor {
            color_blend: replace(),
            alpha_blend: replace(),
            ..MaterialDescriptor::default()
        },
        uniforms: u2,
        resources: (),
    });
    (materials, transparent, opaque)
}

fn cmd(id: u32, n_vertices: u32, indices: &[u32], mat: u64, rt: u64) -> RenderCommand<u32> {
    RenderCommand {
        id,
        vertices: (0..n_vertices).map(|v| v + 100 * id).collect(),
        indices: indices.to_vec(),
        mat_handle: MaterialHandle(mat),
        uniforms: None,
        render_target: RenderTargetHandle(rt),
        render_queue: 0,
        depth_bits: 0,
    }
}

#[test]
fn set_material_breaks_batching_only_on_change() {
    let mut current = None;
    let mut brk = false;
    set_material(&mut current, &mut brk, MaterialHandle(1));
    assert_eq!(current, Some(MaterialHandle(1)));
    assert!(brk);
    let mut brk = false;
    set_material(&mut current, &mut brk, MaterialHandle(1));
    assert!(!brk);
    set_material(&mut current, &mut brk, MaterialHandle(2));
    assert!(brk);
    assert_eq!(current, Some(MaterialHandle(2)));
}

#[test]
fn frame_state_helpers() {
    let default_rt = RenderTargetHandle(1);
    assert_eq!(active_render_target(None, default_rt), default_rt);
    assert_eq!(active_render_target(Some(RenderTargetHandle(5)), default_rt), RenderTargetHandle(5));
    assert!(!resize_needed((800, 600), (800, 600)));
    assert!(!resize_needed((800, 600), (0, 600)));
    assert!(!resize_needed((800, 600), (800, 0)));
    assert!(resize_needed((800, 600), (1024, 600)));
    assert_eq!(msaa_change(Msaa::Sample4, None), None);
    assert_eq!(msaa_change(Msaa::Sample4, Some(Msaa::Sample4)), None);
    assert_eq!(msaa_change(Msaa::Sample4, Some(Msaa::Off)), Some(Msaa::Off));
}

#[test]
fn render_command_takes_material_uniforms() {
    let mut materials: IdMap<Material<()>, MaterialHandle> = IdMap::new();
    let (u, _) = MaterialUniforms::new(Some(vec![("t".to_string(), UniformDef::F32)]));
    let h = materials.insert(Material {
        name: "m".to_string(),
        material_descriptor: MaterialDescriptor::default(),
        uniforms: u,
        resources: (),
    });
    let c = RenderCommand::new(3, &[1u32, 2, 3], &[0, 1, 2], h, RenderTargetHandle(1), 7, 0, &materials);
    assert_eq!(c.id, 3);
    assert_eq!(c.vertices, vec![1, 2, 3]);
    assert_eq!(c.indices, vec![0, 1, 2]);
    assert_eq!(c.render_queue, 7);
    let vals = c.uniforms.unwrap();
    assert!(matches!(vals.get(&"t".to_string()), Some(Uniform::F32(0))));
    let c = RenderCommand::new(4, &[1u32], &[0], MaterialHandle(77), RenderTargetHandle(1), 0, 0, &materials);
    assert!(c.uniforms.is_none());
    let d = DrawCall::new(c);
    assert_eq!(d.vertices_count, 0);
    assert_eq!(d.mat_handle, MaterialHandle(77));
}

#[test]
fn geometry_batches_compatible_draws() {
    let cmds = vec![
        cmd(0, 3, &[0, 1, 2], 1, 1),
        cmd(1, 3, &[0, 1, 2], 1, 1),
        cmd(2, 1, &[0], 1, 1),
        cmd(3, 2, &[0, 1], 2, 1),
    ];
    let mut vb: Vec<u32> = Vec::new();
    let mut ib: Vec<u32> = Vec::new();
    let mut dcs: Vec<DrawCall> = Vec::new();
    geometry(&cmds, 4, 6, &mut vb, &mut ib, &mut dcs);
    assert_eq!(vb, vec![0, 1, 2, 100, 101, 102, 200, 300, 301]);
    assert_eq!(ib, vec![0, 1, 2, 3, 4, 5, 6, 7, 8]);
    assert_eq!(dcs.len(), 3);
    let got: Vec<(usize, usize, usize, usize, u64)> = dcs
        .iter()
        .map(|d| (d.vertices_start, d.indices_start, d.vertices_count, d.indices_count, d.mat_handle.0))
        .collect();
    assert_eq!(got, vec![(0, 0, 3, 3, 1), (3, 3, 4, 4, 1), (7, 7, 2, 2, 2)]);
}

#[test]
fn geometry_truncates_and_splits_by_target() {
    let cmds = vec![cmd(0, 6, &[0, 1, 2, 3, 4, 5, 0, 1], 1, 1), cmd(1, 1, &[0], 1, 2)];
    let mut vb: Vec<u32> = vec![9, 9];
    let mut ib: Vec<u32> = vec![];
    let mut dcs: Vec<DrawCall> = Vec::new();
    geometry(&cmds, 4, 6, &mut vb, &mut ib, &mut dcs);
    assert_eq!(vb, vec![9, 9, 0, 1, 2, 3, 100]);
    assert_eq!(ib, vec![2, 3, 4, 5, 6, 7, 6]);
    let got: Vec<(usize, usize, usize, usize, u64)> = dcs
        .iter()
        .map(|d| (d.vertices_start, d.indices_start, d.vertices_count, d.indices_count, d.render_target.0))
        .collect();
    assert_eq!(got, vec![(2, 0, 4, 6, 1), (6, 6, 1, 1, 2)]);
}

#[test]
fn geometry_with_no_draws_adds_nothing() {
    let cmds: Vec<RenderCommand<u32>> = Vec::new();
    let mut vb: Vec<u32> = Vec::new();
    let mut ib: Vec<u32> = Vec::new();
    let mut dcs: Vec<DrawCall> = Vec::new();
    geometry(&cmds, 4, 6, &mut vb, &mut ib, &mut dcs);
    assert!(vb.is_empty() && ib.is_empty() && dcs.is_empty());
}

#[test]
fn draws_sort_by_target_queue_transparency_depth_material_id() {
    let (materials, transparent, opaque) = registry();
    let mut a = cmd(1, 1, &[0], opaque.0, 1);
    let mut b = cmd(2, 1, &[0], opaque.0, 2);
    assert_eq!(compare_render_commands(&a, &b, DrawOrder::Greater, &materials), DrawOrder::Less);
    b.render_target = RenderTargetHandle(1);
    a.render_queue = 5;
    b.render_queue = 3;
    assert_eq!(compare_render_commands(&a, &b, DrawOrder::Less, &materials), DrawOrder::Greater);
    b.render_queue = 5;
    // two opaque draws: near to far
    assert_eq!(compare_render_commands(&a, &b, DrawOrder::Less, &materials), DrawOrder::Less);
    // two transparent draws: far to near
    a.mat_handle = transparent;
    b.mat_handle = transparent;
    assert_eq!(compare_render_commands(&a, &b, DrawOrder::Less, &materials), DrawOrder::Greater);
    // opaque before transparent, whatever the depths
    b.mat_handle = opaque;
    assert_eq!(compare_render_commands(&a, &b, DrawOrder::Less, &materials), DrawOrder::Greater);
    assert_eq!(compare_render_commands(&b, &a, DrawOrder::Greater, &materials), DrawOrder::Less);
    // equal depths: by material, then by id
    a.mat_handle = opaque;
    assert_eq!(compare_render_commands(&a, &b, DrawOrder::Equal, &materials), DrawOrder::Less);
    assert_eq!(compare_render_commands(&b, &a, DrawOrder::Equal, &materials), DrawOrder::Greater);
    assert_eq!(compare_render_commands(&a, &a, DrawOrder::Equal, &materials), DrawOrder::Equal);
}

#[test]
fn batch_fits_checks_index_overflow() {
    let cmds = vec![cmd(0, 3, &[0, 1, 2], 1, 1), cmd(1, 3, &[0, 1, 2], 1, 1)];
    assert!(batch_fits(&cmds, 0, 0, 4, 6));
    // six vertices after the base must keep every moved index within 32 bits
    assert!(!batch_fits(&cmds, 0xffff_fffa, 0, 4, 6));
    assert!(batch_fits(&cmds, 0xffff_fff9, 0, 4, 6));
    assert!(!batch_fits(&cmds, 0, usize::MAX - 5, 4, 6));
    assert!(batch_fits(&cmds, 0, usize::MAX - 6, 4, 6));
}
