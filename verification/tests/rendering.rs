use mdlvis::glow::{glow_texels, scale_glow_alpha, team_glow_texels, TEAM_GLOW_ALPHA};
use mdlvis::mesh::{build_mesh, mesh_fits_model, GeosetRange};
use mdlvis::model::{Bone, Face, FilterMode, Geoset, Helper, Layer, Material, Model, ShadingFlags, TexCoord, Texture, Vertex, Normal};
use mdlvis::render::{
    bind_texture, filter_mode_code, find_parent_pivot, plan_draws, skeleton_lines, DrawCall, Pass, Shading,
    SlotTexture,
};

fn bits(v: [f32; 3]) -> [u32; 3] {
    [v[0].to_bits(), v[1].to_bits(), v[2].to_bits()]
}

fn triangle_geoset(material: Option<usize>, with_normals: bool) -> Geoset {
    let mut g = Geoset::new();
    for p in [[0.0f32, 0.0, 0.0], [1.0, 0.0, 0.0], [0.0, 1.0, 0.0]] {
        g.vertices.push(Vertex { position: bits(p) });
        if with_normals {
            g.normals.push(Normal { normal: bits([0.0, 1.0, 0.0]) });
        }
    }
    g.tex_coords.push(TexCoord { uv: [1.0f32.to_bits(), 0] });
    g.faces.push(Face { vertices: [0, 1, 2] });
    g.material_id = material;
    g
}

fn layer(filter_mode: FilterMode, texture_id: Option<usize>) -> Layer {
    Layer { texture_id, filter_mode, shading_flags: Vec::new(), alpha: 1.0f32.to_bits() }
}

fn texture(replaceable_id: u32) -> Texture {
    Texture { filename: String::new(), replaceable_id, image_data: None, width: 0, height: 0 }
}

#[test]
fn shading_flags_from_and_to_bits() {
    assert_eq!(ShadingFlags::from_bits(0), Vec::<ShadingFlags>::new());
    assert_eq!(
        ShadingFlags::from_bits(0x1 | 0x10 | 0x80),
        vec![ShadingFlags::Unshaded, ShadingFlags::TwoSided, ShadingFlags::NoDepthSet]
    );
    assert_eq!(ShadingFlags::from_bits(0xffff_ffff).len(), 6);
    assert_eq!(ShadingFlags::to_bits(&[ShadingFlags::SphereEnvMap, ShadingFlags::NoDepthTest]), 0x42);
    assert_eq!(ShadingFlags::to_bits(&[]), 0);
    // Bits the format does not define are dropped on the way through.
    assert_eq!(ShadingFlags::to_bits(&ShadingFlags::from_bits(0x1ff)), 0xf3);
    assert_eq!(ShadingFlags::to_bits(&ShadingFlags::from_bits(0x33)), 0x33);
}

#[test]
fn shading_flag_names() {
    assert_eq!(ShadingFlags::Unshaded.name(), "Unshaded");
    assert_eq!(ShadingFlags::SphereEnvMap.name(), "SphereEnv");
    assert_eq!(ShadingFlags::TwoSided.name(), "TwoSided");
    assert_eq!(ShadingFlags::Unfogged.name(), "Unfogged");
    assert_eq!(ShadingFlags::NoDepthTest.name(), "NoDepthTest");
    assert_eq!(ShadingFlags::NoDepthSet.name(), "NoDepthSet");
    assert_eq!(ShadingFlags::TwoSided.bit(), 0x10);
}

#[test]
fn filter_mode_codes() {
    assert_eq!(filter_mode_code(FilterMode::Opaque), 0);
    assert_eq!(filter_mode_code(FilterMode::Transparent), 1);
    assert_eq!(filter_mode_code(FilterMode::Blend), 2);
    assert_eq!(filter_mode_code(FilterMode::Additive), 3);
    assert_eq!(filter_mode_code(FilterMode::AddAlpha), 4);
    assert_eq!(filter_mode_code(FilterMode::Modulate), 5);
    assert_eq!(filter_mode_code(FilterMode::Modulate2x), 6);
}

#[test]
fn mesh_concatenates_geosets() {
    let mut m = Model::default();
    m.geosets.push(triangle_geoset(Some(0), true));
    m.geosets.push(triangle_geoset(None, false));
    assert!(mesh_fits_model(&m));
    let mesh = build_mesh(&m).unwrap();
    assert_eq!(mesh.vertices.len(), 6);
    assert_eq!(mesh.indices, vec![0, 1, 2, 3, 4, 5]);
    assert_eq!(mesh.geosets.len(), 2);
    assert_eq!(mesh.geosets[0], GeosetRange { index_start: 0, index_count: 3, material_id: Some(0) });
    assert_eq!(mesh.geosets[1], GeosetRange { index_start: 3, index_count: 3, material_id: None });
    // A vertex without a normal points up; one without coordinates gets (0, 0).
    assert_eq!(mesh.vertices[4].normal, [0, 0, 1.0f32.to_bits()]);
    assert_eq!(mesh.vertices[1].normal, bits([0.0, 1.0, 0.0]));
    assert_eq!(mesh.vertices[0].uv, [1.0f32.to_bits(), 0]);
    assert_eq!(mesh.vertices[1].uv, [0, 0]);
    assert_eq!(mesh.vertices[4].position, bits([1.0, 0.0, 0.0]));
}

#[test]
fn mesh_of_model_without_geosets_is_none() {
    let m = Model::default();
    assert!(mesh_fits_model(&m));
    assert!(build_mesh(&m).is_none());
}

#[test]
fn mesh_indices_keep_their_low_sixteen_bits() {
    let mut m = Model::default();
    let mut g = triangle_geoset(None, false);
    g.faces[0].vertices = [70000, 1, 2];
    m.geosets.push(g);
    assert!(mesh_fits_model(&m));
    let mesh = build_mesh(&m).unwrap();
    assert_eq!(mesh.indices, vec![(70000u32 & 0xffff) as u16, 1, 2]);
}

#[test]
fn mesh_index_overflowing_32_bits_does_not_fit() {
    let mut m = Model::default();
    m.geosets.push(triangle_geoset(None, false));
    let mut g = triangle_geoset(None, false);
    g.faces[0].vertices = [u32::MAX, 0, 0];
    m.geosets.push(g);
    assert!(!mesh_fits_model(&m));
}

fn draw_scene() -> (Vec<GeosetRange>, Vec<Material>, Vec<Texture>) {
    let ranges: Vec<GeosetRange> = [Some(0), Some(1), Some(2), Some(3), None, Some(9), Some(4), Some(0)]
        .iter()
        .enumerate()
        .map(|(i, m)| GeosetRange { index_start: 3 * i as u32, index_count: 3, material_id: *m })
        .collect();
    let materials = vec![
        Material { layers: vec![layer(FilterMode::Opaque, Some(0))] },
        Material { layers: vec![layer(FilterMode::Blend, Some(1))] },
        Material { layers: vec![layer(FilterMode::Opaque, Some(2))] },
        Material { layers: vec![layer(FilterMode::Additive, None)] },
        Material { layers: Vec::new() },
    ];
    let textures = vec![texture(0), texture(1), texture(2)];
    (ranges, materials, textures)
}

#[test]
fn draws_go_to_their_passes() {
    let (ranges, materials, textures) = draw_scene();
    let show = vec![true, true, true, true, true, true, true, false];
    let plan = plan_draws(&ranges, &materials, &textures, &show, 2);
    let expected = vec![
        DrawCall { pass: Pass::Opaque, geoset: 0, texture_slot: 0, shading: Shading::Normal, filter_mode: FilterMode::Opaque, index_start: 0, index_count: 3 },
        DrawCall { pass: Pass::Opaque, geoset: 2, texture_slot: 0, shading: Shading::TeamGlow, filter_mode: FilterMode::Opaque, index_start: 6, index_count: 3 },
        DrawCall { pass: Pass::Transparent, geoset: 1, texture_slot: 1, shading: Shading::TeamColor, filter_mode: FilterMode::Blend, index_start: 3, index_count: 3 },
        DrawCall { pass: Pass::Additive, geoset: 2, texture_slot: 0, shading: Shading::TeamGlow, filter_mode: FilterMode::Opaque, index_start: 6, index_count: 3 },
        DrawCall { pass: Pass::Additive, geoset: 3, texture_slot: 0, shading: Shading::Normal, filter_mode: FilterMode::Additive, index_start: 9, index_count: 3 },
    ];
    assert_eq!(plan, expected);
}

#[test]
fn geosets_past_the_visibility_list_are_shown() {
    let (ranges, materials, textures) = draw_scene();
    let plan = plan_draws(&ranges, &materials, &textures, &[], 3);
    assert_eq!(plan.iter().filter(|d| d.geoset == 7).count(), 1);
    let hidden = plan_draws(&ranges, &materials, &textures, &[false; 8], 3);
    assert!(hidden.is_empty());
    // With three bound textures, the glow texture gets its own slot.
    assert_eq!(plan.iter().find(|d| d.geoset == 2).unwrap().texture_slot, 2);
}

#[test]
fn modulate_layers_are_not_drawn() {
    let ranges = vec![GeosetRange { index_start: 0, index_count: 3, material_id: Some(0) }];
    let materials = vec![Material { layers: vec![layer(FilterMode::Modulate, None)] }];
    assert!(plan_draws(&ranges, &materials, &[], &[], 1).is_empty());
}

fn skeleton_model() -> Model {
    let mut m = Model::default();
    let mut root = Bone::default();
    root.object_id = 5;
    root.pivot_point = bits([1.0, 2.0, 3.0]);
    let mut arm = Bone::default();
    arm.object_id = 6;
    arm.parent_id = 7;
    arm.pivot_point = bits([4.0, 5.0, 6.0]);
    let mut orphan = Bone::default();
    orphan.object_id = 8;
    orphan.parent_id = 42;
    m.bones = vec![root, arm, orphan];
    let mut helper = Helper::default();
    helper.object_id = 7;
    helper.parent_id = 5;
    helper.pivot_point = bits([0.0, 0.0, 9.0]);
    m.helpers = vec![helper];
    m
}

#[test]
fn skeleton_lines_join_nodes_to_their_parents() {
    let m = skeleton_model();
    let lines = skeleton_lines(&m);
    assert_eq!(lines.len(), 2);
    assert_eq!(lines[0].from, bits([0.0, 0.0, 9.0]));
    assert_eq!(lines[0].to, bits([4.0, 5.0, 6.0]));
    assert!(!lines[0].helper);
    assert_eq!(lines[1].from, bits([1.0, 2.0, 3.0]));
    assert_eq!(lines[1].to, bits([0.0, 0.0, 9.0]));
    assert!(lines[1].helper);
}

#[test]
fn parent_pivot_prefers_bones_and_the_first_match() {
    let mut m = skeleton_model();
    let mut twin = Helper::default();
    twin.object_id = 5;
    twin.pivot_point = bits([9.0, 9.0, 9.0]);
    m.helpers.push(twin);
    let mut second = Bone::default();
    second.object_id = 5;
    second.pivot_point = bits([8.0, 8.0, 8.0]);
    m.bones.push(second);
    assert_eq!(find_parent_pivot(&m, 5), Some(bits([1.0, 2.0, 3.0])));
    assert_eq!(find_parent_pivot(&m, -1), None);
    assert_eq!(find_parent_pivot(&m, 1000), None);
}

#[test]
fn glow_alpha_is_scaled_to_a_byte() {
    assert_eq!(scale_glow_alpha(0), 0);
    assert_eq!(scale_glow_alpha(127), 255);
    assert_eq!(scale_glow_alpha(64), 128);
    assert_eq!(scale_glow_alpha(1), 2);
    assert_eq!(scale_glow_alpha(200), 255);
    for a in 0..=255u8 {
        let float = (a as f32 / 127.0 * 255.0) as u8;
        assert_eq!(scale_glow_alpha(a), float);
    }
}

#[test]
fn team_glow_texture_texels() {
    let pre = team_glow_texels(true);
    assert_eq!(pre.len(), 32 * 32 * 4);
    let peak = TEAM_GLOW_ALPHA.iter().position(|&a| a == 127).unwrap();
    assert_eq!(&pre[4 * peak..4 * peak + 4], &[255, 255, 255, 255]);
    assert_eq!(&pre[0..4], &[2, 2, 2, 2]);
    let white = team_glow_texels(false);
    assert_eq!(&white[0..4], &[255, 255, 255, 2]);
    assert_eq!(&white[4 * 8..4 * 8 + 4], &[255, 255, 255, 0]);
    assert_eq!(glow_texels(&[10, 127], true), vec![20, 20, 20, 20, 255, 255, 255, 255]);
}

#[test]
fn binding_a_texture_fills_missing_slots_with_white() {
    let mut slots = vec![SlotTexture::White];
    bind_texture(&mut slots, 3, 64, 32);
    assert_eq!(
        slots,
        vec![SlotTexture::White, SlotTexture::White, SlotTexture::White, SlotTexture::Loaded { width: 64, height: 32 }]
    );
    bind_texture(&mut slots, 0, 8, 8);
    assert_eq!(slots[0], SlotTexture::Loaded { width: 8, height: 8 });
    assert_eq!(slots.len(), 4);
}

#[test]
fn each_range_draws_its_own_triangles() {
    let mut m = Model::default();
    m.geosets.push(triangle_geoset(None, false));
    let mut g = triangle_geoset(None, false);
    g.vertices[2].position = bits([7.0, 7.0, 7.0]);
    g.faces[0].vertices = [2, 0, 1];
    m.geosets.push(g);
    let mesh = build_mesh(&m).unwrap();
    let r = mesh.geosets[1];
    let first = mesh.indices[r.index_start as usize] as usize;
    assert_eq!(mesh.vertices[first].position, bits([7.0, 7.0, 7.0]));
    assert_eq!(mesh.indices[3..6].to_vec(), vec![5, 3, 4]);
}

#[test]
fn bits_of_concatenated_flags_are_ored() {
    let a = [ShadingFlags::Unshaded, ShadingFlags::TwoSided];
    let b = [ShadingFlags::NoDepthSet];
    let both: Vec<ShadingFlags> = a.iter().chain(b.iter()).copied().collect();
    assert_eq!(ShadingFlags::to_bits(&both), ShadingFlags::to_bits(&a) | ShadingFlags::to_bits(&b));
    assert_eq!(ShadingFlags::to_bits(&both), 0x91);
}

#[test]
fn viewport_takes_only_sizes_without_a_zero_side() {
    let mut size = [800u32, 600];
    assert!(!mdlvis::render::resize_viewport(&mut size, 0, 300));
    assert_eq!(size, [800, 600]);
    assert!(!mdlvis::render::resize_viewport(&mut size, 1024, 0));
    assert_eq!(size, [800, 600]);
    assert!(mdlvis::render::resize_viewport(&mut size, 1024, 768));
    assert_eq!(size, [1024, 768]);
}
