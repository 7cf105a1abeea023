use mdlvis::error::MdlError;
use mdlvis::mdx::parse_mdx;
use mdlvis::model::{FilterMode, ShadingFlags};
use mdlvis::parser::load_mdl;
use mdlvis::bytes::ParseFail;

fn u32le(out: &mut Vec<u8>, v: u32) {
    out.extend_from_slice(&v.to_le_bytes());
}

fn i32le(out: &mut Vec<u8>, v: i32) {
    out.extend_from_slice(&v.to_le_bytes());
}

fn f32le(out: &mut Vec<u8>, v: f32) {
    out.extend_from_slice(&v.to_bits().to_le_bytes());
}

fn tag(out: &mut Vec<u8>, t: &[u8; 4]) {
    out.extend_from_slice(t);
}

fn text(out: &mut Vec<u8>, s: &str, width: usize) {
    let mut field = vec![0u8; width];
    field[..s.len()].copy_from_slice(s.as_bytes());
    out.extend_from_slice(&field);
}

fn chunk(out: &mut Vec<u8>, t: &[u8; 4], body: &[u8]) {
    tag(out, t);
    u32le(out, body.len() as u32);
    out.extend_from_slice(body);
}

fn node(name: &str, object_id: u32, parent: i32, controllers: &[u8]) -> Vec<u8> {
    let mut n = Vec::new();
    u32le(&mut n, (96 + controllers.len()) as u32);
    text(&mut n, name, 80);
    u32le(&mut n, object_id);
    i32le(&mut n, parent);
    u32le(&mut n, 0);
    n.extend_from_slice(controllers);
    n
}

fn geoset_body() -> Vec<u8> {
    let mut g = Vec::new();
    tag(&mut g, b"VRTX");
    u32le(&mut g, 3);
    for v in [[0.0f32, 0.0, 0.0], [1.0, 0.0, 0.0], [0.0, 1.0, 0.0]] {
        for c in v {
            f32le(&mut g, c);
        }
    }
    tag(&mut g, b"NRMS");
    u32le(&mut g, 3);
    for _ in 0..3 {
        f32le(&mut g, 0.0);
        f32le(&mut g, 0.0);
        f32le(&mut g, 1.0);
    }
    tag(&mut g, b"PTYP");
    u32le(&mut g, 1);
    u32le(&mut g, 4);
    tag(&mut g, b"PCNT");
    u32le(&mut g, 1);
    u32le(&mut g, 3);
    tag(&mut g, b"PVTX");
    u32le(&mut g, 3);
    for i in [0u16, 1, 2] {
        g.extend_from_slice(&i.to_le_bytes());
    }
    tag(&mut g, b"GNDX");
    u32le(&mut g, 3);
    g.extend_from_slice(&[0, 0, 0]);
    tag(&mut g, b"MTGC");
    u32le(&mut g, 1);
    u32le(&mut g, 1);
    tag(&mut g, b"MATS");
    u32le(&mut g, 1);
    u32le(&mut g, 7);
    u32le(&mut g, 0);
    u32le(&mut g, 2);
    u32le(&mut g, 4);
    f32le(&mut g, 1.5);
    for c in [-1.0f32, -2.0, -3.0, 1.0, 2.0, 3.0] {
        f32le(&mut g, c);
    }
    u32le(&mut g, 0);
    tag(&mut g, b"UVAS");
    u32le(&mut g, 1);
    tag(&mut g, b"UVBS");
    u32le(&mut g, 3);
    for uv in [[0.0f32, 0.0], [1.0, 0.0], [0.0, 1.0]] {
        f32le(&mut g, uv[0]);
        f32le(&mut g, uv[1]);
    }
    let mut out = Vec::new();
    u32le(&mut out, (g.len() + 4) as u32);
    out.extend_from_slice(&g);
    out
}

/// A small model: version, name, one sequence, one texture, one geoset,
/// one bone with a translation track, one helper, their pivots and one
/// material.
fn footman() -> Vec<u8> {
    let mut f = Vec::new();
    tag(&mut f, b"MDLX");
    let mut vers = Vec::new();
    u32le(&mut vers, 800);
    chunk(&mut f, b"VERS", &vers);
    let mut modl = vec![0u8; 8];
    text(&mut modl, "Footman", 336);
    chunk(&mut f, b"MODL", &modl);
    let mut seqs = Vec::new();
    text(&mut seqs, "Stand ", 80);
    u32le(&mut seqs, 100);
    u32le(&mut seqs, 933);
    f32le(&mut seqs, 0.0);
    u32le(&mut seqs, 1);
    f32le(&mut seqs, 2.75);
    seqs.extend_from_slice(&[0u8; 32]);
    chunk(&mut f, b"SEQS", &seqs);
    let mut texs = Vec::new();
    u32le(&mut texs, 0);
    text(&mut texs, "Textures\\Footman.blp", 256);
    u32le(&mut texs, 0);
    u32le(&mut texs, 0);
    chunk(&mut f, b"TEXS", &texs);
    chunk(&mut f, b"GEOS", &geoset_body());
    let mut track = Vec::new();
    tag(&mut track, b"KGTR");
    u32le(&mut track, 2);
    u32le(&mut track, 1);
    i32le(&mut track, -1);
    i32le(&mut track, 0);
    for c in [0.0f32, 0.0, 0.0] {
        f32le(&mut track, c);
    }
    i32le(&mut track, 100);
    for c in [0.0f32, 0.0, 10.0] {
        f32le(&mut track, c);
    }
    let mut bone = node("Root", 0, -1, &track);
    i32le(&mut bone, -1);
    i32le(&mut bone, -1);
    chunk(&mut f, b"BONE", &bone);
    chunk(&mut f, b"HELP", &node("Helper01", 1, 0, &[]));
    let mut pivots = Vec::new();
    for c in [1.0f32, 2.0, 3.0, 4.0, 5.0, 6.0] {
        f32le(&mut pivots, c);
    }
    chunk(&mut f, b"PIVT", &pivots);
    let mut mtls = Vec::new();
    u32le(&mut mtls, 48);
    u32le(&mut mtls, 0);
    u32le(&mut mtls, 0);
    tag(&mut mtls, b"LAYS");
    u32le(&mut mtls, 1);
    u32le(&mut mtls, 28);
    u32le(&mut mtls, 2);
    u32le(&mut mtls, 0x11);
    u32le(&mut mtls, 0);
    u32le(&mut mtls, 0xffff_ffff);
    u32le(&mut mtls, 0);
    f32le(&mut mtls, 1.0);
    chunk(&mut f, b"MTLS", &mtls);
    f
}

#[test]
fn short_file_is_an_io_error() {
    match load_mdl(b"MD") {
        Err(MdlError::Io(m)) => assert_eq!(m, "failed to fill whole buffer"),
        other => panic!("unexpected {:?}", other),
    }
}

#[test]
fn text_file_gives_placeholder_model() {
    let m = load_mdl(b"Version {\n\tFormatVersion 800,\n}\n").unwrap();
    assert_eq!(m.name, "Text Model");
    assert_eq!(m.geosets.len(), 1);
    assert!(m.geosets[0].vertices.is_empty());
    assert_eq!(m.geosets[0].material_id, None);
    assert!(m.bones.is_empty());
    assert!(m.textures.is_empty());
}

#[test]
fn binary_garbage_that_is_not_utf8_is_an_io_error() {
    match load_mdl(&[0xff, 0xfe, 0x00, 0x01, 0x02]) {
        Err(MdlError::Io(m)) => assert_eq!(m, "stream did not contain valid UTF-8"),
        other => panic!("unexpected {:?}", other),
    }
}

#[test]
fn magic_alone_gives_empty_binary_model() {
    let m = load_mdl(b"MDLX").unwrap();
    assert_eq!(m.name, "MDX Model");
    assert!(m.geosets.is_empty());
    assert!(m.sequences.is_empty());
}

#[test]
fn reads_a_whole_model() {
    let m = load_mdl(&footman()).unwrap();
    assert_eq!(m.name, "Footman");

    assert_eq!(m.sequences.len(), 1);
    assert_eq!(m.sequences[0].name, "Stand");
    assert_eq!(m.sequences[0].start_frame, 100);
    assert_eq!(m.sequences[0].end_frame, 933);
    assert_eq!(m.sequences[0].rarity, Some(2));
    assert!(m.sequences[0].non_looping);

    assert_eq!(m.textures.len(), 1);
    assert_eq!(m.textures[0].filename, "Textures\\Footman.blp");
    assert_eq!(m.textures[0].replaceable_id, 0);

    assert_eq!(m.geosets.len(), 1);
    let g = &m.geosets[0];
    assert_eq!(g.vertices.len(), 3);
    assert_eq!(g.vertices[1].position, [1.0f32.to_bits(), 0, 0]);
    assert_eq!(g.normals.len(), 3);
    assert_eq!(g.normals[2].normal, [0, 0, 1.0f32.to_bits()]);
    assert_eq!(g.tex_coords.len(), 3);
    assert_eq!(g.tex_coords[2].uv, [0, 1.0f32.to_bits()]);
    assert_eq!(g.faces.len(), 1);
    assert_eq!(g.faces[0].vertices, [0, 1, 2]);
    assert_eq!(g.vertex_groups, vec![0, 0, 0]);
    assert_eq!(g.matrix_groups, vec![vec![7]]);
    assert_eq!(g.material_id, Some(0));
    assert_eq!(g.selection_group, 2);
    assert!(g.unselectable);
    assert_eq!(g.bounds_radius, 1.5f32.to_bits());
    assert_eq!(g.minimum_extent, [(-1.0f32).to_bits(), (-2.0f32).to_bits(), (-3.0f32).to_bits()]);
    assert_eq!(g.maximum_extent, [1.0f32.to_bits(), 2.0f32.to_bits(), 3.0f32.to_bits()]);

    assert_eq!(m.bones.len(), 1);
    let b = &m.bones[0];
    assert_eq!(b.name, "Root");
    assert_eq!(b.object_id, 0);
    assert_eq!(b.parent_id, -1);
    assert_eq!(b.pivot_point, [1.0f32.to_bits(), 2.0f32.to_bits(), 3.0f32.to_bits()]);
    assert_eq!(b.translation_idx, 0);
    assert_eq!(b.rotation_idx, -1);
    assert_eq!(b.scaling_idx, -1);
    assert_eq!(b.visibility_idx, -1);
    assert_eq!(b.geoset_id, None);
    assert_eq!(b.geoset_anim_id, None);

    assert_eq!(m.controllers.len(), 1);
    let c = &m.controllers[0];
    assert_eq!(c.interpolation_type, 1);
    assert_eq!(c.global_seq_id, -1);
    assert_eq!(c.keyframes.len(), 2);
    assert_eq!(c.keyframes[1].frame, 100);
    assert_eq!(c.keyframes[1].data, vec![0, 0, 10.0f32.to_bits()]);
    assert!(c.keyframes[1].in_tan.is_empty());

    assert_eq!(m.helpers.len(), 1);
    let h = &m.helpers[0];
    assert_eq!(h.name, "Helper01");
    assert_eq!(h.object_id, 1);
    assert_eq!(h.parent_id, 0);
    assert_eq!(h.pivot_point, [4.0f32.to_bits(), 5.0f32.to_bits(), 6.0f32.to_bits()]);

    assert_eq!(m.materials.len(), 1);
    let l = &m.materials[0].layers[0];
    assert_eq!(m.materials[0].layers.len(), 1);
    assert_eq!(l.texture_id, Some(0));
    assert_eq!(l.filter_mode, FilterMode::Transparent);
    assert_eq!(l.shading_flags, vec![ShadingFlags::Unshaded, ShadingFlags::TwoSided]);
    assert_eq!(l.alpha, 1.0f32.to_bits());
}

#[test]
fn parse_mdx_agrees_with_load_mdl() {
    let bytes = footman();
    let a = parse_mdx(&bytes).unwrap();
    let b = load_mdl(&bytes).unwrap();
    assert_eq!(a.name, b.name);
    assert_eq!(a.geosets.len(), b.geosets.len());
    assert_eq!(a.bones.len(), b.bones.len());
}

#[test]
fn unknown_chunks_are_skipped() {
    let mut f = Vec::new();
    tag(&mut f, b"MDLX");
    chunk(&mut f, b"ATCH", &[1, 2, 3, 4, 5]);
    let mut modl = vec![0u8; 8];
    text(&mut modl, "After", 336);
    chunk(&mut f, b"MODL", &modl);
    let m = load_mdl(&f).unwrap();
    assert_eq!(m.name, "After");
}

#[test]
fn truncated_chunk_header_is_an_io_error() {
    let mut f = Vec::new();
    tag(&mut f, b"MDLX");
    tag(&mut f, b"VERS");
    f.extend_from_slice(&[1, 0]);
    match load_mdl(&f) {
        Err(MdlError::Io(m)) => assert_eq!(m, "failed to fill whole buffer"),
        other => panic!("unexpected {:?}", other),
    }
    assert_eq!(parse_mdx(&f).err(), Some(ParseFail::Truncated));
}

#[test]
fn truncated_model_name_is_an_io_error() {
    let mut f = Vec::new();
    tag(&mut f, b"MDLX");
    chunk(&mut f, b"MODL", &[0u8; 20]);
    assert!(matches!(load_mdl(&f), Err(MdlError::Io(_))));
}

#[test]
fn helper_record_of_zero_size_is_refused() {
    let mut f = Vec::new();
    tag(&mut f, b"MDLX");
    let mut help = Vec::new();
    u32le(&mut help, 0);
    help.extend_from_slice(&[0u8; 100]);
    chunk(&mut f, b"HELP", &help);
    match load_mdl(&f) {
        Err(MdlError::InvalidFormat(m)) => assert_eq!(m, "record of zero size"),
        other => panic!("unexpected {:?}", other),
    }
    assert_eq!(parse_mdx(&f).err(), Some(ParseFail::Stalled));
}

#[test]
fn geoset_without_vertices_is_dropped() {
    let mut g = Vec::new();
    u32le(&mut g, 12);
    tag(&mut g, b"PVTX");
    u32le(&mut g, 0);
    let mut f = Vec::new();
    tag(&mut f, b"MDLX");
    chunk(&mut f, b"GEOS", &g);
    let m = load_mdl(&f).unwrap();
    assert!(m.geosets.is_empty());
}

#[test]
fn pivots_beyond_the_nodes_are_ignored() {
    let mut f = Vec::new();
    tag(&mut f, b"MDLX");
    chunk(&mut f, b"HELP", &node("H", 3, -1, &[]));
    let mut pivots = Vec::new();
    for c in [7.0f32, 8.0, 9.0, 1.0, 1.0, 1.0] {
        f32le(&mut pivots, c);
    }
    chunk(&mut f, b"PIVT", &pivots);
    let m = load_mdl(&f).unwrap();
    assert_eq!(m.helpers.len(), 1);
    assert_eq!(m.helpers[0].pivot_point, [7.0f32.to_bits(), 8.0f32.to_bits(), 9.0f32.to_bits()]);
}

#[test]
fn error_descriptions_name_their_kind() {
    assert_eq!(MdlError::Io("x".to_string()).describe(), "IO error: x");
    assert_eq!(MdlError::Parse("y".to_string()).describe(), "Parse error: y");
    assert_eq!(MdlError::TextureDecode("z".to_string()).describe(), "Texture decode error: z");
    assert_eq!(MdlError::Network("n".to_string()).describe(), "Network error: n");
    assert_eq!(MdlError::NotFound("f".to_string()).describe(), "Not found: f");
    assert_eq!(MdlError::InvalidFormat("v".to_string()).describe(), "Invalid format: v");
    assert!(matches!(MdlError::from("bad".to_string()), MdlError::Parse(ref m) if m == "bad"));
}

#[test]
fn parse_failures_map_to_errors() {
    assert!(matches!(MdlError::from_parse_fail(ParseFail::Truncated), MdlError::Io(ref m) if m == "failed to fill whole buffer"));
    assert!(matches!(MdlError::from_parse_fail(ParseFail::SizeOverflow), MdlError::InvalidFormat(ref m) if m == "size overflow"));
    assert!(matches!(MdlError::from_parse_fail(ParseFail::Stalled), MdlError::InvalidFormat(ref m) if m == "record of zero size"));
}

#[test]
fn model_name_that_is_not_utf8_reads_unknown() {
    let mut f = Vec::new();
    tag(&mut f, b"MDLX");
    let mut modl = vec![0u8; 8];
    modl.extend_from_slice(&[0xff, 0xfe, b'A']);
    modl.extend_from_slice(&[0u8; 333]);
    chunk(&mut f, b"MODL", &modl);
    assert_eq!(load_mdl(&f).unwrap().name, "Unknown");
}

#[test]
fn primitive_count_overflowing_32_bits_is_refused() {
    let mut g = Vec::new();
    u32le(&mut g, 12);
    tag(&mut g, b"PTYP");
    u32le(&mut g, 0x4000_0000);
    let mut f = Vec::new();
    tag(&mut f, b"MDLX");
    chunk(&mut f, b"GEOS", &g);
    match load_mdl(&f) {
        Err(MdlError::InvalidFormat(m)) => assert_eq!(m, "size overflow"),
        other => panic!("unexpected {:?}", other),
    }
    assert_eq!(parse_mdx(&f).err(), Some(ParseFail::SizeOverflow));
}
