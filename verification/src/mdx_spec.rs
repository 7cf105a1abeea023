//! What reading an MDX file yields: the chunk layout of the binary Warcraft III
//! model format, stated over the file's bytes.
//!
//! Positions are integers that may lie beyond the end of the data (the reader
//! can skip past it); any field that reaches beyond the end makes the whole
//! read fail with `Truncated`.
use crate::bytes::{
    field_text, fits, float_bits_to_u32, i32_at, trim_ws, u16_at, u32_at, ParseFail,
};
use crate::model::{
    empty_geoset, empty_model, flags_of_bits, Face, FilterMode, Normal, SpecBone, SpecController,
    SpecGeoset, SpecHelper, SpecKeyframe, SpecLayer, SpecModel, SpecSequence, SpecTexture, TexCoord,
    Vertex,
};
use vstd::prelude::*;

verus! {

pub open spec fn TAG_MDLX() -> u32 {
    0x584c444d
}

pub open spec fn TAG_VERS() -> u32 {
    0x53524556
}

pub open spec fn TAG_MODL() -> u32 {
    0x4c444f4d
}

pub open spec fn TAG_GEOS() -> u32 {
    0x534f4547
}

pub open spec fn TAG_SEQS() -> u32 {
    0x53514553
}

pub open spec fn TAG_TEXS() -> u32 {
    0x53584554
}

pub open spec fn TAG_BONE() -> u32 {
    0x454e4f42
}

pub open spec fn TAG_HELP() -> u32 {
    0x504c4548
}

pub open spec fn TAG_PIVT() -> u32 {
    0x54564950
}

pub open spec fn TAG_MTLS() -> u32 {
    0x534c544d
}

pub open spec fn TAG_VRTX() -> u32 {
    0x58545256
}

pub open spec fn TAG_NRMS() -> u32 {
    0x534d524e
}

pub open spec fn TAG_PTYP() -> u32 {
    0x50595450
}

pub open spec fn TAG_PCNT() -> u32 {
    0x544e4350
}

pub open spec fn TAG_PVTX() -> u32 {
    0x58545650
}

pub open spec fn TAG_GNDX() -> u32 {
    0x58444e47
}

pub open spec fn TAG_MTGC() -> u32 {
    0x4347544d
}

pub open spec fn TAG_MATS() -> u32 {
    0x5354414d
}

pub open spec fn TAG_UVAS() -> u32 {
    0x53415655
}

pub open spec fn TAG_UVBS() -> u32 {
    0x53425655
}

pub open spec fn TAG_LAYS() -> u32 {
    0x5359414c
}

pub open spec fn TAG_KGTR() -> u32 {
    0x5254474b
}

pub open spec fn TAG_KGRT() -> u32 {
    0x5452474b
}

pub open spec fn TAG_KGSC() -> u32 {
    0x4353474b
}

pub open spec fn TAG_KLAV() -> u32 {
    0x56414c4b
}

/// Inputs no longer than `isize::MAX` bytes, the most a slice can hold:
/// every reading position then fits in 64 bits.
pub open spec fn len_ok(s: Seq<u8>) -> bool {
    s.len() <= 0x7fff_ffff_ffff_ffff
}

/// A reading position: reading never moves more than `2^34` bytes past the end.
pub open spec fn pos_ok(s: Seq<u8>, p: int) -> bool {
    0 <= p <= s.len() + 0x4_0000_0000
}

/// The distance from `p` up to `end`, or zero past it.
pub open spec fn room(p: int, end: int) -> nat {
    if p < end {
        (end - p) as nat
    } else {
        0
    }
}

/// The `n` little-endian `u32` values stored one after another at `p`.
pub open spec fn u32s_at(s: Seq<u8>, p: int, n: nat) -> Seq<u32> {
    Seq::new(n, |i: int| u32_at(s, p + 4 * i))
}

/// Three consecutive `u32` values at `p`.
pub open spec fn triple_at(s: Seq<u8>, p: int) -> [u32; 3] {
    [u32_at(s, p), u32_at(s, p + 4), u32_at(s, p + 8)]
}

/// `n` vertices stored one after another at `p`.
pub open spec fn vertices_at(s: Seq<u8>, p: int, n: nat) -> Seq<Vertex> {
    Seq::new(n, |i: int| Vertex { position: triple_at(s, p + 12 * i) })
}

/// `n` normals stored one after another at `p`.
pub open spec fn normals_at(s: Seq<u8>, p: int, n: nat) -> Seq<Normal> {
    Seq::new(n, |i: int| Normal { normal: triple_at(s, p + 12 * i) })
}

/// `n` texture coordinates stored one after another at `p`.
pub open spec fn tex_coords_at(s: Seq<u8>, p: int, n: nat) -> Seq<TexCoord> {
    Seq::new(n, |i: int| TexCoord { uv: [u32_at(s, p + 8 * i), u32_at(s, p + 8 * i + 4)] })
}

/// `n` little-endian 16-bit vertex indices at `p`, widened to 32 bits.
pub open spec fn indices_at(s: Seq<u8>, p: int, n: nat) -> Seq<u32> {
    Seq::new(n, |i: int| u16_at(s, p + 2 * i) as u32)
}

/// The triangles of an index list: consecutive triples, a trailing partial
/// triple being dropped.
pub open spec fn faces_of(indices: Seq<u32>) -> Seq<Face> {
    Seq::new(
        indices.len() / 3,
        |k: int| Face { vertices: [indices[3 * k], indices[3 * k + 1], indices[3 * k + 2]] },
    )
}

/// A geoset while its sub-chunks are read: the geoset itself, the vertex
/// indices read so far, and the declared size of each matrix group.
pub struct GeosetDraft {
    pub geoset: SpecGeoset,
    pub indices: Seq<u32>,
    pub group_sizes: Seq<u32>,
}

pub open spec fn empty_draft() -> GeosetDraft {
    GeosetDraft { geoset: empty_geoset(), indices: Seq::empty(), group_sizes: Seq::empty() }
}

/// Appends to each matrix group `k` (from `k` on) its declared number of
/// bone indices, read one group after another from `p`; yields the groups
/// and the number of bytes read.
pub open spec fn fill_groups(
    s: Seq<u8>,
    p: int,
    groups: Seq<Seq<u32>>,
    sizes: Seq<u32>,
    k: int,
) -> Result<(Seq<Seq<u32>>, nat), ParseFail>
    decreases groups.len() - k,
{
    if k < 0 || k >= groups.len() || k >= sizes.len() {
        Ok((groups, 0))
    } else if !fits(s, p, 4 * sizes[k]) {
        Err(ParseFail::Truncated)
    } else {
        match fill_groups(
            s,
            p + 4 * sizes[k],
            groups.update(k, groups[k] + u32s_at(s, p, sizes[k] as nat)),
            sizes,
            k + 1,
        ) {
            Ok((g, n)) => Ok((g, n + 4 * sizes[k] as nat)),
            Err(e) => Err(e),
        }
    }
}

/// Skips `remaining` secondary texture-coordinate sets starting at `p`;
/// yields the number of bytes passed.
pub open spec fn skip_uv_sets(s: Seq<u8>, p: int, remaining: nat) -> Result<nat, ParseFail>
    decreases remaining,
{
    if remaining == 0 {
        Ok(0)
    } else if !fits(s, p, 4) {
        Err(ParseFail::Truncated)
    } else if u32_at(s, p) != TAG_UVBS() {
        match skip_uv_sets(s, p + 4, (remaining - 1) as nat) {
            Ok(n) => Ok(n + 4),
            Err(e) => Err(e),
        }
    } else if !fits(s, p + 4, 4) {
        Err(ParseFail::Truncated)
    } else if 8 * u32_at(s, p + 4) > u32::MAX {
        Err(ParseFail::SizeOverflow)
    } else {
        let skip = 8 + 8 * u32_at(s, p + 4) as nat;
        match skip_uv_sets(s, p + skip, (remaining - 1) as nat) {
            Ok(n) => Ok(n + skip),
            Err(e) => Err(e),
        }
    }
}

/// Reads the body of the geoset sub-chunk with tag `tag`, whose body starts
/// at `p`; yields the updated draft and the number of bytes passed.
pub open spec fn geoset_part(s: Seq<u8>, p: int, tag: u32, d: GeosetDraft) -> Result<
    (GeosetDraft, nat),
    ParseFail,
> {
    if tag == TAG_VRTX() || tag == TAG_NRMS() || tag == TAG_PVTX() || tag == TAG_GNDX() || tag
        == TAG_MTGC() || tag == TAG_PTYP() || tag == TAG_PCNT() || tag == TAG_MATS() || tag
        == TAG_UVAS() {
        if !fits(s, p, 4) {
            Err(ParseFail::Truncated)
        } else {
            let count = u32_at(s, p) as nat;
            let q = p + 4;
            if tag == TAG_VRTX() {
                if !fits(s, q, (12 * count) as int) {
                    Err(ParseFail::Truncated)
                } else {
                    Ok(
                        (
                            GeosetDraft {
                                geoset: SpecGeoset {
                                    vertices: d.geoset.vertices + vertices_at(s, q, count),
                                    ..d.geoset
                                },
                                ..d
                            },
                            4 + 12 * count,
                        ),
                    )
                }
            } else if tag == TAG_NRMS() {
                if !fits(s, q, (12 * count) as int) {
                    Err(ParseFail::Truncated)
                } else {
                    Ok(
                        (
                            GeosetDraft {
                                geoset: SpecGeoset {
                                    normals: d.geoset.normals + normals_at(s, q, count),
                                    ..d.geoset
                                },
                                ..d
                            },
                            4 + 12 * count,
                        ),
                    )
                }
            } else if tag == TAG_PVTX() {
                if !fits(s, q, (2 * count) as int) {
                    Err(ParseFail::Truncated)
                } else {
                    Ok(
                        (
                            GeosetDraft { indices: d.indices + indices_at(s, q, count), ..d },
                            4 + 2 * count,
                        ),
                    )
                }
            } else if tag == TAG_GNDX() {
                if !fits(s, q, count as int) {
                    Err(ParseFail::Truncated)
                } else {
                    Ok(
                        (
                            GeosetDraft {
                                geoset: SpecGeoset {
                                    vertex_groups: d.geoset.vertex_groups + s.subrange(
                                        q,
                                        q + count,
                                    ),
                                    ..d.geoset
                                },
                                ..d
                            },
                            4 + count,
                        ),
                    )
                }
            } else if tag == TAG_MTGC() {
                if !fits(s, q, (4 * count) as int) {
                    Err(ParseFail::Truncated)
                } else {
                    Ok(
                        (
                            GeosetDraft {
                                geoset: SpecGeoset {
                                    matrix_groups: d.geoset.matrix_groups + Seq::new(
                                        count,
                                        |i: int| Seq::<u32>::empty(),
                                    ),
                                    ..d.geoset
                                },
                                group_sizes: d.group_sizes + u32s_at(s, q, count),
                                ..d
                            },
                            4 + 4 * count,
                        ),
                    )
                }
            } else if tag == TAG_PTYP() || tag == TAG_PCNT() {
                if 4 * count > u32::MAX {
                    Err(ParseFail::SizeOverflow)
                } else {
                    Ok((d, 4 + 4 * count))
                }
            } else if tag == TAG_MATS() {
                match fill_groups(s, q, d.geoset.matrix_groups, d.group_sizes, 0) {
                    Err(e) => Err(e),
                    Ok((groups, n)) => {
                        let r = q + n;
                        if !fits(s, r, 44) {
                            Err(ParseFail::Truncated)
                        } else if 28 * u32_at(s, r + 40) > u32::MAX {
                            Err(ParseFail::SizeOverflow)
                        } else {
                            Ok(
                                (
                                    GeosetDraft {
                                        geoset: SpecGeoset {
                                            matrix_groups: groups,
                                            material_id: Some(u32_at(s, r) as usize),
                                            selection_group: u32_at(s, r + 4) as usize,
                                            unselectable: u32_at(s, r + 8) == 4,
                                            bounds_radius: u32_at(s, r + 12),
                                            minimum_extent: triple_at(s, r + 16),
                                            maximum_extent: triple_at(s, r + 28),
                                            ..d.geoset
                                        },
                                        ..d
                                    },
                                    4 + n + 44 + 28 * u32_at(s, r + 40) as nat,
                                ),
                            )
                        }
                    },
                }
            } else {
                // UVAS: the first set holds the texture coordinates, the others are skipped
                if count == 0 {
                    Ok((d, 4))
                } else if !fits(s, q, 4) {
                    Err(ParseFail::Truncated)
                } else if u32_at(s, q) != TAG_UVBS() {
                    match skip_uv_sets(s, q + 4, (count - 1) as nat) {
                        Ok(n) => Ok((d, 8 + n)),
                        Err(e) => Err(e),
                    }
                } else if !fits(s, q + 4, 4) {
                    Err(ParseFail::Truncated)
                } else {
                    let uvs = u32_at(s, q + 4) as nat;
                    if !fits(s, q + 8, (8 * uvs) as int) {
                        Err(ParseFail::Truncated)
                    } else {
                        let d2 = GeosetDraft {
                            geoset: SpecGeoset {
                                tex_coords: d.geoset.tex_coords + tex_coords_at(s, q + 8, uvs),
                                ..d.geoset
                            },
                            ..d
                        };
                        match skip_uv_sets(s, q + 8 + 8 * uvs, (count - 1) as nat) {
                            Ok(n) => Ok((d2, 12 + 8 * uvs + n)),
                            Err(e) => Err(e),
                        }
                    }
                }
            }
        }
    } else {
        // an unknown tag is passed as a plain 32-bit field
        Ok((d, 0))
    }
}

/// Reads the sub-chunks of one geoset from `p` until fewer than four bytes
/// of the geoset (which ends at `end`) are left.
pub open spec fn geoset_parts(s: Seq<u8>, p: int, end: int, d: GeosetDraft) -> Result<
    GeosetDraft,
    ParseFail,
>
    decreases room(p, end),
{
    if p >= end || end - p < 4 {
        Ok(d)
    } else if !fits(s, p, 4) {
        Err(ParseFail::Truncated)
    } else {
        match geoset_part(s, p + 4, u32_at(s, p), d) {
            Err(e) => Err(e),
            Ok((d2, n)) => geoset_parts(s, p + 4 + n, end, d2),
        }
    }
}

/// The geoset that a finished draft yields: its triangles are the index triples.
pub open spec fn finish_geoset(d: GeosetDraft) -> SpecGeoset {
    SpecGeoset { faces: faces_of(d.indices), ..d.geoset }
}

/// Adds a finished geoset to the model, unless it has no vertices.
pub open spec fn add_geoset(m: SpecModel, g: SpecGeoset) -> SpecModel {
    if g.vertices.len() > 0 {
        SpecModel { geosets: m.geosets.push(g), ..m }
    } else {
        m
    }
}

/// Reads the geosets of a `GEOS` chunk from `p` up to `end`; yields the
/// model and where reading stopped.
#[verifier::opaque]
pub open spec fn geosets(s: Seq<u8>, p: int, end: int, m: SpecModel) -> Result<
    (SpecModel, int),
    ParseFail,
>
    decreases room(p, end),
{
    if p >= end {
        Ok((m, p))
    } else if !fits(s, p, 4) {
        Err(ParseFail::Truncated)
    } else {
        let size = u32_at(s, p) as int;
        if size == 0 || p + size > end {
            Ok((m, p + 4))
        } else {
            match geoset_parts(s, p + 4, p + size, empty_draft()) {
                Err(e) => Err(e),
                Ok(d) => geosets(s, p + size, end, add_geoset(m, finish_geoset(d))),
            }
        }
    }
}

/// The animation sequence stored at `p` (132 bytes, of which the first 100 are read).
pub open spec fn sequence_at(s: Seq<u8>, p: int) -> SpecSequence {
    SpecSequence {
        name: trim_ws(field_text(s.subrange(p, p + 80))),
        start_frame: u32_at(s, p + 80),
        end_frame: u32_at(s, p + 84),
        rarity: Some(float_bits_to_u32(u32_at(s, p + 96))),
        non_looping: u32_at(s, p + 92) != 0,
    }
}

/// Reads `n` sequences from `p` on.
#[verifier::opaque]
pub open spec fn sequences(s: Seq<u8>, p: int, n: nat, m: SpecModel) -> Result<
    (SpecModel, int),
    ParseFail,
>
    decreases n,
{
    if n == 0 {
        Ok((m, p))
    } else if !fits(s, p, 100) {
        Err(ParseFail::Truncated)
    } else {
        sequences(
            s,
            p + 132,
            (n - 1) as nat,
            SpecModel { sequences: m.sequences.push(sequence_at(s, p)), ..m },
        )
    }
}

/// The texture record stored at `p` (268 bytes).
pub open spec fn texture_at(s: Seq<u8>, p: int) -> SpecTexture {
    SpecTexture {
        filename: trim_ws(field_text(s.subrange(p + 4, p + 260))),
        replaceable_id: u32_at(s, p),
        image_data: None,
        width: 0,
        height: 0,
    }
}

/// Reads `n` texture records from `p` on.
#[verifier::opaque]
pub open spec fn textures(s: Seq<u8>, p: int, n: nat, m: SpecModel) -> Result<
    (SpecModel, int),
    ParseFail,
>
    decreases n,
{
    if n == 0 {
        Ok((m, p))
    } else if !fits(s, p, 268) {
        Err(ParseFail::Truncated)
    } else {
        textures(
            s,
            p + 268,
            (n - 1) as nat,
            SpecModel { textures: m.textures.push(texture_at(s, p)), ..m },
        )
    }
}

/// Gives pivot point `i` to the `i`-th bone, or when there are not that many
/// bones, to the helper after the bones; a pivot beyond both is dropped.
pub open spec fn assign_pivot(m: SpecModel, i: int, v: [u32; 3]) -> SpecModel {
    if i < m.bones.len() {
        SpecModel {
            bones: m.bones.update(i, SpecBone { pivot_point: v, ..m.bones[i] }),
            ..m
        }
    } else if i - m.bones.len() < m.helpers.len() {
        let h = i - m.bones.len();
        SpecModel {
            helpers: m.helpers.update(h, SpecHelper { pivot_point: v, ..m.helpers[h] }),
            ..m
        }
    } else {
        m
    }
}

/// Reads pivot points `i` up to `n` from `p` on.
#[verifier::opaque]
pub open spec fn pivots(s: Seq<u8>, p: int, i: nat, n: nat, m: SpecModel) -> Result<
    (SpecModel, int),
    ParseFail,
>
    decreases n - i,
{
    if i >= n {
        Ok((m, p))
    } else if !fits(s, p, 12) {
        Err(ParseFail::Truncated)
    } else {
        pivots(s, p + 12, i + 1, n, assign_pivot(m, i as int, triple_at(s, p)))
    }
}

/// Bytes taken by one keyframe with `elems` values (and tangents when `tan`).
pub open spec fn keyframe_size(elems: nat, tan: bool) -> nat {
    let per: nat = if tan {
        3
    } else {
        1
    };
    4 + 4 * elems * per
}

/// The keyframe stored at `p`.
pub open spec fn keyframe_at(s: Seq<u8>, p: int, elems: nat, tan: bool) -> SpecKeyframe {
    SpecKeyframe {
        frame: i32_at(s, p),
        data: u32s_at(s, p + 4, elems),
        in_tan: if tan {
            u32s_at(s, p + 4 + 4 * elems, elems)
        } else {
            Seq::empty()
        },
        out_tan: if tan {
            u32s_at(s, p + 4 + 8 * elems, elems)
        } else {
            Seq::empty()
        },
    }
}

/// `n` keyframes stored one after another at `p`.
pub open spec fn keyframes_at(s: Seq<u8>, p: int, n: nat, elems: nat, tan: bool) -> Seq<
    SpecKeyframe,
> {
    Seq::new(n, |k: int| keyframe_at(s, p + k * keyframe_size(elems, tan), elems, tan))
}

/// Whether an interpolation type carries tangents (Hermite and Bezier).
pub open spec fn has_tangents(interpolation: u32) -> bool {
    interpolation == 2 || interpolation == 3
}

/// Reads the animation track with tag `tag` at `p` when it is there: yields
/// the index of the new controller (-1 when the track is absent), the model
/// and the position after the track (`p` itself when it is absent).
#[verifier::opaque]
pub open spec fn controller(s: Seq<u8>, p: int, tag: u32, elems: nat, m: SpecModel) -> Result<
    (i32, SpecModel, int),
    ParseFail,
> {
    if !fits(s, p, 4) || u32_at(s, p) != tag {
        Ok((-1i32, m, p))
    } else if !fits(s, p + 4, 12) {
        Err(ParseFail::Truncated)
    } else {
        let n = u32_at(s, p + 4) as nat;
        let interpolation = u32_at(s, p + 8);
        let tan = has_tangents(interpolation);
        let total = n * keyframe_size(elems, tan);
        if !fits(s, p + 16, total as int) {
            Err(ParseFail::Truncated)
        } else {
            let c = SpecController {
                interpolation_type: interpolation,
                global_seq_id: i32_at(s, p + 12),
                keyframes: keyframes_at(s, p + 16, n, elems, tan),
            };
            Ok(
                (
                    m.controllers.len() as i32,
                    SpecModel { controllers: m.controllers.push(c), ..m },
                    p + 16 + total,
                ),
            )
        }
    }
}

/// The fields that bones and helpers share.
pub struct NodeFields {
    pub name: Seq<char>,
    pub object_id: u32,
    pub parent_id: i32,
    pub translation_idx: i32,
    pub rotation_idx: i32,
    pub scaling_idx: i32,
    pub visibility_idx: i32,
}

/// Reads the node record at `p`: its fixed fields and its four optional
/// tracks (translation, rotation, scaling, visibility), which become
/// controllers of the model.
pub open spec fn node(s: Seq<u8>, p: int, m: SpecModel) -> Result<(NodeFields, SpecModel), ParseFail> {
    if !fits(s, p, 96) {
        Err(ParseFail::Truncated)
    } else {
        match controller(s, p + 96, TAG_KGTR(), 3, m) {
            Err(e) => Err(e),
            Ok((t, m1, q1)) => match controller(s, q1, TAG_KGRT(), 4, m1) {
                Err(e) => Err(e),
                Ok((r, m2, q2)) => match controller(s, q2, TAG_KGSC(), 3, m2) {
                    Err(e) => Err(e),
                    Ok((sc, m3, q3)) => match controller(s, q3, TAG_KLAV(), 1, m3) {
                        Err(e) => Err(e),
                        Ok((v, m4, q4)) => Ok(
                            (
                                NodeFields {
                                    name: trim_ws(field_text(s.subrange(p + 4, p + 84))),
                                    object_id: u32_at(s, p + 84),
                                    parent_id: i32_at(s, p + 88),
                                    translation_idx: t,
                                    rotation_idx: r,
                                    scaling_idx: sc,
                                    visibility_idx: v,
                                },
                                m4,
                            ),
                        ),
                    },
                },
            },
        }
    }
}

/// A signed id read from the file, kept when it is not negative.
pub open spec fn optional_id(v: i32) -> Option<u32> {
    if v >= 0 {
        Some(v as u32)
    } else {
        None
    }
}

/// Reads the bones of a `BONE` chunk from `p` up to `end`: each a node
/// record followed by the ids of its geoset and geoset animation.
#[verifier::opaque]
pub open spec fn bones(s: Seq<u8>, p: int, end: int, m: SpecModel) -> Result<
    (SpecModel, int),
    ParseFail,
>
    decreases room(p, end),
{
    if p >= end {
        Ok((m, p))
    } else if !fits(s, p, 4) {
        Err(ParseFail::Truncated)
    } else {
        let q = p + u32_at(s, p) as nat;
        match node(s, p, m) {
            Err(e) => Err(e),
            Ok((f, m2)) => if !fits(s, q, 8) {
                Err(ParseFail::Truncated)
            } else {
                let b = SpecBone {
                    name: f.name,
                    object_id: f.object_id,
                    parent_id: f.parent_id,
                    pivot_point: [0, 0, 0],
                    geoset_id: optional_id(i32_at(s, q)),
                    geoset_anim_id: optional_id(i32_at(s, q + 4)),
                    translation_idx: f.translation_idx,
                    rotation_idx: f.rotation_idx,
                    scaling_idx: f.scaling_idx,
                    visibility_idx: f.visibility_idx,
                };
                bones(s, q + 8, end, SpecModel { bones: m2.bones.push(b), ..m2 })
            },
        }
    }
}

/// Reads the helpers of a `HELP` chunk from `p` up to `end`.  A helper
/// record that claims a size of zero would be read again forever; reading
/// stops there with `Stalled`.
#[verifier::opaque]
pub open spec fn helpers(s: Seq<u8>, p: int, end: int, m: SpecModel) -> Result<
    (SpecModel, int),
    ParseFail,
>
    decreases room(p, end),
{
    if p >= end {
        Ok((m, p))
    } else if !fits(s, p, 4) {
        Err(ParseFail::Truncated)
    } else {
        let size = u32_at(s, p) as nat;
        match node(s, p, m) {
            Err(e) => Err(e),
            Ok((f, m2)) => if size == 0 {
                Err(ParseFail::Stalled)
            } else {
                let h = SpecHelper {
                    name: f.name,
                    object_id: f.object_id,
                    parent_id: f.parent_id,
                    pivot_point: [0, 0, 0],
                    translation_idx: f.translation_idx,
                    rotation_idx: f.rotation_idx,
                    scaling_idx: f.scaling_idx,
                    visibility_idx: f.visibility_idx,
                };
                helpers(s, p + size, end, SpecModel { helpers: m2.helpers.push(h), ..m2 })
            },
        }
    }
}

/// The blend mode of a layer's filter-mode code.
pub open spec fn filter_mode_of(code: u32) -> FilterMode {
    if code == 0 || code == 1 {
        FilterMode::Opaque
    } else if code == 2 || code == 3 {
        FilterMode::Transparent
    } else if code == 4 {
        FilterMode::Additive
    } else if code == 5 {
        FilterMode::Modulate
    } else if code == 6 {
        FilterMode::Modulate2x
    } else if code == 7 {
        FilterMode::AddAlpha
    } else {
        FilterMode::Blend
    }
}

/// The layer whose fields start at `p`.
pub open spec fn layer_at(s: Seq<u8>, p: int) -> SpecLayer {
    SpecLayer {
        texture_id: Some(u32_at(s, p + 8) as usize),
        filter_mode: filter_mode_of(u32_at(s, p)),
        shading_flags: flags_of_bits(u32_at(s, p + 4)),
        alpha: u32_at(s, p + 20),
    }
}

/// Reads `n` layer records from `p` on, each starting with its size.
pub open spec fn layers(s: Seq<u8>, p: int, n: nat, acc: Seq<SpecLayer>) -> Result<
    Seq<SpecLayer>,
    ParseFail,
>
    decreases n,
{
    if n == 0 {
        Ok(acc)
    } else if !fits(s, p, 28) {
        Err(ParseFail::Truncated)
    } else {
        layers(s, p + u32_at(s, p) as nat, (n - 1) as nat, acc.push(layer_at(s, p + 4)))
    }
}

/// Reads the materials of an `MTLS` chunk from `p` up to `end`.  A material
/// that claims a size of zero would be read again forever; reading stops
/// there with `Stalled`.
#[verifier::opaque]
pub open spec fn materials(s: Seq<u8>, p: int, end: int, m: SpecModel) -> Result<
    (SpecModel, int),
    ParseFail,
>
    decreases room(p, end),
{
    if p >= end {
        Ok((m, p))
    } else if !fits(s, p, 16) {
        Err(ParseFail::Truncated)
    } else {
        let size = u32_at(s, p) as nat;
        let step = if u32_at(s, p + 12) != TAG_LAYS() {
            Ok(m)
        } else if !fits(s, p + 16, 4) {
            Err(ParseFail::Truncated)
        } else {
            match layers(s, p + 20, u32_at(s, p + 16) as nat, Seq::empty()) {
                Err(e) => Err(e),
                Ok(ls) => Ok(SpecModel { materials: m.materials.push(ls), ..m }),
            }
        };
        match step {
            Err(e) => Err(e),
            Ok(m2) => if size == 0 {
                Err(ParseFail::Stalled)
            } else {
                materials(s, p + size, end, m2)
            },
        }
    }
}

/// Reads the body of the chunk with tag `tag` and `size` bytes starting at
/// `start`; yields the model and where reading stopped.
#[verifier::opaque]
pub open spec fn chunk(s: Seq<u8>, tag: u32, start: int, size: nat, m: SpecModel) -> Result<
    (SpecModel, int),
    ParseFail,
> {
    if tag == TAG_VERS() {
        if !fits(s, start, 4) {
            Err(ParseFail::Truncated)
        } else {
            Ok((m, start + 4))
        }
    } else if tag == TAG_MODL() {
        if !fits(s, start + 8, 336) {
            Err(ParseFail::Truncated)
        } else {
            Ok(
                (
                    SpecModel { name: field_text(s.subrange(start + 8, start + 344)), ..m },
                    start + 344,
                ),
            )
        }
    } else if tag == TAG_GEOS() {
        geosets(s, start, start + size, m)
    } else if tag == TAG_SEQS() {
        sequences(s, start, size / 132, m)
    } else if tag == TAG_TEXS() {
        textures(s, start, size / 268, m)
    } else if tag == TAG_BONE() {
        bones(s, start, start + size, m)
    } else if tag == TAG_HELP() {
        helpers(s, start, start + size, m)
    } else if tag == TAG_PIVT() {
        pivots(s, start, 0, size / 12, m)
    } else if tag == TAG_MTLS() {
        materials(s, start, start + size, m)
    } else {
        Ok((m, start + size))
    }
}

/// Reads chunks from `p` until fewer than four bytes are left for a tag.
/// After each chunk reading goes on at the end of the chunk, or further when
/// the chunk's contents reached beyond it.
pub open spec fn chunks(s: Seq<u8>, p: int, m: SpecModel) -> Result<SpecModel, ParseFail>
    decreases room(p, s.len() as int + 1),
{
    if !fits(s, p, 4) {
        Ok(m)
    } else if !fits(s, p + 4, 4) {
        Err(ParseFail::Truncated)
    } else {
        let size = u32_at(s, p + 4) as nat;
        match chunk(s, u32_at(s, p), p + 8, size, m) {
            Err(e) => Err(e),
            Ok((m2, q)) => chunks(
                s,
                if q > p + 8 + size {
                    q
                } else {
                    p + 8 + size
                },
                m2,
            ),
        }
    }
}

/// The model of an MDX file whose bytes follow its four-byte magic at position 4.
pub open spec fn mdx_model(s: Seq<u8>) -> Result<SpecModel, ParseFail> {
    chunks(s, 4, empty_model("MDX Model"@))
}

} // verus!
