//! What every model read from an MDX file satisfies: each of its geosets has
//! vertices, and each triangle's indices fit in 16 bits (the file stores
//! them so).
use crate::mdx_spec::{
    bones, chunk, chunks, controller, empty_draft, faces_of, finish_geoset, geoset_part, geoset_parts,
    geosets, helpers, materials, mdx_model, node, pivots, room, sequences, textures, GeosetDraft,
};
use crate::model::{FilterMode, SpecGeoset, SpecModel};
use crate::mdx_spec::{filter_mode_of, layer_at};
use crate::bytes::u32_at;
use vstd::prelude::*;

verus! {

/// Whether every geoset has a vertex and every index of its triangles is
/// below 65536.
pub open spec fn geosets_read_well(gs: Seq<SpecGeoset>) -> bool {
    &&& forall|i: int| 0 <= i < gs.len() ==> #[trigger] gs[i].vertices.len() > 0
    &&& forall|i: int, k: int, j: int|
        0 <= i < gs.len() && 0 <= k < gs[i].faces.len() && 0 <= j < 3
            ==> #[trigger] gs[i].faces[k].vertices[j] < 65536
}

/// Whether every index is below 65536.
spec fn small(ix: Seq<u32>) -> bool {
    forall|i: int| 0 <= i < ix.len() ==> #[trigger] ix[i] < 65536
}

proof fn lemma_part_small(s: Seq<u8>, p: int, tag: u32, d: GeosetDraft)
    requires
        small(d.indices),
        geoset_part(s, p, tag, d) is Ok,
    ensures
        small(geoset_part(s, p, tag, d)->Ok_0.0.indices),
{
    let d2 = geoset_part(s, p, tag, d)->Ok_0.0;
    assert forall|i: int| 0 <= i < d2.indices.len() implies #[trigger] d2.indices[i] < 65536 by {
        if i < d.indices.len() {
            assert(d.indices[i] < 65536);
        }
    }
}

proof fn lemma_parts_small(s: Seq<u8>, p: int, end: int, d: GeosetDraft)
    requires
        small(d.indices),
        geoset_parts(s, p, end, d) is Ok,
    ensures
        small(geoset_parts(s, p, end, d)->Ok_0.indices),
    decreases room(p, end),
{
    if !(p >= end || end - p < 4) {
        let r = geoset_part(s, p + 4, crate::bytes::u32_at(s, p), d);
        lemma_part_small(s, p + 4, crate::bytes::u32_at(s, p), d);
        let (d2, n) = r->Ok_0;
        lemma_parts_small(s, p + 4 + n, end, d2);
    }
}

proof fn lemma_faces_small(ix: Seq<u32>)
    requires
        small(ix),
    ensures
        forall|k: int, j: int|
            0 <= k < faces_of(ix).len() && 0 <= j < 3 ==> #[trigger] faces_of(ix)[k].vertices[j] < 65536,
{
    assert forall|k: int, j: int| 0 <= k < faces_of(ix).len() && 0 <= j < 3 implies #[trigger] faces_of(
        ix,
    )[k].vertices[j] < 65536 by {
        assert(faces_of(ix)[k].vertices[j] == ix[3 * k + j]);
    }
}

proof fn lemma_geosets_well(s: Seq<u8>, p: int, end: int, m: SpecModel)
    requires
        geosets_read_well(m.geosets),
        geosets(s, p, end, m) is Ok,
    ensures
        geosets_read_well(geosets(s, p, end, m)->Ok_0.0.geosets),
    decreases room(p, end),
{
    reveal(geosets);
    if p < end {
        let size = crate::bytes::u32_at(s, p) as int;
        if !(size == 0 || p + size > end) {
            lemma_parts_small(s, p + 4, p + size, empty_draft());
            let d = geoset_parts(s, p + 4, p + size, empty_draft())->Ok_0;
            let g = finish_geoset(d);
            lemma_faces_small(d.indices);
            let m2 = if g.vertices.len() > 0 {
                SpecModel { geosets: m.geosets.push(g), ..m }
            } else {
                m
            };
            assert(geosets_read_well(m2.geosets)) by {
                assert forall|i: int| 0 <= i < m2.geosets.len() implies #[trigger] m2.geosets[i].vertices.len()
                    > 0 by {
                    if i < m.geosets.len() {
                        assert(m2.geosets[i] == m.geosets[i]);
                    }
                }
                assert forall|i: int, k: int, j: int|
                    0 <= i < m2.geosets.len() && 0 <= k < m2.geosets[i].faces.len() && 0 <= j < 3 implies
                    #[trigger] m2.geosets[i].faces[k].vertices[j] < 65536 by {
                    if i < m.geosets.len() {
                        assert(m2.geosets[i] == m.geosets[i]);
                        assert(m.geosets[i].faces[k].vertices[j] < 65536);
                    } else {
                        assert(m2.geosets[i] == g);
                        assert(g.faces == faces_of(d.indices));
                        assert(faces_of(d.indices)[k].vertices[j] < 65536);
                    }
                }
            }
            lemma_geosets_well(s, p + size, end, m2);
        }
    }
}

proof fn lemma_sequences_keep(s: Seq<u8>, p: int, n: nat, m: SpecModel)
    requires
        sequences(s, p, n, m) is Ok,
    ensures
        sequences(s, p, n, m)->Ok_0.0.geosets == m.geosets,
    decreases n,
{
    reveal(sequences);
    if n > 0 {
        lemma_sequences_keep(
            s,
            p + 132,
            (n - 1) as nat,
            SpecModel { sequences: m.sequences.push(crate::mdx_spec::sequence_at(s, p)), ..m },
        );
    }
}

proof fn lemma_textures_keep(s: Seq<u8>, p: int, n: nat, m: SpecModel)
    requires
        textures(s, p, n, m) is Ok,
    ensures
        textures(s, p, n, m)->Ok_0.0.geosets == m.geosets,
    decreases n,
{
    reveal(textures);
    if n > 0 {
        lemma_textures_keep(
            s,
            p + 268,
            (n - 1) as nat,
            SpecModel { textures: m.textures.push(crate::mdx_spec::texture_at(s, p)), ..m },
        );
    }
}

proof fn lemma_pivots_keep(s: Seq<u8>, p: int, i: nat, n: nat, m: SpecModel)
    requires
        pivots(s, p, i, n, m) is Ok,
    ensures
        pivots(s, p, i, n, m)->Ok_0.0.geosets == m.geosets,
    decreases n - i,
{
    reveal(pivots);
    if i < n {
        lemma_pivots_keep(
            s,
            p + 12,
            i + 1,
            n,
            crate::mdx_spec::assign_pivot(m, i as int, crate::mdx_spec::triple_at(s, p)),
        );
    }
}

proof fn lemma_node_keeps(s: Seq<u8>, p: int, m: SpecModel)
    requires
        node(s, p, m) is Ok,
    ensures
        node(s, p, m)->Ok_0.1.geosets == m.geosets,
{
    reveal(controller);
}

proof fn lemma_bones_keep(s: Seq<u8>, p: int, end: int, m: SpecModel)
    requires
        bones(s, p, end, m) is Ok,
    ensures
        bones(s, p, end, m)->Ok_0.0.geosets == m.geosets,
    decreases room(p, end),
{
    reveal(bones);
    if p < end {
        lemma_node_keeps(s, p, m);
        let (f, m2) = node(s, p, m)->Ok_0;
        let q = p + crate::bytes::u32_at(s, p) as nat;
        let b = crate::model::SpecBone {
            name: f.name,
            object_id: f.object_id,
            parent_id: f.parent_id,
            pivot_point: [0, 0, 0],
            geoset_id: crate::mdx_spec::optional_id(crate::bytes::i32_at(s, q)),
            geoset_anim_id: crate::mdx_spec::optional_id(crate::bytes::i32_at(s, q + 4)),
            translation_idx: f.translation_idx,
            rotation_idx: f.rotation_idx,
            scaling_idx: f.scaling_idx,
            visibility_idx: f.visibility_idx,
        };
        lemma_bones_keep(s, q + 8, end, SpecModel { bones: m2.bones.push(b), ..m2 });
    }
}

proof fn lemma_helpers_keep(s: Seq<u8>, p: int, end: int, m: SpecModel)
    requires
        helpers(s, p, end, m) is Ok,
    ensures
        helpers(s, p, end, m)->Ok_0.0.geosets == m.geosets,
    decreases room(p, end),
{
    reveal(helpers);
    if p < end {
        lemma_node_keeps(s, p, m);
        let (f, m2) = node(s, p, m)->Ok_0;
        let size = crate::bytes::u32_at(s, p) as nat;
        let h = crate::model::SpecHelper {
            name: f.name,
            object_id: f.object_id,
            parent_id: f.parent_id,
            pivot_point: [0, 0, 0],
            translation_idx: f.translation_idx,
            rotation_idx: f.rotation_idx,
            scaling_idx: f.scaling_idx,
            visibility_idx: f.visibility_idx,
        };
        lemma_helpers_keep(s, p + size, end, SpecModel { helpers: m2.helpers.push(h), ..m2 });
    }
}

proof fn lemma_materials_keep(s: Seq<u8>, p: int, end: int, m: SpecModel)
    requires
        materials(s, p, end, m) is Ok,
    ensures
        materials(s, p, end, m)->Ok_0.0.geosets == m.geosets,
    decreases room(p, end),
{
    reveal(materials);
    if p < end {
        let size = crate::bytes::u32_at(s, p) as nat;
        if crate::bytes::u32_at(s, p + 12) != crate::mdx_spec::TAG_LAYS() {
            lemma_materials_keep(s, p + size, end, m);
        } else {
            let ls = crate::mdx_spec::layers(s, p + 20, crate::bytes::u32_at(s, p + 16) as nat, Seq::empty())->Ok_0;
            lemma_materials_keep(s, p + size, end, SpecModel { materials: m.materials.push(ls), ..m });
        }
    }
}

proof fn lemma_chunk_well(s: Seq<u8>, tag: u32, start: int, size: nat, m: SpecModel)
    requires
        geosets_read_well(m.geosets),
        chunk(s, tag, start, size, m) is Ok,
    ensures
        geosets_read_well(chunk(s, tag, start, size, m)->Ok_0.0.geosets),
{
    reveal(chunk);
    if tag == crate::mdx_spec::TAG_GEOS() {
        lemma_geosets_well(s, start, start + size, m);
    } else if tag == crate::mdx_spec::TAG_SEQS() {
        lemma_sequences_keep(s, start, size / 132, m);
    } else if tag == crate::mdx_spec::TAG_TEXS() {
        lemma_textures_keep(s, start, size / 268, m);
    } else if tag == crate::mdx_spec::TAG_BONE() {
        lemma_bones_keep(s, start, start + size, m);
    } else if tag == crate::mdx_spec::TAG_HELP() {
        lemma_helpers_keep(s, start, start + size, m);
    } else if tag == crate::mdx_spec::TAG_PIVT() {
        lemma_pivots_keep(s, start, 0, size / 12, m);
    } else if tag == crate::mdx_spec::TAG_MTLS() {
        lemma_materials_keep(s, start, start + size, m);
    }
}

proof fn lemma_chunks_well(s: Seq<u8>, p: int, m: SpecModel)
    requires
        geosets_read_well(m.geosets),
        chunks(s, p, m) is Ok,
    ensures
        geosets_read_well(chunks(s, p, m)->Ok_0.geosets),
    decreases room(p, s.len() as int + 1),
{
    if crate::bytes::fits(s, p, 4) && crate::bytes::fits(s, p + 4, 4) {
        let size = crate::bytes::u32_at(s, p + 4) as nat;
        let tag = crate::bytes::u32_at(s, p);
        lemma_chunk_well(s, tag, p + 8, size, m);
        let (m2, q) = chunk(s, tag, p + 8, size, m)->Ok_0;
        let next = if q > p + 8 + size {
            q
        } else {
            p + 8 + size
        };
        lemma_chunks_well(s, next, m2);
    }
}

/// Every geoset of a model read from an MDX file has vertices, and every
/// index of its triangles is below 65536.
pub proof fn law_mdx_geosets_read_well(s: Seq<u8>)
    ensures
        mdx_model(s) matches Ok(m) ==> geosets_read_well(m.geosets),
{
    if mdx_model(s) is Ok {
        lemma_chunks_well(s, 4, crate::model::empty_model("MDX Model"@));
    }
}

/// A layer's blend mode comes from its filter-mode code, the first field of
/// the layer record: 0 and 1 are opaque, 2 and 3 transparent (colour alpha
/// and full alpha), 4 additive, 5 modulate, 6 modulate 2x, 7 additive with
/// alpha, and any other code blends.
pub proof fn law_layer_filter_modes(s: Seq<u8>, p: int)
    ensures
        ({
            let code = u32_at(s, p);
            let f = layer_at(s, p).filter_mode;
            &&& (code == 0 || code == 1) <==> f == FilterMode::Opaque
            &&& (code == 2 || code == 3) <==> f == FilterMode::Transparent
            &&& code == 4 <==> f == FilterMode::Additive
            &&& code == 5 <==> f == FilterMode::Modulate
            &&& code == 6 <==> f == FilterMode::Modulate2x
            &&& code == 7 <==> f == FilterMode::AddAlpha
            &&& code > 7 <==> f == FilterMode::Blend
        }),
        forall|code: u32|
            (code == 4 ==> #[trigger] filter_mode_of(code) == FilterMode::Additive) && (code > 7
                ==> filter_mode_of(code) == FilterMode::Blend),
{
}

} // verus!
