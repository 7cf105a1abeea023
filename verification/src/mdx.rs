//! Reading the binary MDX model format (see `mdx_spec` for what it yields).
use crate::bytes::{
    le_u16, le_u32, read_field_text, read_i32, read_trimmed_text, read_u32, float_bits_to_u32_exec,
    fits, u32_at, u16_at, i32_at, ParseFail,
};
use crate::mdx_spec::{
    assign_pivot, bones, controller, filter_mode_of, helpers, keyframe_at, keyframe_size,
    keyframes_at, layer_at, layers, materials, node, optional_id, pivots, sequence_at, sequences,
    texture_at, textures, NodeFields, chunk, chunks, mdx_model, TAG_KGTR, TAG_KGRT, TAG_KGSC, TAG_KLAV,
    empty_draft, faces_of, finish_geoset, geoset_parts, geosets, room,
    fill_groups, geoset_part, indices_at, len_ok, normals_at, pos_ok, skip_uv_sets,
    tex_coords_at, triple_at, u32s_at, vertices_at, GeosetDraft, TAG_GNDX, TAG_MATS, TAG_MTGC,
    TAG_NRMS, TAG_PCNT, TAG_PTYP, TAG_PVTX, TAG_UVAS, TAG_UVBS, TAG_VRTX,
};
use crate::model::{AnimationController, Bone, FilterMode, Helper, Keyframe, Layer, Material, Sequence, ShadingFlags, SpecBone, SpecHelper, SpecLayer, Texture, SpecModel, views_of, Face, Model, Geoset, Normal, SpecGeoset, TexCoord, Vertex, seqs_of_vecs};
use vstd::prelude::*;

verus! {

/// Whether `n` bytes can be read at `p`.
fn fits_at(data: &[u8], p: u64, n: u64) -> (r: bool)
    ensures
        r == fits(data@, p as int, n as int),
{
    let len = data.len() as u64;
    p <= len && len - p >= n
}

/// The three `u32` values at `p`.
fn triple(data: &[u8], p: u64) -> (r: [u32; 3])
    requires
        fits(data@, p as int, 12),
    ensures
        r == triple_at(data@, p as int),
{
    let len = data.len();
    assert(len == data@.len());
    let q = p as usize;
    [le_u32(data, q), le_u32(data, q + 4), le_u32(data, q + 8)]
}

/// Appends the `n` `u32` values at `p`.
fn append_u32s(data: &[u8], p: u64, n: u32, out: &mut Vec<u32>)
    requires
        fits(data@, p as int, 4 * n),
    ensures
        final(out)@ == old(out)@ + u32s_at(data@, p as int, n as nat),
{
    let ghost start = old(out)@;
    let len = data.len();
    let mut i: u32 = 0;
    while i < n
        invariant
            i <= n,
            len == data@.len(),
            fits(data@, p as int, 4 * n),
            out@ == start + u32s_at(data@, p as int, i as nat),
        decreases n - i,
    {
        let v = le_u32(data, (p + 4 * (i as u64)) as usize);
        out.push(v);
        assert(u32s_at(data@, p as int, (i + 1) as nat) =~= u32s_at(data@, p as int, i as nat).push(v));
        assert(out@ =~= start + u32s_at(data@, p as int, (i + 1) as nat));
        i = i + 1;
    }
}

/// Appends the `n` vertices at `p`.
fn append_vertices(data: &[u8], p: u64, n: u32, out: &mut Vec<Vertex>)
    requires
        fits(data@, p as int, 12 * n),
    ensures
        final(out)@ == old(out)@ + vertices_at(data@, p as int, n as nat),
{
    let ghost start = old(out)@;
    let len = data.len();
    let mut i: u32 = 0;
    while i < n
        invariant
            i <= n,
            len == data@.len(),
            fits(data@, p as int, 12 * n),
            out@ == start + vertices_at(data@, p as int, i as nat),
        decreases n - i,
    {
        let v = Vertex { position: triple(data, p + 12 * (i as u64)) };
        out.push(v);
        assert(vertices_at(data@, p as int, (i + 1) as nat) =~= vertices_at(
            data@,
            p as int,
            i as nat,
        ).push(v));
        assert(out@ =~= start + vertices_at(data@, p as int, (i + 1) as nat));
        i = i + 1;
    }
}

/// Appends the `n` normals at `p`.
fn append_normals(data: &[u8], p: u64, n: u32, out: &mut Vec<Normal>)
    requires
        fits(data@, p as int, 12 * n),
    ensures
        final(out)@ == old(out)@ + normals_at(data@, p as int, n as nat),
{
    let ghost start = old(out)@;
    let len = data.len();
    let mut i: u32 = 0;
    while i < n
        invariant
            i <= n,
            len == data@.len(),
            fits(data@, p as int, 12 * n),
            out@ == start + normals_at(data@, p as int, i as nat),
        decreases n - i,
    {
        let v = Normal { normal: triple(data, p + 12 * (i as u64)) };
        out.push(v);
        assert(normals_at(data@, p as int, (i + 1) as nat) =~= normals_at(
            data@,
            p as int,
            i as nat,
        ).push(v));
        assert(out@ =~= start + normals_at(data@, p as int, (i + 1) as nat));
        i = i + 1;
    }
}

/// Appends the `n` texture coordinates at `p`.
fn append_tex_coords(data: &[u8], p: u64, n: u32, out: &mut Vec<TexCoord>)
    requires
        fits(data@, p as int, 8 * n),
    ensures
        final(out)@ == old(out)@ + tex_coords_at(data@, p as int, n as nat),
{
    let ghost start = old(out)@;
    let len = data.len();
    let mut i: u32 = 0;
    while i < n
        invariant
            i <= n,
            len == data@.len(),
            fits(data@, p as int, 8 * n),
            out@ == start + tex_coords_at(data@, p as int, i as nat),
        decreases n - i,
    {
        let q = (p + 8 * (i as u64)) as usize;
        let v = TexCoord { uv: [le_u32(data, q), le_u32(data, q + 4)] };
        out.push(v);
        assert(tex_coords_at(data@, p as int, (i + 1) as nat) =~= tex_coords_at(
            data@,
            p as int,
            i as nat,
        ).push(v));
        assert(out@ =~= start + tex_coords_at(data@, p as int, (i + 1) as nat));
        i = i + 1;
    }
}

/// Appends the `n` 16-bit indices at `p`, widened to 32 bits.
fn append_indices(data: &[u8], p: u64, n: u32, out: &mut Vec<u32>)
    requires
        fits(data@, p as int, 2 * n),
    ensures
        final(out)@ == old(out)@ + indices_at(data@, p as int, n as nat),
{
    let ghost start = old(out)@;
    let len = data.len();
    let mut i: u32 = 0;
    while i < n
        invariant
            i <= n,
            len == data@.len(),
            fits(data@, p as int, 2 * n),
            out@ == start + indices_at(data@, p as int, i as nat),
        decreases n - i,
    {
        let v = le_u16(data, (p + 2 * (i as u64)) as usize) as u32;
        out.push(v);
        assert(indices_at(data@, p as int, (i + 1) as nat) =~= indices_at(
            data@,
            p as int,
            i as nat,
        ).push(v));
        assert(out@ =~= start + indices_at(data@, p as int, (i + 1) as nat));
        i = i + 1;
    }
}

/// Appends the `n` bytes at `p`.
fn append_bytes(data: &[u8], p: u64, n: u32, out: &mut Vec<u8>)
    requires
        fits(data@, p as int, n as int),
    ensures
        final(out)@ == old(out)@ + data@.subrange(p as int, p + n),
{
    let ghost start = old(out)@;
    let len = data.len();
    let mut i: u32 = 0;
    while i < n
        invariant
            i <= n,
            len == data@.len(),
            fits(data@, p as int, n as int),
            out@ == start + data@.subrange(p as int, p + i),
        decreases n - i,
    {
        let v = data[(p + i as u64) as usize];
        out.push(v);
        assert(out@ =~= start + data@.subrange(p as int, p + i + 1));
        i = i + 1;
    }
}

/// A geoset being read: the geoset, its vertex indices and the declared
/// size of each of its matrix groups.
pub struct DraftGeoset {
    pub geoset: Geoset,
    pub indices: Vec<u32>,
    pub group_sizes: Vec<u32>,
}

impl View for DraftGeoset {
    type V = GeosetDraft;

    open spec fn view(&self) -> GeosetDraft {
        GeosetDraft {
            geoset: self.geoset@,
            indices: self.indices@,
            group_sizes: self.group_sizes@,
        }
    }
}

/// Fills each matrix group with its declared number of bone indices read
/// from `p` on; yields the number of bytes read.
fn read_group_members(data: &[u8], p: u64, groups: &mut Vec<Vec<u32>>, sizes: &Vec<u32>) -> (r:
    Result<u64, ParseFail>)
    requires
        len_ok(data@),
        pos_ok(data@, p as int),
        p <= data@.len(),
    ensures
        match fill_groups(data@, p as int, seqs_of_vecs(old(groups)@), sizes@, 0) {
            Ok((g, n)) => r == Ok::<u64, ParseFail>(n as u64) && seqs_of_vecs(final(groups)@) == g
                && p + n <= data@.len(),
            Err(e) => r == Err::<u64, ParseFail>(e),
        },
{
    let ghost target = fill_groups(data@, p as int, seqs_of_vecs(old(groups)@), sizes@, 0);
    let mut k: usize = 0;
    let mut read: u64 = 0;
    while k < groups.len() && k < sizes.len()
        invariant
            len_ok(data@),
            p <= data@.len(),
            p + read <= data@.len(),
            k <= groups.len(),
            target == fill_groups(data@, p as int, seqs_of_vecs(old(groups)@), sizes@, 0),
            target == match fill_groups(
                data@,
                p + read,
                seqs_of_vecs(groups@),
                sizes@,
                k as int,
            ) {
                Ok((g, n)) => Ok((g, n + read as nat)),
                Err(e) => Err(e),
            },
        decreases groups.len() - k,
    {
        let n = sizes[k];
        assert(seqs_of_vecs(groups@).len() == groups@.len());
        if !fits_at(data, p + read, 4 * (n as u64)) {
            return Err(ParseFail::Truncated);
        }
        let ghost before = seqs_of_vecs(groups@);
        let mut members: Vec<u32> = Vec::new();
        std::mem::swap(&mut members, &mut groups[k]);
        append_u32s(data, p + read, n, &mut members);
        groups.set(k, members);
        assert(seqs_of_vecs(groups@) =~= before.update(
            k as int,
            before[k as int] + u32s_at(data@, p + read, n as nat),
        ));
        read = read + 4 * (n as u64);
        k = k + 1;
    }
    Ok(read)
}

/// Passes `remaining` secondary texture-coordinate sets from `p` on; yields
/// the number of bytes passed.
fn pass_uv_sets(data: &[u8], p: u64, remaining: u32) -> (r: Result<u64, ParseFail>)
    requires
        len_ok(data@),
        p <= data@.len() + 8,
    ensures
        match skip_uv_sets(data@, p as int, remaining as nat) {
            Ok(n) => r == Ok::<u64, ParseFail>(n as u64) && pos_ok(data@, p + n),
            Err(e) => r == Err::<u64, ParseFail>(e),
        },
{
    let ghost target = skip_uv_sets(data@, p as int, remaining as nat);
    let mut q: u64 = p;
    let mut left: u32 = remaining;
    while left > 0
        invariant
            len_ok(data@),
            p <= q <= data@.len() + 0x1_0000_0010,
            target == skip_uv_sets(data@, p as int, remaining as nat),
            target == match skip_uv_sets(data@, q as int, left as nat) {
                Ok(n) => Ok(n + (q - p) as nat),
                Err(e) => Err(e),
            },
        decreases left,
    {
        let tag = match read_u32(data, q) {
            Ok(t) => t,
            Err(e) => {
                return Err(e);
            },
        };
        if tag != 0x53425655 {
            q = q + 4;
        } else {
            let count = match read_u32(data, q + 4) {
                Ok(c) => c,
                Err(e) => {
                    return Err(e);
                },
            };
            if 8 * (count as u64) > 0xffff_ffff {
                return Err(ParseFail::SizeOverflow);
            }
            q = q + 8 + 8 * (count as u64);
        }
        left = left - 1;
    }
    Ok(q - p)
}

/// Appends `n` empty matrix groups.
fn append_empty_groups(n: u32, groups: &mut Vec<Vec<u32>>)
    ensures
        seqs_of_vecs(final(groups)@) == seqs_of_vecs(old(groups)@) + Seq::new(
            n as nat,
            |i: int| Seq::<u32>::empty(),
        ),
{
    let ghost start = seqs_of_vecs(old(groups)@);
    let mut i: u32 = 0;
    while i < n
        invariant
            i <= n,
            seqs_of_vecs(groups@) == start + Seq::new(i as nat, |j: int| Seq::<u32>::empty()),
        decreases n - i,
    {
        let ghost before = seqs_of_vecs(groups@);
        groups.push(Vec::new());
        assert(seqs_of_vecs(groups@) =~= before.push(Seq::<u32>::empty()));
        i = i + 1;
        assert(seqs_of_vecs(groups@) =~= start + Seq::new(i as nat, |j: int| Seq::<u32>::empty()));
    }
}

/// Reads the body, starting at `p`, of the geoset sub-chunk with tag `tag`;
/// yields the number of bytes passed.
fn read_geoset_part(data: &[u8], p: u64, tag: u32, d: &mut DraftGeoset) -> (r: Result<u64, ParseFail>)
    requires
        len_ok(data@),
        p <= data@.len(),
    ensures
        match geoset_part(data@, p as int, tag, old(d)@) {
            Ok((d2, n)) => r == Ok::<u64, ParseFail>(n as u64) && final(d)@ == d2 && pos_ok(
                data@,
                p + n,
            ),
            Err(e) => r == Err::<u64, ParseFail>(e),
        },
{
    if tag != 0x58545256 && tag != 0x534d524e && tag != 0x58545650 && tag != 0x58444e47 && tag
        != 0x4347544d && tag != 0x50595450 && tag != 0x544e4350 && tag != 0x5354414d && tag
        != 0x53415655 {
        return Ok(0);
    }
    let len = data.len();
    assert(len == data@.len());
    let count = match read_u32(data, p) {
        Ok(c) => c,
        Err(e) => {
            return Err(e);
        },
    };
    let q = p + 4;
    if tag == 0x58545256 {
        if !fits_at(data, q, 12 * (count as u64)) {
            return Err(ParseFail::Truncated);
        }
        append_vertices(data, q, count, &mut d.geoset.vertices);
        Ok(4 + 12 * (count as u64))
    } else if tag == 0x534d524e {
        if !fits_at(data, q, 12 * (count as u64)) {
            return Err(ParseFail::Truncated);
        }
        append_normals(data, q, count, &mut d.geoset.normals);
        Ok(4 + 12 * (count as u64))
    } else if tag == 0x58545650 {
        if !fits_at(data, q, 2 * (count as u64)) {
            return Err(ParseFail::Truncated);
        }
        append_indices(data, q, count, &mut d.indices);
        Ok(4 + 2 * (count as u64))
    } else if tag == 0x58444e47 {
        if !fits_at(data, q, count as u64) {
            return Err(ParseFail::Truncated);
        }
        append_bytes(data, q, count, &mut d.geoset.vertex_groups);
        Ok(4 + count as u64)
    } else if tag == 0x4347544d {
        if !fits_at(data, q, 4 * (count as u64)) {
            return Err(ParseFail::Truncated);
        }
        append_empty_groups(count, &mut d.geoset.matrix_groups);
        append_u32s(data, q, count, &mut d.group_sizes);
        Ok(4 + 4 * (count as u64))
    } else if tag == 0x50595450 || tag == 0x544e4350 {
        if 4 * (count as u64) > 0xffff_ffff {
            return Err(ParseFail::SizeOverflow);
        }
        Ok(4 + 4 * (count as u64))
    } else if tag == 0x5354414d {
        let n = match read_group_members(data, q, &mut d.geoset.matrix_groups, &d.group_sizes) {
            Ok(n) => n,
            Err(e) => {
                return Err(e);
            },
        };
        let r = q + n;
        if !fits_at(data, r, 44) {
            return Err(ParseFail::Truncated);
        }
        let ru = r as usize;
        let nanim = le_u32(data, ru + 40);
        if 28 * (nanim as u64) > 0xffff_ffff {
            return Err(ParseFail::SizeOverflow);
        }
        d.geoset.material_id = Some(le_u32(data, ru) as usize);
        d.geoset.selection_group = le_u32(data, ru + 4) as usize;
        d.geoset.unselectable = le_u32(data, ru + 8) == 4;
        d.geoset.bounds_radius = le_u32(data, ru + 12);
        d.geoset.minimum_extent = triple(data, r + 16);
        d.geoset.maximum_extent = triple(data, r + 28);
        Ok(4 + n + 44 + 28 * (nanim as u64))
    } else {
        if count == 0 {
            return Ok(4);
        }
        let set_tag = match read_u32(data, q) {
            Ok(t) => t,
            Err(e) => {
                return Err(e);
            },
        };
        if set_tag != 0x53425655 {
            let n = match pass_uv_sets(data, q + 4, count - 1) {
                Ok(n) => n,
                Err(e) => {
                    return Err(e);
                },
            };
            return Ok(8 + n);
        }
        let uvs = match read_u32(data, q + 4) {
            Ok(c) => c,
            Err(e) => {
                return Err(e);
            },
        };
        if !fits_at(data, q + 8, 8 * (uvs as u64)) {
            return Err(ParseFail::Truncated);
        }
        append_tex_coords(data, q + 8, uvs, &mut d.geoset.tex_coords);
        let n = match pass_uv_sets(data, q + 8 + 8 * (uvs as u64), count - 1) {
            Ok(n) => n,
            Err(e) => {
                return Err(e);
            },
        };
        Ok(12 + 8 * (uvs as u64) + n)
    }
}

impl DraftGeoset {
    /// A draft with nothing read yet.
    fn new() -> (d: DraftGeoset)
        ensures
            d@ == empty_draft(),
    {
        DraftGeoset { geoset: Geoset::new(), indices: Vec::new(), group_sizes: Vec::new() }
    }
}

/// Reads the sub-chunks of one geoset from `p` on, until fewer than four
/// bytes are left before `end`.
fn read_geoset_parts(data: &[u8], p: u64, end: u64, d: &mut DraftGeoset) -> (r: Result<(), ParseFail>)
    requires
        len_ok(data@),
        pos_ok(data@, p as int),
        end <= data@.len() + 0x1_0000_0000,
    ensures
        match geoset_parts(data@, p as int, end as int, old(d)@) {
            Ok(d2) => r is Ok && final(d)@ == d2,
            Err(e) => r == Err::<(), ParseFail>(e),
        },
{
    let ghost target = geoset_parts(data@, p as int, end as int, old(d)@);
    let mut q: u64 = p;
    while q < end && end - q >= 4
        invariant
            len_ok(data@),
            pos_ok(data@, q as int),
            end <= data@.len() + 0x1_0000_0000,
            target == geoset_parts(data@, p as int, end as int, old(d)@),
            target == geoset_parts(data@, q as int, end as int, d@),
        decreases room(q as int, end as int),
    {
        let tag = match read_u32(data, q) {
            Ok(t) => t,
            Err(e) => {
                return Err(e);
            },
        };
        let n = match read_geoset_part(data, q + 4, tag, d) {
            Ok(n) => n,
            Err(e) => {
                return Err(e);
            },
        };
        q = q + 4 + n;
    }
    Ok(())
}

/// The triangles of an index list (see [`faces_of`]).
fn faces_from(indices: &Vec<u32>) -> (r: Vec<Face>)
    ensures
        r@ == faces_of(indices@),
{
    let mut faces: Vec<Face> = Vec::new();
    let len = indices.len();
    let n = len / 3;
    let mut k: usize = 0;
    while k < n
        invariant
            len == indices@.len(),
            n == indices@.len() / 3,
            k <= n,
            faces@ =~= faces_of(indices@).subrange(0, k as int),
        decreases n - k,
    {
        assert(3 * k + 2 < indices@.len()) by (nonlinear_arith)
            requires
                k < n,
                n == indices@.len() / 3,
        ;
        let f = Face { vertices: [indices[3 * k], indices[3 * k + 1], indices[3 * k + 2]] };
        faces.push(f);
        k = k + 1;
        assert(faces@ =~= faces_of(indices@).subrange(0, k as int));
    }
    assert(faces_of(indices@).subrange(0, n as int) =~= faces_of(indices@));
    faces
}

/// Reads the geosets of a `GEOS` chunk from `p` up to `end`; yields where
/// reading stopped.
fn read_geosets(data: &[u8], p: u64, end: u64, model: &mut Model) -> (r: Result<u64, ParseFail>)
    requires
        len_ok(data@),
        p <= end,
        end <= data@.len() + 0x1_0000_0000,
    ensures
        match geosets(data@, p as int, end as int, old(model)@) {
            Ok((m, q)) => r == Ok::<u64, ParseFail>(q as u64) && final(model)@ == m && pos_ok(data@, q),
            Err(e) => r == Err::<u64, ParseFail>(e),
        },
{
    reveal(geosets);
    let ghost target = geosets(data@, p as int, end as int, old(model)@);
    let mut q: u64 = p;
    while q < end
        invariant
            len_ok(data@),
            q <= end,
            end <= data@.len() + 0x1_0000_0000,
            target == geosets(data@, p as int, end as int, old(model)@),
            target == geosets(data@, q as int, end as int, model@),
        decreases room(q as int, end as int),
    {
        reveal(geosets);
        let size = match read_u32(data, q) {
            Ok(v) => v,
            Err(e) => {
                return Err(e);
            },
        };
        if size == 0 || size as u64 > end - q {
            return Ok(q + 4);
        }
        let mut d = DraftGeoset::new();
        match read_geoset_parts(data, q + 4, q + size as u64, &mut d) {
            Ok(()) => {},
            Err(e) => {
                return Err(e);
            },
        }
        let ghost dv = d@;
        let DraftGeoset { geoset: mut g, indices, group_sizes: _ } = d;
        g.faces = faces_from(&indices);
        assert(g@ == finish_geoset(dv));
        if g.vertices.len() > 0 {
            let ghost before = model@;
            model.geosets.push(g);
            assert(model@.geosets =~= before.geosets.push(finish_geoset(dv)));
        }
        q = q + size as u64;
    }
    Ok(q)
}

/// Reads `n` animation sequences from `p` on; yields where reading stopped.
fn read_sequences(data: &[u8], p: u64, n: u32, model: &mut Model) -> (r: Result<u64, ParseFail>)
    requires
        len_ok(data@),
        p <= data@.len(),
    ensures
        match sequences(data@, p as int, n as nat, old(model)@) {
            Ok((m, q)) => r == Ok::<u64, ParseFail>(q as u64) && final(model)@ == m && pos_ok(data@, q),
            Err(e) => r == Err::<u64, ParseFail>(e),
        },
{
    reveal(sequences);
    let ghost target = sequences(data@, p as int, n as nat, old(model)@);
    let len = data.len();
    let mut q: u64 = p;
    let mut left: u32 = n;
    while left > 0
        invariant
            len_ok(data@),
            len == data@.len(),
            q <= data@.len() + 132,
            target == sequences(data@, p as int, n as nat, old(model)@),
            target == sequences(data@, q as int, left as nat, model@),
        decreases left,
    {
        reveal(sequences);
        if !fits_at(data, q, 100) {
            return Err(ParseFail::Truncated);
        }
        let qu = q as usize;
        let seq = Sequence {
            name: read_trimmed_text(data, qu, 80),
            start_frame: le_u32(data, qu + 80),
            end_frame: le_u32(data, qu + 84),
            rarity: Some(float_bits_to_u32_exec(le_u32(data, qu + 96))),
            non_looping: le_u32(data, qu + 92) != 0,
        };
        assert(seq@ == sequence_at(data@, q as int));
        let ghost before = model@;
        model.sequences.push(seq);
        assert(model@.sequences =~= before.sequences.push(sequence_at(data@, q as int)));
        q = q + 132;
        left = left - 1;
    }
    Ok(q)
}

/// Reads `n` texture records from `p` on; yields where reading stopped.
fn read_textures(data: &[u8], p: u64, n: u32, model: &mut Model) -> (r: Result<u64, ParseFail>)
    requires
        len_ok(data@),
        p <= data@.len(),
    ensures
        match textures(data@, p as int, n as nat, old(model)@) {
            Ok((m, q)) => r == Ok::<u64, ParseFail>(q as u64) && final(model)@ == m && pos_ok(data@, q),
            Err(e) => r == Err::<u64, ParseFail>(e),
        },
{
    reveal(textures);
    let ghost target = textures(data@, p as int, n as nat, old(model)@);
    let len = data.len();
    let mut q: u64 = p;
    let mut left: u32 = n;
    while left > 0
        invariant
            len_ok(data@),
            len == data@.len(),
            q <= data@.len(),
            target == textures(data@, p as int, n as nat, old(model)@),
            target == textures(data@, q as int, left as nat, model@),
        decreases left,
    {
        reveal(textures);
        if !fits_at(data, q, 268) {
            return Err(ParseFail::Truncated);
        }
        let qu = q as usize;
        let tex = Texture {
            filename: read_trimmed_text(data, qu + 4, 256),
            replaceable_id: le_u32(data, qu),
            image_data: None,
            width: 0,
            height: 0,
        };
        assert(tex@ == texture_at(data@, q as int));
        let ghost before = model@;
        model.textures.push(tex);
        assert(model@.textures =~= before.textures.push(texture_at(data@, q as int)));
        q = q + 268;
        left = left - 1;
    }
    Ok(q)
}

/// Gives pivot point `i` to a bone or helper (see [`assign_pivot`]).
fn set_pivot(model: &mut Model, i: usize, v: [u32; 3])
    ensures
        final(model)@ == assign_pivot(old(model)@, i as int, v),
{
    let ghost before = model@;
    let nb = model.bones.len();
    if i < nb {
        model.bones[i].pivot_point = v;
        assert(model@.bones =~= before.bones.update(
            i as int,
            SpecBone { pivot_point: v, ..before.bones[i as int] },
        ));
    } else if i - nb < model.helpers.len() {
        let h = i - nb;
        model.helpers[h].pivot_point = v;
        assert(model@.helpers =~= before.helpers.update(
            h as int,
            SpecHelper { pivot_point: v, ..before.helpers[h as int] },
        ));
    }
}

/// Reads `n` pivot points from `p` on; yields where reading stopped.
fn read_pivots(data: &[u8], p: u64, n: u32, model: &mut Model) -> (r: Result<u64, ParseFail>)
    requires
        len_ok(data@),
        p <= data@.len(),
    ensures
        match pivots(data@, p as int, 0, n as nat, old(model)@) {
            Ok((m, q)) => r == Ok::<u64, ParseFail>(q as u64) && final(model)@ == m && pos_ok(data@, q),
            Err(e) => r == Err::<u64, ParseFail>(e),
        },
{
    reveal(pivots);
    let ghost target = pivots(data@, p as int, 0, n as nat, old(model)@);
    let mut q: u64 = p;
    let mut i: u32 = 0;
    while i < n
        invariant
            len_ok(data@),
            i <= n,
            q <= data@.len(),
            target == pivots(data@, p as int, 0, n as nat, old(model)@),
            target == pivots(data@, q as int, i as nat, n as nat, model@),
        decreases n - i,
    {
        reveal(pivots);
        if !fits_at(data, q, 12) {
            return Err(ParseFail::Truncated);
        }
        let v = triple(data, q);
        set_pivot(model, i as usize, v);
        q = q + 12;
        i = i + 1;
    }
    Ok(q)
}

/// Reads the keyframe at `p`.
fn read_keyframe(data: &[u8], p: u64, elems: u32, tan: bool) -> (r: Keyframe)
    requires
        elems <= 4,
        fits(data@, p as int, keyframe_size(elems as nat, tan) as int),
    ensures
        r@ == keyframe_at(data@, p as int, elems as nat, tan),
{
    let len = data.len();
    let frame = #[verifier::truncate] (le_u32(data, p as usize) as i32);
    let mut values: Vec<u32> = Vec::new();
    append_u32s(data, p + 4, elems, &mut values);
    let mut in_tan: Vec<u32> = Vec::new();
    let mut out_tan: Vec<u32> = Vec::new();
    if tan {
        append_u32s(data, p + 4 + 4 * (elems as u64), elems, &mut in_tan);
        append_u32s(data, p + 4 + 8 * (elems as u64), elems, &mut out_tan);
    }
    let k = Keyframe { frame, data: values, in_tan, out_tan };
    assert(k@.data =~= u32s_at(data@, p + 4, elems as nat));
    assert(k@.in_tan =~= keyframe_at(data@, p as int, elems as nat, tan).in_tan);
    assert(k@.out_tan =~= keyframe_at(data@, p as int, elems as nat, tan).out_tan);
    k
}

/// Reads the animation track with tag `tag` at `p` when it is there (see
/// [`controller`]); yields the new controller's index (-1 when absent) and
/// the position after the track.
fn read_controller(data: &[u8], p: u64, tag: u32, elems: u32, model: &mut Model) -> (r: Result<
    (i32, u64),
    ParseFail,
>)
    requires
        len_ok(data@),
        p <= data@.len(),
        elems <= 4,
    ensures
        match controller(data@, p as int, tag, elems as nat, old(model)@) {
            Ok((i, m, q)) => r == Ok::<(i32, u64), ParseFail>((i, q as u64)) && final(model)@ == m
                && p <= q <= data@.len(),
            Err(e) => r == Err::<(i32, u64), ParseFail>(e),
        },
{
    reveal(controller);
    let len = data.len();
    if !fits_at(data, p, 4) || le_u32(data, p as usize) != tag {
        return Ok((-1, p));
    }
    if !fits_at(data, p + 4, 12) {
        return Err(ParseFail::Truncated);
    }
    let pu = p as usize;
    let n = le_u32(data, pu + 4);
    let interpolation = le_u32(data, pu + 8);
    let global_seq_id = #[verifier::truncate] (le_u32(data, pu + 12) as i32);
    let tan = interpolation == 2 || interpolation == 3;
    let per: u64 = if tan { 3 } else { 1 };
    let ksize: u64 = 4 + 4 * (elems as u64) * per;
    assert(ksize == keyframe_size(elems as nat, tan));
    assert(ksize <= 52);
    assert((n as u64) * ksize <= 0xffff_ffff * 52) by (nonlinear_arith)
        requires
            ksize <= 52,
            n <= 0xffff_ffff,
    ;
    let total: u64 = (n as u64) * ksize;
    if !fits_at(data, p + 16, total) {
        return Err(ParseFail::Truncated);
    }
    let base = p + 16;
    let mut keyframes: Vec<Keyframe> = Vec::new();
    let mut k: u32 = 0;
    let mut q: u64 = base;
    while k < n
        invariant
            len_ok(data@),
            elems <= 4,
            k <= n,
            ksize == keyframe_size(elems as nat, tan),
            ksize <= 52,
            total == n * ksize,
            fits(data@, base as int, total as int),
            q == base + k * ksize,
            views_of(keyframes@) =~= keyframes_at(data@, base as int, k as nat, elems as nat, tan),
        decreases n - k,
    {
        assert(q + ksize <= base + total) by (nonlinear_arith)
            requires
                q == base + k * ksize,
                k < n,
                total == n * ksize,
        ;
        let kf = read_keyframe(data, q, elems, tan);
        let ghost before = views_of(keyframes@);
        keyframes.push(kf);
        assert(views_of(keyframes@) =~= before.push(kf@));
        assert(q + ksize == base + (k + 1) * ksize) by (nonlinear_arith)
            requires
                q == base + k * ksize,
        ;
        q = q + ksize;
        k = k + 1;
        assert(views_of(keyframes@) =~= keyframes_at(data@, base as int, k as nat, elems as nat, tan));
    }
    let index = #[verifier::truncate] (model.controllers.len() as i32);
    let c = AnimationController { interpolation_type: interpolation, global_seq_id, keyframes };
    let ghost before = model@;
    model.controllers.push(c);
    assert(model@.controllers =~= before.controllers.push(c@));
    Ok((index, base + total))
}

/// The fields of a node record that bones and helpers share.
struct NodeRecord {
    name: String,
    object_id: u32,
    parent_id: i32,
    translation_idx: i32,
    rotation_idx: i32,
    scaling_idx: i32,
    visibility_idx: i32,
}

impl View for NodeRecord {
    type V = NodeFields;

    closed spec fn view(&self) -> NodeFields {
        NodeFields {
            name: self.name@,
            object_id: self.object_id,
            parent_id: self.parent_id,
            translation_idx: self.translation_idx,
            rotation_idx: self.rotation_idx,
            scaling_idx: self.scaling_idx,
            visibility_idx: self.visibility_idx,
        }
    }
}

/// Reads the node record at `p` with its four optional tracks.
#[verifier::rlimit(50)]
fn read_node(data: &[u8], p: u64, model: &mut Model) -> (r: Result<NodeRecord, ParseFail>)
    requires
        len_ok(data@),
        p <= data@.len(),
    ensures
        match node(data@, p as int, old(model)@) {
            Ok((f, m)) => r is Ok && r->Ok_0@ == f && final(model)@ == m,
            Err(e) => r is Err && r->Err_0 == e,
        },
{
    if !fits_at(data, p, 96) {
        return Err(ParseFail::Truncated);
    }
    let len = data.len();
    assert(len == data@.len());
    let ghost s = data@;
    let ghost m0 = model@;
    let (t, q1) = match read_controller(data, p + 96, 0x5254474b, 3, model) {
        Ok(x) => x,
        Err(e) => {
            assert(controller(s, p + 96, TAG_KGTR(), 3, m0) == Err::<(i32, SpecModel, int), ParseFail>(e));
            return Err(e);
        },
    };
    let ghost m1 = model@;
    assert(controller(s, p + 96, TAG_KGTR(), 3, m0) == Ok::<(i32, SpecModel, int), ParseFail>((t, m1, q1 as int)));
    let (rot, q2) = match read_controller(data, q1, 0x5452474b, 4, model) {
        Ok(x) => x,
        Err(e) => {
            assert(controller(s, q1 as int, TAG_KGRT(), 4, m1) == Err::<(i32, SpecModel, int), ParseFail>(e));
            return Err(e);
        },
    };
    let ghost m2 = model@;
    assert(controller(s, q1 as int, TAG_KGRT(), 4, m1) == Ok::<(i32, SpecModel, int), ParseFail>((rot, m2, q2 as int)));
    let (sc, q3) = match read_controller(data, q2, 0x4353474b, 3, model) {
        Ok(x) => x,
        Err(e) => {
            assert(controller(s, q2 as int, TAG_KGSC(), 3, m2) == Err::<(i32, SpecModel, int), ParseFail>(e));
            return Err(e);
        },
    };
    let ghost m3 = model@;
    assert(controller(s, q2 as int, TAG_KGSC(), 3, m2) == Ok::<(i32, SpecModel, int), ParseFail>((sc, m3, q3 as int)));
    let (v, q4) = match read_controller(data, q3, 0x56414c4b, 1, model) {
        Ok(x) => x,
        Err(e) => {
            assert(controller(s, q3 as int, TAG_KLAV(), 1, m3) == Err::<(i32, SpecModel, int), ParseFail>(e));
            return Err(e);
        },
    };
    let ghost m4 = model@;
    assert(controller(s, q3 as int, TAG_KLAV(), 1, m3) == Ok::<(i32, SpecModel, int), ParseFail>((v, m4, q4 as int)));
    let pu = p as usize;
    let rec = NodeRecord {
        name: read_trimmed_text(data, pu + 4, 80),
        object_id: le_u32(data, pu + 84),
        parent_id: #[verifier::truncate] (le_u32(data, pu + 88) as i32),
        translation_idx: t,
        rotation_idx: rot,
        scaling_idx: sc,
        visibility_idx: v,
    };
    Ok(rec)
}

/// A signed id kept when it is not negative.
fn optional_id_exec(v: i32) -> (r: Option<u32>)
    ensures
        r == optional_id(v),
{
    if v >= 0 {
        Some(v as u32)
    } else {
        None
    }
}

/// Reads the bones of a `BONE` chunk from `p` up to `end`.
fn read_bones(data: &[u8], p: u64, end: u64, model: &mut Model) -> (r: Result<u64, ParseFail>)
    requires
        len_ok(data@),
        p <= data@.len(),
        end <= data@.len() + 0x1_0000_0000,
    ensures
        match bones(data@, p as int, end as int, old(model)@) {
            Ok((m, q)) => r == Ok::<u64, ParseFail>(q as u64) && final(model)@ == m && pos_ok(data@, q),
            Err(e) => r == Err::<u64, ParseFail>(e),
        },
{
    reveal(bones);
    let ghost target = bones(data@, p as int, end as int, old(model)@);
    let len = data.len();
    let mut q: u64 = p;
    while q < end
        invariant
            len_ok(data@),
            len == data@.len(),
            q <= data@.len(),
            end <= data@.len() + 0x1_0000_0000,
            target == bones(data@, p as int, end as int, old(model)@),
            target == bones(data@, q as int, end as int, model@),
        decreases room(q as int, end as int),
    {
        reveal(bones);
        let size = match read_u32(data, q) {
            Ok(v) => v,
            Err(e) => {
                return Err(e);
            },
        };
        let f = match read_node(data, q, model) {
            Ok(f) => f,
            Err(e) => {
                return Err(e);
            },
        };
        let next = q + size as u64;
        if !fits_at(data, next, 8) {
            return Err(ParseFail::Truncated);
        }
        let nu = next as usize;
        let b = Bone {
            name: f.name,
            object_id: f.object_id,
            parent_id: f.parent_id,
            pivot_point: [0, 0, 0],
            geoset_id: optional_id_exec(#[verifier::truncate] (le_u32(data, nu) as i32)),
            geoset_anim_id: optional_id_exec(#[verifier::truncate] (le_u32(data, nu + 4) as i32)),
            translation_idx: f.translation_idx,
            rotation_idx: f.rotation_idx,
            scaling_idx: f.scaling_idx,
            visibility_idx: f.visibility_idx,
        };
        let ghost before = model@;
        let ghost bv = b@;
        model.bones.push(b);
        assert(model@.bones =~= before.bones.push(bv));
        q = next + 8;
    }
    Ok(q)
}

/// Reads the helpers of a `HELP` chunk from `p` up to `end`.
fn read_helpers(data: &[u8], p: u64, end: u64, model: &mut Model) -> (r: Result<u64, ParseFail>)
    requires
        len_ok(data@),
        p <= data@.len(),
        end <= data@.len() + 0x1_0000_0000,
    ensures
        match helpers(data@, p as int, end as int, old(model)@) {
            Ok((m, q)) => r == Ok::<u64, ParseFail>(q as u64) && final(model)@ == m && pos_ok(data@, q),
            Err(e) => r == Err::<u64, ParseFail>(e),
        },
{
    reveal(helpers);
    let ghost target = helpers(data@, p as int, end as int, old(model)@);
    let mut q: u64 = p;
    while q < end
        invariant
            len_ok(data@),
            q <= data@.len() + 0x1_0000_0000,
            end <= data@.len() + 0x1_0000_0000,
            target == helpers(data@, p as int, end as int, old(model)@),
            target == helpers(data@, q as int, end as int, model@),
        decreases room(q as int, end as int),
    {
        reveal(helpers);
        let size = match read_u32(data, q) {
            Ok(v) => v,
            Err(e) => {
                return Err(e);
            },
        };
        let f = match read_node(data, q, model) {
            Ok(f) => f,
            Err(e) => {
                return Err(e);
            },
        };
        if size == 0 {
            return Err(ParseFail::Stalled);
        }
        let h = Helper {
            name: f.name,
            object_id: f.object_id,
            parent_id: f.parent_id,
            pivot_point: [0, 0, 0],
            translation_idx: f.translation_idx,
            rotation_idx: f.rotation_idx,
            scaling_idx: f.scaling_idx,
            visibility_idx: f.visibility_idx,
        };
        let ghost before = model@;
        let ghost hv = h@;
        model.helpers.push(h);
        assert(model@.helpers =~= before.helpers.push(hv));
        q = q + size as u64;
    }
    Ok(q)
}

/// The blend mode of a layer's filter-mode code (see [`filter_mode_of`]).
pub fn filter_mode_from_code(code: u32) -> (r: FilterMode)
    ensures
        r == filter_mode_of(code),
{
    if code == 0 || code == 1 {
        FilterMode::Opaque
    } else if code == 2 || code == 3 {
        FilterMode::Transparent
    } else if code == 4 {
        FilterMode::Additive
    } else if code == 5 {
        FilterMode::Modulate
    } else if code == 6 {
        FilterMode::Modulate2x
    } else if code == 7 {
        FilterMode::AddAlpha
    } else {
        FilterMode::Blend
    }
}

/// Reads `n` layer records from `p` on.
fn read_layers(data: &[u8], p: u64, n: u32) -> (r: Result<Vec<Layer>, ParseFail>)
    requires
        len_ok(data@),
        p <= data@.len(),
    ensures
        match layers(data@, p as int, n as nat, Seq::empty()) {
            Ok(ls) => r is Ok && views_of(r->Ok_0@) == ls,
            Err(e) => r is Err && r->Err_0 == e,
        },
{
    let ghost target = layers(data@, p as int, n as nat, Seq::empty());
    let len = data.len();
    let mut out: Vec<Layer> = Vec::new();
    let mut q: u64 = p;
    let mut left: u32 = n;
    assert(views_of(out@) =~= Seq::<SpecLayer>::empty());
    while left > 0
        invariant
            len_ok(data@),
            len == data@.len(),
            q <= data@.len() + 0x1_0000_0000,
            target == layers(data@, p as int, n as nat, Seq::empty()),
            target == layers(data@, q as int, left as nat, views_of(out@)),
        decreases left,
    {
        if !fits_at(data, q, 28) {
            return Err(ParseFail::Truncated);
        }
        let qu = q as usize;
        let size = le_u32(data, qu);
        let layer = Layer {
            texture_id: Some(le_u32(data, qu + 12) as usize),
            filter_mode: filter_mode_from_code(le_u32(data, qu + 4)),
            shading_flags: ShadingFlags::from_bits(le_u32(data, qu + 8)),
            alpha: le_u32(data, qu + 24),
        };
        assert(layer@ == layer_at(data@, q + 4));
        let ghost before = views_of(out@);
        out.push(layer);
        assert(views_of(out@) =~= before.push(layer_at(data@, q + 4)));
        q = q + size as u64;
        left = left - 1;
    }
    Ok(out)
}

/// Reads the materials of an `MTLS` chunk from `p` up to `end`.
fn read_materials(data: &[u8], p: u64, end: u64, model: &mut Model) -> (r: Result<u64, ParseFail>)
    requires
        len_ok(data@),
        p <= data@.len(),
        end <= data@.len() + 0x1_0000_0000,
    ensures
        match materials(data@, p as int, end as int, old(model)@) {
            Ok((m, q)) => r == Ok::<u64, ParseFail>(q as u64) && final(model)@ == m && pos_ok(data@, q),
            Err(e) => r == Err::<u64, ParseFail>(e),
        },
{
    reveal(materials);
    let ghost target = materials(data@, p as int, end as int, old(model)@);
    let len = data.len();
    let mut q: u64 = p;
    while q < end
        invariant
            len_ok(data@),
            len == data@.len(),
            q <= data@.len() + 0x1_0000_0000,
            end <= data@.len() + 0x1_0000_0000,
            target == materials(data@, p as int, end as int, old(model)@),
            target == materials(data@, q as int, end as int, model@),
        decreases room(q as int, end as int),
    {
        reveal(materials);
        if !fits_at(data, q, 16) {
            return Err(ParseFail::Truncated);
        }
        let qu = q as usize;
        let size = le_u32(data, qu);
        let tag = le_u32(data, qu + 12);
        if tag == 0x5359414c {
            let count = match read_u32(data, q + 16) {
                Ok(c) => c,
                Err(e) => {
                    return Err(e);
                },
            };
            let ls = match read_layers(data, q + 20, count) {
                Ok(ls) => ls,
                Err(e) => {
                    return Err(e);
                },
            };
            let mat = Material { layers: ls };
            let ghost before = model@;
            let ghost mv = mat@;
            model.materials.push(mat);
            assert(model@.materials =~= before.materials.push(mv));
        }
        if size == 0 {
            return Err(ParseFail::Stalled);
        }
        q = q + size as u64;
    }
    Ok(q)
}

/// Reads the body of the chunk with tag `tag` and `size` bytes starting at
/// `start`; yields where reading stopped.
fn read_chunk(data: &[u8], tag: u32, start: u64, size: u32, model: &mut Model) -> (r: Result<
    u64,
    ParseFail,
>)
    requires
        len_ok(data@),
        start <= data@.len(),
    ensures
        match chunk(data@, tag, start as int, size as nat, old(model)@) {
            Ok((m, q)) => r == Ok::<u64, ParseFail>(q as u64) && final(model)@ == m && pos_ok(data@, q),
            Err(e) => r == Err::<u64, ParseFail>(e),
        },
{
    reveal(chunk);
    let len = data.len();
    assert(len == data@.len());
    let end = start + size as u64;
    assert(size / 132 == size as nat / 132 && size / 268 == size as nat / 268 && size / 12 == size as nat / 12);
    if tag == 0x53524556 {
        if !fits_at(data, start, 4) {
            return Err(ParseFail::Truncated);
        }
        Ok(start + 4)
    } else if tag == 0x4c444f4d {
        if !fits_at(data, start + 8, 336) {
            return Err(ParseFail::Truncated);
        }
        let name = read_field_text(data, (start + 8) as usize, 336);
        model.name = name;
        Ok(start + 344)
    } else if tag == 0x534f4547 {
        read_geosets(data, start, end, model)
    } else if tag == 0x53514553 {
        read_sequences(data, start, size / 132, model)
    } else if tag == 0x53584554 {
        read_textures(data, start, size / 268, model)
    } else if tag == 0x454e4f42 {
        read_bones(data, start, end, model)
    } else if tag == 0x504c4548 {
        read_helpers(data, start, end, model)
    } else if tag == 0x54564950 {
        read_pivots(data, start, size / 12, model)
    } else if tag == 0x534c544d {
        read_materials(data, start, end, model)
    } else {
        Ok(end)
    }
}

/// Reads chunks from `p` on until fewer than four bytes are left for a tag.
fn read_chunks(data: &[u8], p: u64, model: &mut Model) -> (r: Result<(), ParseFail>)
    requires
        len_ok(data@),
        pos_ok(data@, p as int),
    ensures
        match chunks(data@, p as int, old(model)@) {
            Ok(m) => r is Ok && final(model)@ == m,
            Err(e) => r == Err::<(), ParseFail>(e),
        },
{
    let ghost target = chunks(data@, p as int, old(model)@);
    let len = data.len();
    let mut q: u64 = p;
    while fits_at(data, q, 4)
        invariant
            len_ok(data@),
            len == data@.len(),
            pos_ok(data@, q as int),
            target == chunks(data@, p as int, old(model)@),
            target == chunks(data@, q as int, model@),
        decreases room(q as int, data@.len() as int + 1),
    {
        let ghost m0 = model@;
        let size = match read_u32(data, q + 4) {
            Ok(v) => v,
            Err(e) => {
                return Err(e);
            },
        };
        let tag = le_u32(data, q as usize);
        let start = q + 8;
        let cur = match read_chunk(data, tag, start, size, model) {
            Ok(c) => c,
            Err(e) => {
                assert(chunk(data@, tag, start as int, size as nat, m0) == Err::<(SpecModel, int), ParseFail>(e));
                return Err(e);
            },
        };
        assert(chunk(data@, tag, start as int, size as nat, m0) == Ok::<(SpecModel, int), ParseFail>((model@, cur as int)));
        let end = start + size as u64;
        q = if cur > end {
            cur
        } else {
            end
        };
    }
    Ok(())
}

/// Reads an MDX model whose chunks follow the four-byte magic.
pub fn parse_mdx(data: &[u8]) -> (r: Result<Model, ParseFail>)
    requires
        len_ok(data@),
    ensures
        match mdx_model(data@) {
            Ok(m) => r is Ok && r->Ok_0@ == m,
            Err(e) => r is Err && r->Err_0 == e,
        },
{
    let mut model = Model::named("MDX Model".to_string());
    match read_chunks(data, 4, &mut model) {
        Ok(()) => Ok(model),
        Err(e) => Err(e),
    }
}

} // verus!
