//! What the renderer uploads for a model: one vertex buffer and one index
//! buffer for all geosets, and the index range of each geoset.
use crate::model::{views_of, Geoset, Model, SpecGeoset, SpecModel};
use vstd::prelude::*;

verus! {

/// A vertex as the renderer stores it (float bit patterns).
#[derive(Clone, Copy, Debug, PartialEq)]
pub struct MeshVertex {
    pub position: [u32; 3],
    pub normal: [u32; 3],
    pub uv: [u32; 2],
}

/// The part of the index buffer that draws one geoset.
#[derive(Clone, Copy, Debug, PartialEq)]
pub struct GeosetRange {
    pub index_start: u32,
    pub index_count: u32,
    pub material_id: Option<usize>,
}

/// The buffers that draw a model.
#[derive(Clone, Debug)]
pub struct Mesh {
    pub vertices: Vec<MeshVertex>,
    pub indices: Vec<u16>,
    pub geosets: Vec<GeosetRange>,
}

/// Mathematical value of a [`Mesh`].
pub struct SpecMesh {
    pub vertices: Seq<MeshVertex>,
    pub indices: Seq<u16>,
    pub geosets: Seq<GeosetRange>,
}

impl View for Mesh {
    type V = SpecMesh;

    open spec fn view(&self) -> SpecMesh {
        SpecMesh { vertices: self.vertices@, indices: self.indices@, geosets: self.geosets@ }
    }
}

/// Bit pattern of the float 1.0.
pub open spec fn one_bits() -> u32 {
    0x3f80_0000
}

/// Vertex `i` of a geoset: a missing normal points up the z axis, a
/// missing texture coordinate is (0, 0).
pub open spec fn mesh_vertex(g: SpecGeoset, i: int) -> MeshVertex {
    MeshVertex {
        position: g.vertices[i].position,
        normal: if i < g.normals.len() {
            g.normals[i].normal
        } else {
            [0, 0, one_bits()]
        },
        uv: if i < g.tex_coords.len() {
            g.tex_coords[i].uv
        } else {
            [0, 0]
        },
    }
}

/// The vertices that a geoset contributes.
pub open spec fn geoset_vertices(g: SpecGeoset) -> Seq<MeshVertex> {
    Seq::new(g.vertices.len(), |i: int| mesh_vertex(g, i))
}

/// The vertices of a list of geosets, one geoset after another.
pub open spec fn mesh_vertices(gs: Seq<SpecGeoset>) -> Seq<MeshVertex>
    decreases gs.len(),
{
    if gs.len() == 0 {
        Seq::empty()
    } else {
        mesh_vertices(gs.drop_last()) + geoset_vertices(gs.last())
    }
}

/// The indices of the first `n` faces of a geoset whose vertices start at
/// `base` in the vertex buffer, each kept to its low 16 bits.
pub open spec fn face_indices(g: SpecGeoset, base: int, n: int) -> Seq<u16>
    decreases n,
{
    if n <= 0 {
        Seq::empty()
    } else {
        let f = g.faces[n - 1].vertices;
        face_indices(g, base, n - 1) + seq![
            (base + f[0]) as u16,
            (base + f[1]) as u16,
            (base + f[2]) as u16,
        ]
    }
}

/// The indices of a list of geosets, one geoset after another.
pub open spec fn mesh_indices(gs: Seq<SpecGeoset>) -> Seq<u16>
    decreases gs.len(),
{
    if gs.len() == 0 {
        Seq::empty()
    } else {
        mesh_indices(gs.drop_last()) + face_indices(
            gs.last(),
            mesh_vertices(gs.drop_last()).len() as int,
            gs.last().faces.len() as int,
        )
    }
}

/// The index range of each of a list of geosets.
pub open spec fn mesh_ranges(gs: Seq<SpecGeoset>) -> Seq<GeosetRange>
    decreases gs.len(),
{
    if gs.len() == 0 {
        Seq::empty()
    } else {
        mesh_ranges(gs.drop_last()).push(
            GeosetRange {
                index_start: mesh_indices(gs.drop_last()).len() as u32,
                index_count: (3 * gs.last().faces.len()) as u32,
                material_id: gs.last().material_id,
            },
        )
    }
}

/// Whether the buffers of a list of geosets can be built without any
/// 32-bit count or index overflowing: fewer than `2^32` vertices and
/// indices in all, and each face's index plus the position of its
/// geoset's first vertex below `2^32`.
pub open spec fn mesh_fits(gs: Seq<SpecGeoset>) -> bool
    decreases gs.len(),
{
    if gs.len() == 0 {
        true
    } else {
        let base = mesh_vertices(gs.drop_last()).len();
        let g = gs.last();
        &&& mesh_fits(gs.drop_last())
        &&& base + g.vertices.len() <= u32::MAX
        &&& mesh_indices(gs.drop_last()).len() + 3 * g.faces.len() <= u32::MAX
        &&& forall|k: int, j: int|
            0 <= k < g.faces.len() && 0 <= j < 3 ==> base + #[trigger] g.faces[k].vertices[j]
                <= u32::MAX
    }
}

/// The buffers of a model: `None` when it has no geosets, in which case
/// the renderer keeps what it has.
pub open spec fn mesh_of(m: SpecModel) -> Option<SpecMesh> {
    if m.geosets.len() == 0 {
        None
    } else {
        Some(
            SpecMesh {
                vertices: mesh_vertices(m.geosets),
                indices: mesh_indices(m.geosets),
                geosets: mesh_ranges(m.geosets),
            },
        )
    }
}

proof fn lemma_face_indices_len(g: SpecGeoset, base: int, n: int)
    ensures
        face_indices(g, base, n).len() == if n <= 0 {
            0
        } else {
            3 * n
        },
    decreases n,
{
    if n > 0 {
        lemma_face_indices_len(g, base, n - 1);
    }
}

/// Appends the vertices of one geoset.
fn push_geoset_vertices(g: &Geoset, out: &mut Vec<MeshVertex>)
    ensures
        final(out)@ == old(out)@ + geoset_vertices(g@),
{
    let ghost start = old(out)@;
    let n = g.vertices.len();
    let mut i: usize = 0;
    while i < n
        invariant
            n == g.vertices@.len(),
            i <= n,
            out@ =~= start + geoset_vertices(g@).subrange(0, i as int),
        decreases n - i,
    {
        let normal = if i < g.normals.len() {
            g.normals[i].normal
        } else {
            [0, 0, 0x3f80_0000]
        };
        let uv = if i < g.tex_coords.len() {
            g.tex_coords[i].uv
        } else {
            [0, 0]
        };
        let v = MeshVertex { position: g.vertices[i].position, normal, uv };
        assert(v == mesh_vertex(g@, i as int));
        out.push(v);
        i = i + 1;
        assert(out@ =~= start + geoset_vertices(g@).subrange(0, i as int));
    }
    assert(geoset_vertices(g@).subrange(0, n as int) =~= geoset_vertices(g@));
}

/// Appends the indices of one geoset whose vertices start at `base`.
fn push_geoset_indices(g: &Geoset, base: u32, out: &mut Vec<u16>)
    requires
        forall|k: int, j: int|
            0 <= k < g@.faces.len() && 0 <= j < 3 ==> base + #[trigger] g@.faces[k].vertices[j]
                <= u32::MAX,
    ensures
        final(out)@ == old(out)@ + face_indices(g@, base as int, g@.faces.len() as int),
{
    let ghost start = old(out)@;
    let n = g.faces.len();
    let mut k: usize = 0;
    while k < n
        invariant
            n == g.faces@.len(),
            k <= n,
            forall|k: int, j: int|
                0 <= k < g@.faces.len() && 0 <= j < 3 ==> base + #[trigger] g@.faces[k].vertices[j]
                    <= u32::MAX,
            out@ =~= start + face_indices(g@, base as int, k as int),
        decreases n - k,
    {
        let f = g.faces[k].vertices;
        assert(base + g@.faces[k as int].vertices[0] <= u32::MAX);
        assert(base + g@.faces[k as int].vertices[1] <= u32::MAX);
        assert(base + g@.faces[k as int].vertices[2] <= u32::MAX);
        out.push(#[verifier::truncate] ((base + f[0]) as u16));
        out.push(#[verifier::truncate] ((base + f[1]) as u16));
        out.push(#[verifier::truncate] ((base + f[2]) as u16));
        k = k + 1;
        assert(out@ =~= start + face_indices(g@, base as int, k as int));
    }
}

/// The buffers of a model (see [`mesh_of`]).
pub fn build_mesh(model: &Model) -> (r: Option<Mesh>)
    requires
        mesh_fits(model@.geosets),
    ensures
        match mesh_of(model@) {
            None => r is None,
            Some(mesh) => r is Some && r->Some_0@ == mesh,
        },
{
    let n = model.geosets.len();
    if n == 0 {
        return None;
    }
    let ghost gs = model@.geosets;
    let mut vertices: Vec<MeshVertex> = Vec::new();
    let mut indices: Vec<u16> = Vec::new();
    let mut ranges: Vec<GeosetRange> = Vec::new();
    let mut i: usize = 0;
    while i < n
        invariant
            n == gs.len(),
            gs == model@.geosets,
            mesh_fits(gs),
            i <= n,
            vertices@ == mesh_vertices(gs.take(i as int)),
            indices@ == mesh_indices(gs.take(i as int)),
            ranges@ == mesh_ranges(gs.take(i as int)),
        decreases n - i,
    {
        let g = &model.geosets[i];
        let ghost pre = gs.take(i as int);
        proof {
            assert(gs.take(i + 1).drop_last() =~= pre);
            assert(gs[i as int] == g@);
            lemma_fits_prefix(gs, i + 1);
            lemma_face_indices_len(g@, mesh_vertices(pre).len() as int, g@.faces.len() as int);
        }
        let base = #[verifier::truncate] (vertices.len() as u32);
        let start = #[verifier::truncate] (indices.len() as u32);
        push_geoset_vertices(g, &mut vertices);
        push_geoset_indices(g, base, &mut indices);
        let count = #[verifier::truncate] (indices.len() as u32) - start;
        ranges.push(GeosetRange { index_start: start, index_count: count, material_id: g.material_id });
        i = i + 1;
    }
    assert(gs.take(n as int) =~= gs);
    Some(Mesh { vertices, indices, geosets: ranges })
}

proof fn lemma_fits_prefix(gs: Seq<SpecGeoset>, k: int)
    requires
        0 <= k <= gs.len(),
        mesh_fits(gs),
    ensures
        mesh_fits(gs.take(k)),
        k > 0 ==> ({
            let base = mesh_vertices(gs.take(k - 1)).len();
            let g = gs[k - 1];
            &&& base + g.vertices.len() <= u32::MAX
            &&& mesh_indices(gs.take(k - 1)).len() + 3 * g.faces.len() <= u32::MAX
            &&& forall|a: int, j: int|
                0 <= a < g.faces.len() && 0 <= j < 3 ==> base + #[trigger] g.faces[a].vertices[j]
                    <= u32::MAX
        }),
    decreases gs.len() - k,
{
    if k == gs.len() {
        assert(gs.take(k) =~= gs);
        if k > 0 {
            assert(gs.drop_last() =~= gs.take(k - 1));
            assert(gs.last() == gs[k - 1]);
        }
    } else {
        lemma_fits_prefix(gs, k + 1);
        assert(gs.take(k + 1).drop_last() =~= gs.take(k));
        if k > 0 {
            assert(gs.take(k).drop_last() =~= gs.take(k - 1));
            assert(gs.take(k).last() == gs[k - 1]);
            assert(mesh_fits(gs.take(k)));
        }
    }
}

proof fn lemma_mesh_step(gs: Seq<SpecGeoset>, i: int)
    requires
        0 <= i < gs.len(),
    ensures
        mesh_vertices(gs.take(i + 1)).len() == mesh_vertices(gs.take(i)).len() + gs[i].vertices.len(),
        mesh_indices(gs.take(i + 1)).len() == mesh_indices(gs.take(i)).len() + 3 * gs[i].faces.len(),
        mesh_fits(gs.take(i + 1)) == (mesh_fits(gs.take(i)) && ({
            let base = mesh_vertices(gs.take(i)).len();
            let g = gs[i];
            &&& base + g.vertices.len() <= u32::MAX
            &&& mesh_indices(gs.take(i)).len() + 3 * g.faces.len() <= u32::MAX
            &&& forall|a: int, j: int|
                0 <= a < g.faces.len() && 0 <= j < 3 ==> base + #[trigger] g.faces[a].vertices[j]
                    <= u32::MAX
        })),
{
    assert(gs.take(i + 1).drop_last() =~= gs.take(i));
    assert(gs.take(i + 1).last() == gs[i]);
    lemma_face_indices_len(gs[i], mesh_vertices(gs.take(i)).len() as int, gs[i].faces.len() as int);
}

proof fn lemma_fits_all_prefixes(gs: Seq<SpecGeoset>, k: int)
    requires
        0 <= k <= gs.len(),
        !mesh_fits(gs.take(k)),
    ensures
        !mesh_fits(gs),
{
    if mesh_fits(gs) {
        lemma_fits_prefix(gs, k);
    }
}

/// Whether [`build_mesh`] can be called on a model (see [`mesh_fits`]).
pub fn mesh_fits_model(model: &Model) -> (r: bool)
    ensures
        r == mesh_fits(model@.geosets),
{
    let ghost gs = model@.geosets;
    let n = model.geosets.len();
    let mut vertex_count: u64 = 0;
    let mut index_count: u64 = 0;
    let mut i: usize = 0;
    assert(gs.take(0) =~= Seq::<SpecGeoset>::empty());
    while i < n
        invariant
            n == gs.len(),
            gs == model@.geosets,
            i <= n,
            mesh_fits(gs.take(i as int)),
            vertex_count == mesh_vertices(gs.take(i as int)).len(),
            index_count == mesh_indices(gs.take(i as int)).len(),
            vertex_count <= u32::MAX,
            index_count <= u32::MAX,
        decreases n - i,
    {
        let g = &model.geosets[i];
        proof {
            lemma_mesh_step(gs, i as int);
            assert(gs[i as int] == g@);
        }
        let nv = g.vertices.len() as u64;
        let nf = g.faces.len() as u64;
        if nv > 0xffff_ffff - vertex_count || nf > 0x5555_5555 || 3 * nf > 0xffff_ffff - index_count {
            proof {
                lemma_fits_all_prefixes(gs, i + 1);
            }
            return false;
        }
        let mut k: usize = 0;
        let fcount = g.faces.len();
        while k < fcount
            invariant
                fcount == g@.faces.len(),
                k <= fcount,
                n == gs.len(),
                gs == model@.geosets,
                i < n,
                g@ == gs[i as int],
                vertex_count == mesh_vertices(gs.take(i as int)).len(),
                vertex_count <= u32::MAX,
                forall|a: int, j: int|
                    0 <= a < k && 0 <= j < 3 ==> vertex_count + #[trigger] g@.faces[a].vertices[j]
                        <= u32::MAX,
            decreases fcount - k,
        {
            let f = g.faces[k].vertices;
            if f[0] as u64 > 0xffff_ffff - vertex_count || f[1] as u64 > 0xffff_ffff - vertex_count
                || f[2] as u64 > 0xffff_ffff - vertex_count {
                proof {
                    lemma_mesh_step(gs, i as int);
                    if mesh_fits(gs.take(i + 1)) {
                        assert(vertex_count + g@.faces[k as int].vertices[0] <= u32::MAX);
                        assert(vertex_count + g@.faces[k as int].vertices[1] <= u32::MAX);
                        assert(vertex_count + g@.faces[k as int].vertices[2] <= u32::MAX);
                    }
                    lemma_fits_all_prefixes(gs, i + 1);
                }
                return false;
            }
            proof {
                assert forall|a: int, j: int|
                    0 <= a < k + 1 && 0 <= j < 3 implies vertex_count
                    + #[trigger] g@.faces[a].vertices[j] <= u32::MAX by {
                    if a == k {
                        assert(j == 0 || j == 1 || j == 2);
                    }
                }
            }
            k = k + 1;
        }
        vertex_count = vertex_count + nv;
        index_count = index_count + 3 * nf;
        i = i + 1;
    }
    assert(gs.take(n as int) =~= gs);
    true
}

/// Index ranges that the renderer draws lie inside the index buffer: the
/// ranges follow one another without gap from the start, geoset by geoset,
/// each holds three indices per triangle, and together they cover the
/// whole buffer.
pub proof fn law_ranges_tile_indices(m: SpecModel)
    requires
        mesh_fits(m.geosets),
    ensures
        mesh_of(m) matches Some(mesh) ==> {
            &&& mesh.geosets.len() == m.geosets.len()
            &&& mesh.geosets[0].index_start == 0
            &&& forall|g: int|
                0 <= g < mesh.geosets.len() ==> #[trigger] mesh.geosets[g].index_count == 3
                    * m.geosets[g].faces.len() && mesh.geosets[g].material_id
                    == m.geosets[g].material_id
            &&& forall|g: int|
                0 <= g < mesh.geosets.len() - 1 ==> #[trigger] mesh.geosets[g + 1].index_start
                    == mesh.geosets[g].index_start + mesh.geosets[g].index_count
            &&& mesh.geosets.last().index_start + mesh.geosets.last().index_count
                == mesh.indices.len()
            &&& mesh.vertices.len() <= u32::MAX
        },
{
    if m.geosets.len() > 0 {
        let k = m.geosets.len() as int;
        lemma_ranges(m.geosets, k);
        assert(m.geosets.take(k) =~= m.geosets);
        let r = mesh_ranges(m.geosets);
        assert(r == mesh_ranges(m.geosets.take(k)));
        assert forall|g: int| 0 <= g < r.len() implies #[trigger] r[g].index_count == 3
            * m.geosets[g].faces.len() && r[g].material_id == m.geosets[g].material_id by {
            assert(mesh_ranges(m.geosets.take(k))[g].index_count == 3 * m.geosets[g].faces.len());
        }
        assert forall|g: int| 0 <= g < r.len() - 1 implies #[trigger] r[g + 1].index_start
            == r[g].index_start + r[g].index_count by {
            assert(mesh_ranges(m.geosets.take(k))[g + 1].index_start == r[g].index_start
                + r[g].index_count);
        }
        assert(r.last().index_start + r.last().index_count == mesh_indices(m.geosets).len());
    }
}

proof fn lemma_face_index(g: SpecGeoset, base: int, n: int, k: int, j: int)
    requires
        0 <= k < n,
        0 <= j < 3,
    ensures
        face_indices(g, base, n)[3 * k + j] == (base + g.faces[k].vertices[j]) as u16,
    decreases n,
{
    lemma_face_indices_len(g, base, n - 1);
    if k < n - 1 {
        lemma_face_index(g, base, n - 1, k, j);
    }
}

/// The buffers of the first `a` geosets begin those of the first `b`.
proof fn lemma_mesh_prefix(gs: Seq<SpecGeoset>, a: int, b: int)
    requires
        0 <= a <= b <= gs.len(),
    ensures
        mesh_vertices(gs.take(a)).len() <= mesh_vertices(gs.take(b)).len(),
        forall|i: int|
            0 <= i < mesh_vertices(gs.take(a)).len() ==> #[trigger] mesh_vertices(gs.take(a))[i]
                == mesh_vertices(gs.take(b))[i],
        mesh_indices(gs.take(a)).len() <= mesh_indices(gs.take(b)).len(),
        forall|i: int|
            0 <= i < mesh_indices(gs.take(a)).len() ==> #[trigger] mesh_indices(gs.take(a))[i]
                == mesh_indices(gs.take(b))[i],
    decreases b - a,
{
    if a < b {
        lemma_mesh_prefix(gs, a, b - 1);
        let t = gs.take(b);
        assert(t.drop_last() =~= gs.take(b - 1));
        let pre_v = mesh_vertices(gs.take(b - 1));
        let pre_i = mesh_indices(gs.take(b - 1));
        assert(mesh_vertices(t) == pre_v + geoset_vertices(t.last()));
        assert(mesh_indices(t) == pre_i + face_indices(
            t.last(),
            pre_v.len() as int,
            t.last().faces.len() as int,
        ));
        assert forall|i: int| 0 <= i < pre_v.len() implies #[trigger] pre_v[i] == mesh_vertices(t)[i] by {}
        assert forall|i: int| 0 <= i < pre_i.len() implies #[trigger] pre_i[i] == mesh_indices(t)[i] by {}
    }
}

/// The vertex buffer, from the first vertex of geoset `gi` on, holds that
/// geoset's vertices; the index buffer, from its range's start, holds its
/// triangles' indices shifted by that first vertex.
proof fn lemma_geoset_in_buffers(gs: Seq<SpecGeoset>, gi: int, k: int, j: int, v: int)
    requires
        0 <= gi < gs.len(),
        0 <= k < gs[gi].faces.len(),
        0 <= j < 3,
        0 <= v < gs[gi].vertices.len(),
    ensures
        ({
            let base = mesh_vertices(gs.take(gi)).len() as int;
            let start = mesh_indices(gs.take(gi)).len() as int;
            &&& base + v < mesh_vertices(gs).len()
            &&& mesh_vertices(gs)[base + v] == mesh_vertex(gs[gi], v)
            &&& start + 3 * k + j < mesh_indices(gs).len()
            &&& mesh_indices(gs)[start + 3 * k + j] == (base + gs[gi].faces[k].vertices[j]) as u16
        }),
{
    let t = gs.take(gi + 1);
    assert(t.drop_last() =~= gs.take(gi));
    assert(t.last() == gs[gi]);
    let base = mesh_vertices(gs.take(gi)).len() as int;
    let nf = gs[gi].faces.len() as int;
    lemma_face_indices_len(gs[gi], base, nf);
    lemma_face_index(gs[gi], base, nf, k, j);
    let start = mesh_indices(gs.take(gi)).len() as int;
    assert(mesh_vertices(t) == mesh_vertices(gs.take(gi)) + geoset_vertices(gs[gi]));
    assert(mesh_indices(t) == mesh_indices(gs.take(gi)) + face_indices(gs[gi], base, nf));
    assert(mesh_vertices(t)[base + v] == mesh_vertex(gs[gi], v));
    assert(mesh_indices(t)[start + 3 * k + j] == (base + gs[gi].faces[k].vertices[j]) as u16);
    lemma_mesh_prefix(gs, gi + 1, gs.len() as int);
    assert(gs.take(gs.len() as int) =~= gs);
    assert(mesh_vertices(gs.take(gs.len() as int))[base + v] == mesh_vertices(t)[base + v]);
    assert(mesh_indices(gs.take(gs.len() as int))[start + 3 * k + j] == mesh_indices(t)[start + 3 * k
        + j]);
}

/// What the renderer draws for a geoset is that geoset: index `3 * k + j`
/// of its range names the vertex of the buffer that is vertex `j` of its
/// triangle `k`.  (This holds when every face index lies below its geoset's
/// vertex count and the model has at most 65536 vertices, so that indices
/// fit in 16 bits.)
pub proof fn law_ranges_draw_their_faces(m: SpecModel)
    requires
        mesh_fits(m.geosets),
        mesh_vertices(m.geosets).len() <= 65536,
        forall|gi: int, k: int, j: int|
            0 <= gi < m.geosets.len() && 0 <= k < m.geosets[gi].faces.len() && 0 <= j < 3
                ==> #[trigger] m.geosets[gi].faces[k].vertices[j] < m.geosets[gi].vertices.len(),
    ensures
        mesh_of(m) matches Some(mesh) ==> forall|gi: int, k: int, j: int|
            0 <= gi < m.geosets.len() && 0 <= k < m.geosets[gi].faces.len() && 0 <= j < 3 ==> {
                let idx = #[trigger] mesh.indices[mesh.geosets[gi].index_start + 3 * k + j] as int;
                &&& 3 * k + j < mesh.geosets[gi].index_count
                &&& idx < mesh.vertices.len()
                &&& mesh.vertices[idx] == mesh_vertex(m.geosets[gi], m.geosets[gi].faces[k].vertices[j] as int)
            },
{
    let gs = m.geosets;
    if gs.len() > 0 {
        let n = gs.len() as int;
        lemma_ranges(gs, n);
        assert(gs.take(n) =~= gs);
        assert forall|gi: int, k: int, j: int|
            0 <= gi < gs.len() && 0 <= k < gs[gi].faces.len() && 0 <= j < 3 implies {
            let idx = #[trigger] mesh_indices(gs)[mesh_ranges(gs)[gi].index_start + 3 * k + j] as int;
            &&& 3 * k + j < mesh_ranges(gs)[gi].index_count
            &&& idx < mesh_vertices(gs).len()
            &&& mesh_vertices(gs)[idx] == mesh_vertex(gs[gi], gs[gi].faces[k].vertices[j] as int)
        } by {
            let f = gs[gi].faces[k].vertices[j] as int;
            assert(f < gs[gi].vertices.len());
            lemma_geoset_in_buffers(gs, gi, k, j, f);
            let r = mesh_ranges(gs.take(n));
            assert(r[gi].index_count == 3 * gs[gi].faces.len());
            assert(r[gi].index_start == mesh_indices(gs.take(gi)).len());
            let base = mesh_vertices(gs.take(gi)).len() as int;
            assert(0 <= base + f < 65536);
            assert((base + f) as u16 == base + f);
        }
    }
}

proof fn lemma_ranges(gs: Seq<SpecGeoset>, k: int)
    requires
        0 < k <= gs.len(),
        mesh_fits(gs),
    ensures
        ({
            let r = mesh_ranges(gs.take(k));
            &&& r.len() == k
            &&& r[0].index_start == 0
            &&& forall|g: int|
                0 <= g < k ==> #[trigger] r[g].index_count == 3 * gs[g].faces.len()
                    && r[g].material_id == gs[g].material_id
                    && r[g].index_start == mesh_indices(gs.take(g)).len()
            &&& forall|g: int|
                0 <= g < k - 1 ==> #[trigger] r[g + 1].index_start == r[g].index_start
                    + r[g].index_count
            &&& r[k - 1].index_start + r[k - 1].index_count == mesh_indices(gs.take(k)).len()
            &&& mesh_vertices(gs.take(k)).len() <= u32::MAX
        }),
    decreases k,
{
    lemma_fits_prefix(gs, k);
    lemma_mesh_step(gs, k - 1);
    let pre = gs.take(k - 1);
    assert(gs.take(k).drop_last() =~= pre);
    assert(gs.take(k).last() == gs[k - 1]);
    if k > 1 {
        lemma_ranges(gs, k - 1);
        lemma_fits_prefix(gs, k - 1);
        lemma_mesh_step(gs, k - 2);
    } else {
        assert(pre =~= Seq::<SpecGeoset>::empty());
    }
    let r = mesh_ranges(gs.take(k));
    assert(r == mesh_ranges(pre).push(
        GeosetRange {
            index_start: mesh_indices(pre).len() as u32,
            index_count: (3 * gs[k - 1].faces.len()) as u32,
            material_id: gs[k - 1].material_id,
        },
    ));
}

} // verus!
