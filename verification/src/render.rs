//! The decisions the renderer makes about a model: which geosets are drawn
//! in which pass, with which texture and shading, and which lines show its
//! skeleton.
use crate::mesh::GeosetRange;
use crate::model::{FilterMode, Material, Model, SpecBone, SpecHelper, SpecLayer, SpecModel, SpecTexture, Texture};
use vstd::prelude::*;

verus! {

/// The three passes in which geosets are drawn, in this order.
#[derive(Clone, Copy, Debug, PartialEq, Eq, Structural)]
pub enum Pass {
    /// Opaque layers, writing depth.
    Opaque,
    /// Alpha-blended layers.
    Transparent,
    /// Additive layers and team glow.
    Additive,
}

/// How a geoset's colour is computed.
#[derive(Clone, Copy, Debug, PartialEq, Eq, Structural)]
pub enum Shading {
    /// From its texture.
    Normal,
    /// Tinted by the team colour.
    TeamColor,
    /// The team-coloured glow.
    TeamGlow,
}

/// One indexed draw of a geoset.
#[derive(Clone, Copy, Debug, PartialEq, Eq, Structural)]
pub struct DrawCall {
    pub pass: Pass,
    pub geoset: usize,
    /// The bound texture used; slot 0 is the fallback texture.
    pub texture_slot: usize,
    pub shading: Shading,
    /// The blend mode handed to the shader.
    pub filter_mode: FilterMode,
    pub index_start: u32,
    pub index_count: u32,
}

/// The number by which the shader knows a blend mode.
pub open spec fn filter_code(f: FilterMode) -> u32 {
    match f {
        FilterMode::Opaque => 0,
        FilterMode::Transparent => 1,
        FilterMode::Blend => 2,
        FilterMode::Additive => 3,
        FilterMode::AddAlpha => 4,
        FilterMode::Modulate => 5,
        FilterMode::Modulate2x => 6,
    }
}

/// The number by which the shader knows a blend mode (0 to 6, in the order
/// in which the modes are declared).
pub fn filter_mode_code(f: FilterMode) -> (r: u32)
    ensures
        r == filter_code(f),
{
    match f {
        FilterMode::Opaque => 0,
        FilterMode::Transparent => 1,
        FilterMode::Blend => 2,
        FilterMode::Additive => 3,
        FilterMode::AddAlpha => 4,
        FilterMode::Modulate => 5,
        FilterMode::Modulate2x => 6,
    }
}

/// The first layer of the material a geoset refers to, if the material
/// exists and has a layer.
pub open spec fn first_layer(materials: Seq<Seq<SpecLayer>>, mat: Option<usize>) -> Option<SpecLayer> {
    match mat {
        Some(m) => if m < materials.len() && materials[m as int].len() > 0 {
            Some(materials[m as int][0])
        } else {
            None
        },
        None => None,
    }
}

/// The texture that a layer refers to, if it exists.
pub open spec fn layer_texture(textures: Seq<SpecTexture>, l: SpecLayer) -> Option<SpecTexture> {
    match l.texture_id {
        Some(t) => if t < textures.len() {
            Some(textures[t as int])
        } else {
            None
        },
        None => None,
    }
}

/// The shading of a geoset: team colour for a replaceable texture of id 1,
/// team glow for id 2, from its texture otherwise.
pub open spec fn shading_of(materials: Seq<Seq<SpecLayer>>, textures: Seq<SpecTexture>, mat: Option<usize>) -> Shading {
    match first_layer(materials, mat) {
        Some(l) => match layer_texture(textures, l) {
            Some(t) => if t.replaceable_id == 1 {
                Shading::TeamColor
            } else if t.replaceable_id == 2 {
                Shading::TeamGlow
            } else {
                Shading::Normal
            },
            None => Shading::Normal,
        },
        None => Shading::Normal,
    }
}

/// The bound texture a geoset is drawn with: its layer's texture where that
/// texture exists and has been bound (`bound` slots are), slot 0 otherwise.
pub open spec fn texture_slot_of(
    materials: Seq<Seq<SpecLayer>>,
    textures: Seq<SpecTexture>,
    mat: Option<usize>,
    bound: nat,
) -> usize {
    match first_layer(materials, mat) {
        Some(l) => match l.texture_id {
            Some(t) => if t < textures.len() && t < bound {
                t
            } else {
                0
            },
            None => 0,
        },
        None => 0,
    }
}

/// Whether a layer with the given blend mode and glow is drawn in a pass:
/// opaque layers in the first, transparent and blended ones (team glow
/// excepted) in the second, additive ones and team glow in the third.
pub open spec fn in_pass(pass: Pass, f: FilterMode, glow: bool) -> bool {
    match pass {
        Pass::Opaque => f == FilterMode::Opaque,
        Pass::Transparent => (f == FilterMode::Transparent || f == FilterMode::Blend) && !glow,
        Pass::Additive => f == FilterMode::Additive || f == FilterMode::AddAlpha || glow,
    }
}

/// Whether geoset `i` is shown: only a `false` at its place hides it.
pub open spec fn shown(show: Seq<bool>, i: int) -> bool {
    !(i < show.len() && !show[i])
}

/// The draw of geoset `i` in a pass, if it is drawn there.
pub open spec fn draw_of(
    ranges: Seq<GeosetRange>,
    materials: Seq<Seq<SpecLayer>>,
    textures: Seq<SpecTexture>,
    show: Seq<bool>,
    bound: nat,
    pass: Pass,
    i: int,
) -> Option<DrawCall> {
    let g = ranges[i];
    if !shown(show, i) {
        None
    } else {
        match first_layer(materials, g.material_id) {
            Some(l) => {
                let shading = shading_of(materials, textures, g.material_id);
                if in_pass(pass, l.filter_mode, shading == Shading::TeamGlow) {
                    Some(
                        DrawCall {
                            pass,
                            geoset: i as usize,
                            texture_slot: texture_slot_of(materials, textures, g.material_id, bound),
                            shading,
                            filter_mode: l.filter_mode,
                            index_start: g.index_start,
                            index_count: g.index_count,
                        },
                    )
                } else {
                    None
                }
            },
            None => None,
        }
    }
}

/// The draws of the first `n` geosets in a pass, in geoset order.
pub open spec fn pass_draws(
    ranges: Seq<GeosetRange>,
    materials: Seq<Seq<SpecLayer>>,
    textures: Seq<SpecTexture>,
    show: Seq<bool>,
    bound: nat,
    pass: Pass,
    n: int,
) -> Seq<DrawCall>
    decreases n,
{
    if n <= 0 {
        Seq::empty()
    } else {
        let prev = pass_draws(ranges, materials, textures, show, bound, pass, n - 1);
        match draw_of(ranges, materials, textures, show, bound, pass, n - 1) {
            Some(d) => prev.push(d),
            None => prev,
        }
    }
}

/// All draws of a frame: the opaque pass, then the transparent one, then
/// the additive one.
pub open spec fn frame_draws(
    ranges: Seq<GeosetRange>,
    materials: Seq<Seq<SpecLayer>>,
    textures: Seq<SpecTexture>,
    show: Seq<bool>,
    bound: nat,
) -> Seq<DrawCall> {
    let n = ranges.len() as int;
    pass_draws(ranges, materials, textures, show, bound, Pass::Opaque, n) + pass_draws(
        ranges,
        materials,
        textures,
        show,
        bound,
        Pass::Transparent,
        n,
    ) + pass_draws(ranges, materials, textures, show, bound, Pass::Additive, n)
}

/// Whether a list of draws draws geoset `i`.
pub open spec fn draws_geoset(d: Seq<DrawCall>, i: int) -> bool {
    exists|k: int| 0 <= k < d.len() && #[trigger] d[k].geoset == i
}

proof fn lemma_pass_draws(
    ranges: Seq<GeosetRange>,
    materials: Seq<Seq<SpecLayer>>,
    textures: Seq<SpecTexture>,
    show: Seq<bool>,
    bound: nat,
    pass: Pass,
    n: int,
)
    requires
        0 <= n <= ranges.len(),
        ranges.len() <= usize::MAX,
    ensures
        ({
            let d = pass_draws(ranges, materials, textures, show, bound, pass, n);
            &&& forall|k: int|
                0 <= k < d.len() ==> {
                    let i = #[trigger] d[k].geoset as int;
                    &&& i < n
                    &&& draw_of(ranges, materials, textures, show, bound, pass, i) == Some(d[k])
                }
            &&& forall|a: int, b: int| 0 <= a < b < d.len() ==> d[a].geoset < d[b].geoset
            &&& forall|i: int|
                0 <= i < n ==> (draws_geoset(d, i) <==> draw_of(
                    ranges,
                    materials,
                    textures,
                    show,
                    bound,
                    pass,
                    i,
                ) is Some)
        }),
    decreases n,
{
    if n > 0 {
        lemma_pass_draws(ranges, materials, textures, show, bound, pass, n - 1);
        let prev = pass_draws(ranges, materials, textures, show, bound, pass, n - 1);
        let d = pass_draws(ranges, materials, textures, show, bound, pass, n);
        let last = draw_of(ranges, materials, textures, show, bound, pass, n - 1);
        assert forall|i: int| 0 <= i < n implies (draws_geoset(d, i) <==> draw_of(
            ranges,
            materials,
            textures,
            show,
            bound,
            pass,
            i,
        ) is Some) by {
            if draws_geoset(d, i) {
                let k = choose|k: int| 0 <= k < d.len() && #[trigger] d[k].geoset == i;
                if k < prev.len() {
                    assert(prev[k] == d[k]);
                }
            }
            if draw_of(ranges, materials, textures, show, bound, pass, i) is Some {
                if i < n - 1 {
                    assert(draws_geoset(prev, i));
                    let k = choose|k: int| 0 <= k < prev.len() && #[trigger] prev[k].geoset == i;
                    assert(d[k] == prev[k]);
                } else {
                    assert(d[prev.len() as int].geoset == i);
                }
            }
        }
    }
}

/// Each pass draws only geosets that exist, are shown and have a material
/// layer, each with its geoset's whole index range and in the order of the
/// geosets, and it draws every geoset that [`draw_of`] places in it.
pub proof fn law_pass_draws_shown_geosets(
    ranges: Seq<GeosetRange>,
    materials: Seq<Seq<SpecLayer>>,
    textures: Seq<SpecTexture>,
    show: Seq<bool>,
    bound: nat,
    pass: Pass,
)
    requires
        ranges.len() <= usize::MAX,
    ensures
        ({
            let d = pass_draws(ranges, materials, textures, show, bound, pass, ranges.len() as int);
            &&& forall|k: int|
                0 <= k < d.len() ==> {
                    let i = #[trigger] d[k].geoset as int;
                    &&& i < ranges.len()
                    &&& shown(show, i)
                    &&& first_layer(materials, ranges[i].material_id) is Some
                    &&& d[k].pass == pass
                    &&& d[k].index_start == ranges[i].index_start
                    &&& d[k].index_count == ranges[i].index_count
                }
            &&& forall|a: int, b: int| 0 <= a < b < d.len() ==> d[a].geoset < d[b].geoset
            &&& forall|i: int|
                0 <= i < ranges.len() ==> (draws_geoset(d, i) <==> draw_of(
                    ranges,
                    materials,
                    textures,
                    show,
                    bound,
                    pass,
                    i,
                ) is Some)
        }),
{
    lemma_pass_draws(ranges, materials, textures, show, bound, pass, ranges.len() as int);
}

/// No geoset is drawn in two passes, save one whose first layer is opaque
/// and textured with the team glow: it is drawn in the opaque and in the
/// additive pass.
pub proof fn law_passes_disjoint(
    ranges: Seq<GeosetRange>,
    materials: Seq<Seq<SpecLayer>>,
    textures: Seq<SpecTexture>,
    show: Seq<bool>,
    bound: nat,
    i: int,
)
    requires
        0 <= i < ranges.len(),
    ensures
        !(draw_of(ranges, materials, textures, show, bound, Pass::Opaque, i) is Some && draw_of(
            ranges,
            materials,
            textures,
            show,
            bound,
            Pass::Transparent,
            i,
        ) is Some),
        !(draw_of(ranges, materials, textures, show, bound, Pass::Transparent, i) is Some
            && draw_of(ranges, materials, textures, show, bound, Pass::Additive, i) is Some),
        (draw_of(ranges, materials, textures, show, bound, Pass::Opaque, i) is Some && draw_of(
            ranges,
            materials,
            textures,
            show,
            bound,
            Pass::Additive,
            i,
        ) is Some) <==> (shown(show, i) && first_layer(materials, ranges[i].material_id) is Some
            && first_layer(materials, ranges[i].material_id)->Some_0.filter_mode == FilterMode::Opaque
            && shading_of(materials, textures, ranges[i].material_id) == Shading::TeamGlow),
{
}

/// Which passes draw a shown geoset whose material exists and has a first
/// layer: an opaque layer is drawn in the opaque pass; a transparent or
/// blended layer that is not the team glow in the transparent pass; an
/// additive layer (with or without alpha) or the team glow in the additive
/// pass; and in no other pass.  A team glow layer's texture is a texture of
/// the model with replaceable id 2.
pub proof fn law_layers_drawn_in_their_passes(
    ranges: Seq<GeosetRange>,
    materials: Seq<Seq<SpecLayer>>,
    textures: Seq<SpecTexture>,
    show: Seq<bool>,
    bound: nat,
    i: int,
    m: usize,
)
    requires
        ranges.len() <= usize::MAX,
        0 <= i < ranges.len(),
        !(i < show.len() && !show[i]),
        ranges[i].material_id == Some(m),
        m < materials.len(),
        materials[m as int].len() > 0,
    ensures
        ({
            let l = materials[m as int][0];
            let glow = l.texture_id matches Some(t) && t < textures.len() && textures[t as int].replaceable_id
                == 2;
            let n = ranges.len() as int;
            &&& draws_geoset(pass_draws(ranges, materials, textures, show, bound, Pass::Opaque, n), i)
                <==> l.filter_mode == FilterMode::Opaque
            &&& draws_geoset(pass_draws(ranges, materials, textures, show, bound, Pass::Transparent, n), i)
                <==> ((l.filter_mode == FilterMode::Transparent || l.filter_mode == FilterMode::Blend)
                && !glow)
            &&& draws_geoset(pass_draws(ranges, materials, textures, show, bound, Pass::Additive, n), i)
                <==> (l.filter_mode == FilterMode::Additive || l.filter_mode == FilterMode::AddAlpha
                || glow)
        }),
{
    law_pass_draws_shown_geosets(ranges, materials, textures, show, bound, Pass::Opaque);
    law_pass_draws_shown_geosets(ranges, materials, textures, show, bound, Pass::Transparent);
    law_pass_draws_shown_geosets(ranges, materials, textures, show, bound, Pass::Additive);
}

/// Every draw of a pass draws a shown geoset with its whole index range and
/// the blend mode of its material's first layer.
pub proof fn law_draws_carry_their_layer(
    ranges: Seq<GeosetRange>,
    materials: Seq<Seq<SpecLayer>>,
    textures: Seq<SpecTexture>,
    show: Seq<bool>,
    bound: nat,
    pass: Pass,
)
    requires
        ranges.len() <= usize::MAX,
    ensures
        ({
            let d = pass_draws(ranges, materials, textures, show, bound, pass, ranges.len() as int);
            forall|k: int|
                0 <= k < d.len() ==> {
                    let i = #[trigger] d[k].geoset as int;
                    &&& i < ranges.len()
                    &&& !(i < show.len() && !show[i])
                    &&& ranges[i].material_id matches Some(m) && m < materials.len()
                        && materials[m as int].len() > 0 && d[k].filter_mode
                        == materials[m as int][0].filter_mode
                    &&& d[k].pass == pass
                    &&& d[k].index_start == ranges[i].index_start
                    &&& d[k].index_count == ranges[i].index_count
                }
        }),
{
    let d = pass_draws(ranges, materials, textures, show, bound, pass, ranges.len() as int);
    lemma_pass_draws(ranges, materials, textures, show, bound, pass, ranges.len() as int);
}

/// Whether a list of draws draws geoset `i` in pass `pass`.
pub open spec fn draws_in(d: Seq<DrawCall>, i: int, pass: Pass) -> bool {
    exists|k: int| 0 <= k < d.len() && #[trigger] d[k].geoset == i && d[k].pass == pass
}

proof fn lemma_frame_pass(
    ranges: Seq<GeosetRange>,
    materials: Seq<Seq<SpecLayer>>,
    textures: Seq<SpecTexture>,
    show: Seq<bool>,
    bound: nat,
    i: int,
    pass: Pass,
)
    requires
        ranges.len() <= usize::MAX,
    ensures
        draws_in(frame_draws(ranges, materials, textures, show, bound), i, pass) <==> draws_geoset(
            pass_draws(ranges, materials, textures, show, bound, pass, ranges.len() as int),
            i,
        ),
{
    let n = ranges.len() as int;
    let a = pass_draws(ranges, materials, textures, show, bound, Pass::Opaque, n);
    let b = pass_draws(ranges, materials, textures, show, bound, Pass::Transparent, n);
    let c = pass_draws(ranges, materials, textures, show, bound, Pass::Additive, n);
    let f = frame_draws(ranges, materials, textures, show, bound);
    law_draws_carry_their_layer(ranges, materials, textures, show, bound, Pass::Opaque);
    law_draws_carry_their_layer(ranges, materials, textures, show, bound, Pass::Transparent);
    law_draws_carry_their_layer(ranges, materials, textures, show, bound, Pass::Additive);
    assert(f == a + b + c);
    let d = pass_draws(ranges, materials, textures, show, bound, pass, n);
    let off: int = match pass {
        Pass::Opaque => 0,
        Pass::Transparent => a.len() as int,
        Pass::Additive => (a.len() + b.len()) as int,
    };
    assert forall|k: int| 0 <= k < d.len() implies f[off + k] == d[k] by {}
    if draws_in(f, i, pass) {
        let k = choose|k: int| 0 <= k < f.len() && #[trigger] f[k].geoset == i && f[k].pass == pass;
        if k < a.len() {
            assert(f[k] == a[k]);
            assert(a[k].pass == Pass::Opaque);
        } else if k < a.len() + b.len() {
            assert(f[k] == b[k - a.len()]);
            assert(b[k - a.len()].pass == Pass::Transparent);
        } else {
            assert(f[k] == c[k - a.len() - b.len()]);
            assert(c[k - a.len() - b.len()].pass == Pass::Additive);
        }
        assert(d[k - off].geoset == i);
    }
    if draws_geoset(d, i) {
        let k = choose|k: int| 0 <= k < d.len() && #[trigger] d[k].geoset == i;
        assert(f[off + k] == d[k]);
        assert(f[off + k].geoset == i && f[off + k].pass == pass);
    }
}

/// In the plan of a frame, a shown geoset whose material has a first layer
/// is drawn in the opaque pass exactly when that layer is opaque, in the
/// transparent pass exactly when it is transparent or blended and not the
/// team glow, and in the additive pass exactly when it is additive (with or
/// without alpha) or the team glow.
pub proof fn law_frame_draws_layers_in_their_passes(
    ranges: Seq<GeosetRange>,
    materials: Seq<Seq<SpecLayer>>,
    textures: Seq<SpecTexture>,
    show: Seq<bool>,
    bound: nat,
    i: int,
    m: usize,
)
    requires
        ranges.len() <= usize::MAX,
        0 <= i < ranges.len(),
        !(i < show.len() && !show[i]),
        ranges[i].material_id == Some(m),
        m < materials.len(),
        materials[m as int].len() > 0,
    ensures
        ({
            let l = materials[m as int][0];
            let glow = l.texture_id matches Some(t) && t < textures.len() && textures[t as int].replaceable_id
                == 2;
            let f = frame_draws(ranges, materials, textures, show, bound);
            &&& draws_in(f, i, Pass::Opaque) <==> l.filter_mode == FilterMode::Opaque
            &&& draws_in(f, i, Pass::Transparent) <==> ((l.filter_mode == FilterMode::Transparent
                || l.filter_mode == FilterMode::Blend) && !glow)
            &&& draws_in(f, i, Pass::Additive) <==> (l.filter_mode == FilterMode::Additive
                || l.filter_mode == FilterMode::AddAlpha || glow)
        }),
{
    law_layers_drawn_in_their_passes(ranges, materials, textures, show, bound, i, m);
    lemma_frame_pass(ranges, materials, textures, show, bound, i, Pass::Opaque);
    lemma_frame_pass(ranges, materials, textures, show, bound, i, Pass::Transparent);
    lemma_frame_pass(ranges, materials, textures, show, bound, i, Pass::Additive);
}

/// The first layer of a material, if the material exists and has one.
fn material_first_layer(materials: &[Material], mat: Option<usize>) -> (r: Option<&crate::model::Layer>)
    ensures
        match first_layer(crate::model::views_of(materials@), mat) {
            Some(l) => r is Some && r->Some_0@ == l,
            None => r is None,
        },
{
    match mat {
        Some(m) => {
            if m < materials.len() && materials[m].layers.len() > 0 {
                Some(&materials[m].layers[0])
            } else {
                None
            }
        },
        None => None,
    }
}

/// The shading and the texture slot of a geoset's material.
fn material_shading(
    materials: &[Material],
    textures: &[Texture],
    mat: Option<usize>,
    bound: usize,
) -> (r: (Shading, usize))
    ensures
        r.0 == shading_of(crate::model::views_of(materials@), crate::model::views_of(textures@), mat),
        r.1 == texture_slot_of(
            crate::model::views_of(materials@),
            crate::model::views_of(textures@),
            mat,
            bound as nat,
        ),
{
    let ghost tv = crate::model::views_of(textures@);
    match material_first_layer(materials, mat) {
        Some(l) => match l.texture_id {
            Some(t) => {
                if t < textures.len() {
                    assert(tv[t as int] == textures@[t as int]@);
                    let rid = textures[t].replaceable_id;
                    let shading = if rid == 1 {
                        Shading::TeamColor
                    } else if rid == 2 {
                        Shading::TeamGlow
                    } else {
                        Shading::Normal
                    };
                    let slot = if t < bound {
                        t
                    } else {
                        0
                    };
                    (shading, slot)
                } else {
                    (Shading::Normal, 0)
                }
            },
            None => (Shading::Normal, 0),
        },
        None => (Shading::Normal, 0),
    }
}

/// Whether a layer of the given blend mode and glow is drawn in a pass.
fn drawn_in(pass: Pass, f: FilterMode, glow: bool) -> (r: bool)
    ensures
        r == in_pass(pass, f, glow),
{
    match pass {
        Pass::Opaque => matches!(f, FilterMode::Opaque),
        Pass::Transparent => (matches!(f, FilterMode::Transparent) || matches!(f, FilterMode::Blend))
            && !glow,
        Pass::Additive => matches!(f, FilterMode::Additive) || matches!(f, FilterMode::AddAlpha)
            || glow,
    }
}

/// Appends the draws of one pass.
fn append_pass(
    ranges: &[GeosetRange],
    materials: &[Material],
    textures: &[Texture],
    show: &[bool],
    bound: usize,
    pass: Pass,
    out: &mut Vec<DrawCall>,
)
    ensures
        final(out)@ == old(out)@ + pass_draws(
            ranges@,
            crate::model::views_of(materials@),
            crate::model::views_of(textures@),
            show@,
            bound as nat,
            pass,
            ranges@.len() as int,
        ),
{
    let ghost mv = crate::model::views_of(materials@);
    let ghost tv = crate::model::views_of(textures@);
    let ghost start = old(out)@;
    let n = ranges.len();
    let mut i: usize = 0;
    while i < n
        invariant
            n == ranges@.len(),
            i <= n,
            mv == crate::model::views_of(materials@),
            tv == crate::model::views_of(textures@),
            out@ == start + pass_draws(ranges@, mv, tv, show@, bound as nat, pass, i as int),
        decreases n - i,
    {
        let ghost prev = out@;
        let g = ranges[i];
        let hidden = i < show.len() && !show[i];
        if !hidden {
            match material_first_layer(materials, g.material_id) {
                Some(l) => {
                    let (shading, slot) = material_shading(materials, textures, g.material_id, bound);
                    let glow = matches!(shading, Shading::TeamGlow);
                    if drawn_in(pass, l.filter_mode, glow) {
                        out.push(
                            DrawCall {
                                pass,
                                geoset: i,
                                texture_slot: slot,
                                shading,
                                filter_mode: l.filter_mode,
                                index_start: g.index_start,
                                index_count: g.index_count,
                            },
                        );
                    }
                },
                None => {},
            }
        }
        proof {
            let d = draw_of(ranges@, mv, tv, show@, bound as nat, pass, i as int);
            match d {
                Some(dc) => assert(out@ =~= prev.push(dc)),
                None => assert(out@ =~= prev),
            }
        }
        i = i + 1;
    }
}

/// The draws of a frame (see [`frame_draws`]): `ranges` are the geosets'
/// index ranges, `show` the visibility chosen for each geoset (a geoset
/// past its end is shown), `bound` the number of bound textures.
pub fn plan_draws(
    ranges: &[GeosetRange],
    materials: &[Material],
    textures: &[Texture],
    show: &[bool],
    bound: usize,
) -> (r: Vec<DrawCall>)
    ensures
        r@ == frame_draws(
            ranges@,
            crate::model::views_of(materials@),
            crate::model::views_of(textures@),
            show@,
            bound as nat,
        ),
{
    let mut out: Vec<DrawCall> = Vec::new();
    append_pass(ranges, materials, textures, show, bound, Pass::Opaque, &mut out);
    append_pass(ranges, materials, textures, show, bound, Pass::Transparent, &mut out);
    append_pass(ranges, materials, textures, show, bound, Pass::Additive, &mut out);
    assert(out@ =~= frame_draws(
        ranges@,
        crate::model::views_of(materials@),
        crate::model::views_of(textures@),
        show@,
        bound as nat,
    ));
    out
}

/// A line of the skeleton: from the pivot of a node's parent to the node's
/// own pivot (float bit patterns).
#[derive(Clone, Copy, Debug, PartialEq)]
pub struct SkeletonLine {
    pub from: [u32; 3],
    pub to: [u32; 3],
    /// Whether the node is a helper rather than a bone.
    pub helper: bool,
}

/// The first of the first `n` bones whose object id is `id`.
pub open spec fn first_bone_with(bones: Seq<SpecBone>, id: u32, n: int) -> Option<int>
    decreases n,
{
    if n <= 0 {
        None
    } else {
        match first_bone_with(bones, id, n - 1) {
            Some(k) => Some(k),
            None => if bones[n - 1].object_id == id {
                Some(n - 1)
            } else {
                None
            },
        }
    }
}

/// The first of the first `n` helpers whose object id is `id`.
pub open spec fn first_helper_with(helpers: Seq<SpecHelper>, id: u32, n: int) -> Option<int>
    decreases n,
{
    if n <= 0 {
        None
    } else {
        match first_helper_with(helpers, id, n - 1) {
            Some(k) => Some(k),
            None => if helpers[n - 1].object_id == id {
                Some(n - 1)
            } else {
                None
            },
        }
    }
}

/// The pivot of the node with object id `parent`: of the first bone with
/// that id, else of the first helper with it; none for a negative id or
/// an id that no node has.
pub open spec fn parent_pivot(m: SpecModel, parent: i32) -> Option<[u32; 3]> {
    if parent < 0 {
        None
    } else {
        match first_bone_with(m.bones, parent as u32, m.bones.len() as int) {
            Some(k) => Some(m.bones[k].pivot_point),
            None => match first_helper_with(m.helpers, parent as u32, m.helpers.len() as int) {
                Some(k) => Some(m.helpers[k].pivot_point),
                None => None,
            },
        }
    }
}

/// The lines of the first `n` bones whose parent has a pivot.
pub open spec fn bone_lines(m: SpecModel, n: int) -> Seq<SkeletonLine>
    decreases n,
{
    if n <= 0 {
        Seq::empty()
    } else {
        let b = m.bones[n - 1];
        match parent_pivot(m, b.parent_id) {
            Some(p) => bone_lines(m, n - 1).push(
                SkeletonLine { from: p, to: b.pivot_point, helper: false },
            ),
            None => bone_lines(m, n - 1),
        }
    }
}

/// The lines of the first `n` helpers whose parent has a pivot.
pub open spec fn helper_lines(m: SpecModel, n: int) -> Seq<SkeletonLine>
    decreases n,
{
    if n <= 0 {
        Seq::empty()
    } else {
        let h = m.helpers[n - 1];
        match parent_pivot(m, h.parent_id) {
            Some(p) => helper_lines(m, n - 1).push(
                SkeletonLine { from: p, to: h.pivot_point, helper: true },
            ),
            None => helper_lines(m, n - 1),
        }
    }
}

/// The skeleton of a model: the lines of its bones, then of its helpers.
pub open spec fn skeleton_lines_of(m: SpecModel) -> Seq<SkeletonLine> {
    bone_lines(m, m.bones.len() as int) + helper_lines(m, m.helpers.len() as int)
}

proof fn lemma_first_bone_with(bones: Seq<SpecBone>, id: u32, n: int)
    requires
        0 <= n <= bones.len(),
    ensures
        first_bone_with(bones, id, n) matches Some(k) ==> 0 <= k < n && bones[k].object_id == id
            && forall|j: int| 0 <= j < k ==> #[trigger] bones[j].object_id != id,
        first_bone_with(bones, id, n) is None ==> forall|j: int|
            0 <= j < n ==> #[trigger] bones[j].object_id != id,
    decreases n,
{
    if n > 0 {
        lemma_first_bone_with(bones, id, n - 1);
    }
}

proof fn lemma_first_helper_with(helpers: Seq<SpecHelper>, id: u32, n: int)
    requires
        0 <= n <= helpers.len(),
    ensures
        first_helper_with(helpers, id, n) matches Some(k) ==> 0 <= k < n && helpers[k].object_id == id
            && forall|j: int| 0 <= j < k ==> #[trigger] helpers[j].object_id != id,
        first_helper_with(helpers, id, n) is None ==> forall|j: int|
            0 <= j < n ==> #[trigger] helpers[j].object_id != id,
    decreases n,
{
    if n > 0 {
        lemma_first_helper_with(helpers, id, n - 1);
    }
}

/// The pivot a skeleton line starts from, for a parent id `p`: none when
/// `p` is negative; otherwise the pivot of the first bone whose object id
/// is `p` (0 included); when no bone has that id, the pivot of the first
/// helper that has it; and none only when no node has it.
pub proof fn law_parent_pivot_is_first_node_with_id(m: SpecModel, p: i32)
    ensures
        p < 0 ==> parent_pivot(m, p) is None,
        p >= 0 ==> {
            &&& forall|k: int|
                0 <= k < m.bones.len() && m.bones[k].object_id == p as u32 && (forall|j: int|
                    0 <= j < k ==> #[trigger] m.bones[j].object_id != p as u32) ==> parent_pivot(m, p)
                    == Some(#[trigger] m.bones[k].pivot_point)
            &&& (forall|j: int| 0 <= j < m.bones.len() ==> #[trigger] m.bones[j].object_id != p as u32)
                ==> forall|k: int|
                0 <= k < m.helpers.len() && m.helpers[k].object_id == p as u32 && (forall|j: int|
                    0 <= j < k ==> #[trigger] m.helpers[j].object_id != p as u32) ==> parent_pivot(m, p)
                    == Some(#[trigger] m.helpers[k].pivot_point)
            &&& parent_pivot(m, p) is None <==> (forall|j: int|
                0 <= j < m.bones.len() ==> #[trigger] m.bones[j].object_id != p as u32) && (forall|j: int|
                0 <= j < m.helpers.len() ==> #[trigger] m.helpers[j].object_id != p as u32)
        },
{
    if p >= 0 {
        let id = p as u32;
        lemma_first_bone_with(m.bones, id, m.bones.len() as int);
        lemma_first_helper_with(m.helpers, id, m.helpers.len() as int);
        assert forall|k: int|
            0 <= k < m.bones.len() && m.bones[k].object_id == id && (forall|j: int|
                0 <= j < k ==> #[trigger] m.bones[j].object_id != id) implies parent_pivot(m, p) == Some(
            #[trigger] m.bones[k].pivot_point,
        ) by {
            match first_bone_with(m.bones, id, m.bones.len() as int) {
                Some(k2) => {
                    if k2 < k {
                        assert(m.bones[k2].object_id != id);
                    } else if k2 > k {
                        assert(m.bones[k].object_id != id);
                    }
                },
                None => {
                    assert(m.bones[k].object_id != id);
                },
            }
        }
        assert forall|k: int|
            (forall|j: int| 0 <= j < m.bones.len() ==> #[trigger] m.bones[j].object_id != id) && 0 <= k
                < m.helpers.len() && m.helpers[k].object_id == id && (forall|j: int|
                0 <= j < k ==> #[trigger] m.helpers[j].object_id != id) implies parent_pivot(m, p) == Some(
            #[trigger] m.helpers[k].pivot_point,
        ) by {
            match first_bone_with(m.bones, id, m.bones.len() as int) {
                Some(k2) => {
                    assert(m.bones[k2].object_id != id);
                },
                None => {},
            }
            match first_helper_with(m.helpers, id, m.helpers.len() as int) {
                Some(k2) => {
                    if k2 < k {
                        assert(m.helpers[k2].object_id != id);
                    } else if k2 > k {
                        assert(m.helpers[k].object_id != id);
                    }
                },
                None => {
                    assert(m.helpers[k].object_id != id);
                },
            }
        }
    }
}

/// The pivot of a node's parent (see [`parent_pivot`]).
pub fn find_parent_pivot(model: &Model, parent: i32) -> (r: Option<[u32; 3]>)
    ensures
        r == parent_pivot(model@, parent),
{
    if parent < 0 {
        return None;
    }
    let id = parent as u32;
    let ghost m = model@;
    let nb = model.bones.len();
    let mut i: usize = 0;
    while i < nb
        invariant
            m == model@,
            0 <= parent,
            id == parent as u32,
            nb == m.bones.len(),
            i <= nb,
            first_bone_with(m.bones, id, i as int) is None,
        decreases nb - i,
    {
        assert(m.bones[i as int] == model.bones@[i as int]@);
        if model.bones[i].object_id == id {
            proof {
                assert(m.bones[i as int] == model.bones@[i as int]@);
                lemma_first_bone_found(m.bones, id, i as int, nb as int);
            }
            return Some(model.bones[i].pivot_point);
        }
        i = i + 1;
    }
    let nh = model.helpers.len();
    let mut j: usize = 0;
    while j < nh
        invariant
            m == model@,
            0 <= parent,
            id == parent as u32,
            nh == m.helpers.len(),
            nb == m.bones.len(),
            first_bone_with(m.bones, id, nb as int) is None,
            j <= nh,
            first_helper_with(m.helpers, id, j as int) is None,
        decreases nh - j,
    {
        assert(m.helpers[j as int] == model.helpers@[j as int]@);
        if model.helpers[j].object_id == id {
            proof {
                assert(m.helpers[j as int] == model.helpers@[j as int]@);
                lemma_first_helper_found(m.helpers, id, j as int, nh as int);
            }
            return Some(model.helpers[j].pivot_point);
        }
        j = j + 1;
    }
    None
}

proof fn lemma_first_bone_found(bones: Seq<SpecBone>, id: u32, i: int, n: int)
    requires
        0 <= i < n <= bones.len(),
        first_bone_with(bones, id, i) is None,
        bones[i].object_id == id,
    ensures
        first_bone_with(bones, id, n) == Some(i),
    decreases n - i,
{
    if n > i + 1 {
        lemma_first_bone_found(bones, id, i, n - 1);
    }
}

proof fn lemma_first_helper_found(helpers: Seq<SpecHelper>, id: u32, i: int, n: int)
    requires
        0 <= i < n <= helpers.len(),
        first_helper_with(helpers, id, i) is None,
        helpers[i].object_id == id,
    ensures
        first_helper_with(helpers, id, n) == Some(i),
    decreases n - i,
{
    if n > i + 1 {
        lemma_first_helper_found(helpers, id, i, n - 1);
    }
}

/// The lines that draw a model's skeleton (see [`skeleton_lines_of`]).
pub fn skeleton_lines(model: &Model) -> (r: Vec<SkeletonLine>)
    ensures
        r@ == skeleton_lines_of(model@),
{
    let ghost m = model@;
    let mut out: Vec<SkeletonLine> = Vec::new();
    let nb = model.bones.len();
    let mut i: usize = 0;
    while i < nb
        invariant
            m == model@,
            nb == m.bones.len(),
            i <= nb,
            out@ == bone_lines(m, i as int),
        decreases nb - i,
    {
        let b = &model.bones[i];
        assert(m.bones[i as int] == b@);
        match find_parent_pivot(model, b.parent_id) {
            Some(p) => {
                out.push(SkeletonLine { from: p, to: b.pivot_point, helper: false });
            },
            None => {},
        }
        i = i + 1;
    }
    let ghost bones_part = out@;
    let nh = model.helpers.len();
    let mut j: usize = 0;
    while j < nh
        invariant
            m == model@,
            nh == m.helpers.len(),
            j <= nh,
            bones_part == bone_lines(m, m.bones.len() as int),
            out@ == bones_part + helper_lines(m, j as int),
        decreases nh - j,
    {
        let h = &model.helpers[j];
        assert(m.helpers[j as int] == h@);
        let ghost before = out@;
        match find_parent_pivot(model, h.parent_id) {
            Some(p) => {
                out.push(SkeletonLine { from: p, to: h.pivot_point, helper: true });
                assert(out@ =~= bones_part + helper_lines(m, j + 1));
            },
            None => {},
        }
        j = j + 1;
    }
    out
}

/// What a texture slot of the renderer holds.
#[derive(Clone, Copy, Debug, PartialEq, Eq, Structural)]
pub enum SlotTexture {
    /// The white fallback texture.
    White,
    /// A loaded texture of the given size.
    Loaded { width: u32, height: u32 },
}

/// Binds a loaded texture to slot `texture_id`: missing slots before it are
/// first filled with the white texture, then the slot takes the texture.
pub fn bind_texture(slots: &mut Vec<SlotTexture>, texture_id: usize, width: u32, height: u32)
    requires
        texture_id < usize::MAX,
    ensures
        final(slots)@.len() == if old(slots)@.len() > texture_id {
            old(slots)@.len() as int
        } else {
            texture_id + 1
        },
        final(slots)@[texture_id as int] == (SlotTexture::Loaded { width, height }),
        forall|k: int|
            0 <= k < final(slots)@.len() && k != texture_id ==> #[trigger] final(slots)@[k] == if k
                < old(slots)@.len() {
                old(slots)@[k]
            } else {
                SlotTexture::White
            },
{
    let ghost start = slots@;
    while slots.len() <= texture_id
        invariant
            texture_id < usize::MAX,
            start == old(slots)@,
            start.len() <= slots@.len(),
            slots@.len() <= if start.len() > texture_id {
                start.len() as int
            } else {
                texture_id + 1
            },
            forall|k: int|
                0 <= k < slots@.len() ==> #[trigger] slots@[k] == if k < start.len() {
                    start[k]
                } else {
                    SlotTexture::White
                },
        decreases texture_id + 1 - slots@.len(),
    {
        slots.push(SlotTexture::White);
    }
    slots.set(texture_id, SlotTexture::Loaded { width, height });
}

/// Takes a new window size for the viewport `size` (width, height) when
/// both are above zero, and says whether it did (the drawing surface is
/// then configured anew); a size with a zero side is ignored.
pub fn resize_viewport(size: &mut [u32; 2], width: u32, height: u32) -> (r: bool)
    ensures
        r == (width > 0 && height > 0),
        *final(size) == if r {
            [width, height]
        } else {
            *old(size)
        },
{
    if width > 0 && height > 0 {
        *size = [width, height];
        true
    } else {
        false
    }
}

} // verus!
