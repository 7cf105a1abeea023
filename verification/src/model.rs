//! The in-memory model of a Warcraft III model file.
//!
//! Every single-precision float of the file format is carried as its raw
//! IEEE-754 bit pattern (`u32`); the viewer turns those into floats with
//! `f32::from_bits` where it draws them.
use vstd::prelude::*;

verus! {

/// A vertex position (three float bit patterns: x, y, z).
#[derive(Clone, Copy, Debug, PartialEq)]
pub struct Vertex {
    pub position: [u32; 3],
}

/// A vertex normal (three float bit patterns).
#[derive(Clone, Copy, Debug, PartialEq)]
pub struct Normal {
    pub normal: [u32; 3],
}

/// A texture coordinate (two float bit patterns: u, v).
#[derive(Clone, Copy, Debug, PartialEq)]
pub struct TexCoord {
    pub uv: [u32; 2],
}

/// A triangle, as three vertex indices local to its geoset.
#[derive(Clone, Copy, Debug, PartialEq)]
pub struct Face {
    pub vertices: [u32; 3],
}

/// Shading flags of a material layer.
#[derive(Clone, Copy, Debug, PartialEq, Eq, Structural)]
pub enum ShadingFlags {
    Unshaded,
    SphereEnvMap,
    TwoSided,
    Unfogged,
    NoDepthTest,
    NoDepthSet,
}

/// Blend mode of a material layer.
#[derive(Clone, Copy, Debug, PartialEq, Eq, Structural)]
pub enum FilterMode {
    Opaque,
    Transparent,
    Blend,
    Additive,
    AddAlpha,
    Modulate,
    Modulate2x,
}

/// The bit that a flag occupies in the file's shading bit field.
pub open spec fn flag_bit(f: ShadingFlags) -> u32 {
    match f {
        ShadingFlags::Unshaded => 0x1,
        ShadingFlags::SphereEnvMap => 0x2,
        ShadingFlags::TwoSided => 0x10,
        ShadingFlags::Unfogged => 0x20,
        ShadingFlags::NoDepthTest => 0x40,
        ShadingFlags::NoDepthSet => 0x80,
    }
}

/// `f` when bit `bit` of `bits` is set, nothing otherwise.
pub open spec fn flag_if(bits: u32, bit: u32, f: ShadingFlags) -> Seq<ShadingFlags> {
    if bits & bit != 0 {
        seq![f]
    } else {
        Seq::empty()
    }
}

/// The flags whose bit is set in `bits`, in the order in which they are declared.
pub open spec fn flags_of_bits(bits: u32) -> Seq<ShadingFlags> {
    flag_if(bits, 0x1, ShadingFlags::Unshaded) + flag_if(bits, 0x2, ShadingFlags::SphereEnvMap)
        + flag_if(bits, 0x10, ShadingFlags::TwoSided) + flag_if(bits, 0x20, ShadingFlags::Unfogged)
        + flag_if(bits, 0x40, ShadingFlags::NoDepthTest) + flag_if(
        bits,
        0x80,
        ShadingFlags::NoDepthSet,
    )
}

/// The bit field in which exactly the bits of the given flags are set.
pub open spec fn bits_of_flags(flags: Seq<ShadingFlags>) -> u32
    decreases flags.len(),
{
    if flags.len() == 0 {
        0
    } else {
        bits_of_flags(flags.drop_last()) | flag_bit(flags.last())
    }
}

/// The label under which the viewer lists a flag.
pub open spec fn flag_name(f: ShadingFlags) -> Seq<char> {
    match f {
        ShadingFlags::Unshaded => "Unshaded"@,
        ShadingFlags::SphereEnvMap => "SphereEnv"@,
        ShadingFlags::TwoSided => "TwoSided"@,
        ShadingFlags::Unfogged => "Unfogged"@,
        ShadingFlags::NoDepthTest => "NoDepthTest"@,
        ShadingFlags::NoDepthSet => "NoDepthSet"@,
    }
}

impl ShadingFlags {
    /// The bit of this flag in the file's bit field.
    pub fn bit(&self) -> (r: u32)
        ensures
            r == flag_bit(*self),
    {
        match self {
            ShadingFlags::Unshaded => 0x1,
            ShadingFlags::SphereEnvMap => 0x2,
            ShadingFlags::TwoSided => 0x10,
            ShadingFlags::Unfogged => 0x20,
            ShadingFlags::NoDepthTest => 0x40,
            ShadingFlags::NoDepthSet => 0x80,
        }
    }

    /// All flags present in the bit field, in declaration order.
    pub fn from_bits(bits: u32) -> (r: Vec<ShadingFlags>)
        ensures
            r@ == flags_of_bits(bits),
    {
        let mut flags: Vec<ShadingFlags> = Vec::new();
        if bits & 0x1 != 0 {
            flags.push(ShadingFlags::Unshaded);
        }
        if bits & 0x2 != 0 {
            flags.push(ShadingFlags::SphereEnvMap);
        }
        if bits & 0x10 != 0 {
            flags.push(ShadingFlags::TwoSided);
        }
        if bits & 0x20 != 0 {
            flags.push(ShadingFlags::Unfogged);
        }
        if bits & 0x40 != 0 {
            flags.push(ShadingFlags::NoDepthTest);
        }
        if bits & 0x80 != 0 {
            flags.push(ShadingFlags::NoDepthSet);
        }
        assert(flags@ =~= flags_of_bits(bits));
        flags
    }

    /// The bit field of a list of flags.
    pub fn to_bits(flags: &[ShadingFlags]) -> (r: u32)
        ensures
            r == bits_of_flags(flags@),
    {
        let mut bits: u32 = 0;
        let mut i: usize = 0;
        while i < flags.len()
            invariant
                i <= flags.len(),
                bits == bits_of_flags(flags@.subrange(0, i as int)),
            decreases flags.len() - i,
        {
            let b = flags[i].bit();
            assert(flags@.subrange(0, i + 1).drop_last() =~= flags@.subrange(0, i as int));
            bits = bits | b;
            i = i + 1;
        }
        assert(flags@.subrange(0, flags.len() as int) =~= flags@);
        bits
    }

    /// Human-readable name of the flag.
    pub fn name(&self) -> (r: &'static str)
        ensures
            r@ == flag_name(*self),
    {
        match self {
            ShadingFlags::Unshaded => "Unshaded",
            ShadingFlags::SphereEnvMap => "SphereEnv",
            ShadingFlags::TwoSided => "TwoSided",
            ShadingFlags::Unfogged => "Unfogged",
            ShadingFlags::NoDepthTest => "NoDepthTest",
            ShadingFlags::NoDepthSet => "NoDepthSet",
        }
    }
}

/// The flag bits that the format defines.
pub open spec fn known_flag_bits() -> u32 {
    0xF3
}

/// The bit field of two lists of flags one after the other is the OR of
/// their bit fields.
pub proof fn law_bits_of_concatenation(a: Seq<ShadingFlags>, b: Seq<ShadingFlags>)
    ensures
        bits_of_flags(a + b) == bits_of_flags(a) | bits_of_flags(b),
    decreases b.len(),
{
    if b.len() == 0 {
        assert(a + b =~= a);
        let x = bits_of_flags(a);
        assert(x | 0u32 == x) by (bit_vector);
    } else {
        assert((a + b).drop_last() =~= a + b.drop_last());
        law_bits_of_concatenation(a, b.drop_last());
        let x = bits_of_flags(a);
        let y = bits_of_flags(b.drop_last());
        let z = flag_bit(b.last());
        assert((x | y) | z == x | (y | z)) by (bit_vector);
    }
}

proof fn lemma_bits_of_flag_if(bits: u32, bit: u32, f: ShadingFlags)
    requires
        bit == flag_bit(f),
    ensures
        bits_of_flags(flag_if(bits, bit, f)) == (if bits & bit != 0 {
            bit
        } else {
            0u32
        }),
{
    if bits & bit != 0 {
        let s = seq![f];
        assert(s.drop_last() =~= Seq::<ShadingFlags>::empty());
        assert(bits_of_flags(Seq::<ShadingFlags>::empty()) == 0);
        assert(0u32 | bit == bit) by (bit_vector);
        assert(bits_of_flags(s) == bits_of_flags(s.drop_last()) | flag_bit(s.last()));
    } else {
        assert(flag_if(bits, bit, f).len() == 0);
    }
}

/// Turning a bit field into flags and back keeps exactly the bits that the
/// format defines and clears every other bit.
pub proof fn law_bits_round_trip(bits: u32)
    ensures
        bits_of_flags(flags_of_bits(bits)) == bits & known_flag_bits(),
{
    let s1 = flag_if(bits, 0x1, ShadingFlags::Unshaded);
    let s2 = flag_if(bits, 0x2, ShadingFlags::SphereEnvMap);
    let s3 = flag_if(bits, 0x10, ShadingFlags::TwoSided);
    let s4 = flag_if(bits, 0x20, ShadingFlags::Unfogged);
    let s5 = flag_if(bits, 0x40, ShadingFlags::NoDepthTest);
    let s6 = flag_if(bits, 0x80, ShadingFlags::NoDepthSet);
    law_bits_of_concatenation(s1, s2);
    law_bits_of_concatenation(s1 + s2, s3);
    law_bits_of_concatenation(s1 + s2 + s3, s4);
    law_bits_of_concatenation(s1 + s2 + s3 + s4, s5);
    law_bits_of_concatenation(s1 + s2 + s3 + s4 + s5, s6);
    lemma_bits_of_flag_if(bits, 0x1, ShadingFlags::Unshaded);
    lemma_bits_of_flag_if(bits, 0x2, ShadingFlags::SphereEnvMap);
    lemma_bits_of_flag_if(bits, 0x10, ShadingFlags::TwoSided);
    lemma_bits_of_flag_if(bits, 0x20, ShadingFlags::Unfogged);
    lemma_bits_of_flag_if(bits, 0x40, ShadingFlags::NoDepthTest);
    lemma_bits_of_flag_if(bits, 0x80, ShadingFlags::NoDepthSet);
    assert((if bits & 0x1 != 0 { 0x1u32 } else { 0u32 }) | (if bits & 0x2 != 0 {
        0x2u32
    } else {
        0u32
    }) | (if bits & 0x10 != 0 { 0x10u32 } else { 0u32 }) | (if bits & 0x20 != 0 {
        0x20u32
    } else {
        0u32
    }) | (if bits & 0x40 != 0 { 0x40u32 } else { 0u32 }) | (if bits & 0x80 != 0 {
        0x80u32
    } else {
        0u32
    }) == bits & 0xF3) by (bit_vector);
}

proof fn lemma_flag_bit_in_bits(s: Seq<ShadingFlags>, f: ShadingFlags)
    ensures
        bits_of_flags(s) & flag_bit(f) != 0 <==> s.contains(f),
    decreases s.len(),
{
    if s.len() == 0 {
        let b = flag_bit(f);
        assert(0u32 & b == 0) by (bit_vector);
    } else {
        let p = s.drop_last();
        lemma_flag_bit_in_bits(p, f);
        let x = bits_of_flags(p);
        let y = flag_bit(s.last());
        let b = flag_bit(f);
        assert((x | y) & b != 0 <==> (x & b != 0 || y & b != 0)) by (bit_vector);
        // distinct flags occupy distinct bits
        assert(y & b != 0 <==> s.last() == f) by {
            let l = s.last();
            match l {
                ShadingFlags::Unshaded => {},
                _ => {},
            }
            assert(0x1u32 & 0x2u32 == 0 && 0x1u32 & 0x10u32 == 0 && 0x1u32 & 0x20u32 == 0 && 0x1u32
                & 0x40u32 == 0 && 0x1u32 & 0x80u32 == 0 && 0x2u32 & 0x10u32 == 0 && 0x2u32
                & 0x20u32 == 0 && 0x2u32 & 0x40u32 == 0 && 0x2u32 & 0x80u32 == 0 && 0x10u32
                & 0x20u32 == 0 && 0x10u32 & 0x40u32 == 0 && 0x10u32 & 0x80u32 == 0 && 0x20u32
                & 0x40u32 == 0 && 0x20u32 & 0x80u32 == 0 && 0x40u32 & 0x80u32 == 0 && 0x2u32
                & 0x1u32 == 0 && 0x10u32 & 0x1u32 == 0 && 0x20u32 & 0x1u32 == 0 && 0x40u32
                & 0x1u32 == 0 && 0x80u32 & 0x1u32 == 0 && 0x10u32 & 0x2u32 == 0 && 0x20u32
                & 0x2u32 == 0 && 0x40u32 & 0x2u32 == 0 && 0x80u32 & 0x2u32 == 0 && 0x20u32
                & 0x10u32 == 0 && 0x40u32 & 0x10u32 == 0 && 0x80u32 & 0x10u32 == 0 && 0x40u32
                & 0x20u32 == 0 && 0x80u32 & 0x20u32 == 0 && 0x80u32 & 0x40u32 == 0 && 0x1u32
                & 0x1u32 != 0 && 0x2u32 & 0x2u32 != 0 && 0x10u32 & 0x10u32 != 0 && 0x20u32
                & 0x20u32 != 0 && 0x40u32 & 0x40u32 != 0 && 0x80u32 & 0x80u32 != 0) by (bit_vector);
        }
        assert(s =~= p.push(s.last()));
        assert(s.contains(f) <==> (p.contains(f) || s.last() == f)) by {
            if s.contains(f) {
                let k = choose|k: int| 0 <= k < s.len() && s[k] == f;
                if k < s.len() - 1 {
                    assert(p[k] == f);
                }
            }
            if p.contains(f) {
                let k = choose|k: int| 0 <= k < p.len() && p[k] == f;
                assert(s[k] == f);
            }
            if s.last() == f {
                assert(s[s.len() - 1] == f);
            }
        }
    }
}

proof fn lemma_flags_of_bits_contains(bits: u32, f: ShadingFlags)
    ensures
        flags_of_bits(bits).contains(f) <==> bits & flag_bit(f) != 0,
{
    let s = flags_of_bits(bits);
    law_bits_round_trip(bits);
    lemma_flag_bit_in_bits(s, f);
    let b = flag_bit(f);
    let m = known_flag_bits();
    assert(b == 0x1 || b == 0x2 || b == 0x10 || b == 0x20 || b == 0x40 || b == 0x80);
    assert((b == 0x1u32 || b == 0x2u32 || b == 0x10u32 || b == 0x20u32 || b == 0x40u32 || b
        == 0x80u32) ==> ((bits & 0xF3u32) & b != 0 <==> bits & b != 0)) by (bit_vector);
}

/// A list of flags keeps its members through a trip to the bit field and
/// back: a flag is in the result exactly when it was in the list.
pub proof fn law_flags_round_trip(flags: Seq<ShadingFlags>, f: ShadingFlags)
    ensures
        flags_of_bits(bits_of_flags(flags)).contains(f) <==> flags.contains(f),
{
    lemma_flags_of_bits_contains(bits_of_flags(flags), f);
    lemma_flag_bit_in_bits(flags, f);
}

/// A mesh of the model with its own vertices, triangles and skinning data.
#[derive(Clone, Debug)]
pub struct Geoset {
    pub vertices: Vec<Vertex>,
    pub normals: Vec<Normal>,
    pub tex_coords: Vec<TexCoord>,
    pub faces: Vec<Face>,
    pub material_id: Option<usize>,
    pub selection_group: usize,
    pub unselectable: bool,
    pub bounds_radius: u32,
    pub minimum_extent: [u32; 3],
    pub maximum_extent: [u32; 3],
    /// For each vertex, the matrix group that moves it.
    pub vertex_groups: Vec<u8>,
    /// Groups of bone indices.
    pub matrix_groups: Vec<Vec<u32>>,
}

/// Mathematical value of a [`Geoset`].
pub struct SpecGeoset {
    pub vertices: Seq<Vertex>,
    pub normals: Seq<Normal>,
    pub tex_coords: Seq<TexCoord>,
    pub faces: Seq<Face>,
    pub material_id: Option<usize>,
    pub selection_group: usize,
    pub unselectable: bool,
    pub bounds_radius: u32,
    pub minimum_extent: [u32; 3],
    pub maximum_extent: [u32; 3],
    pub vertex_groups: Seq<u8>,
    pub matrix_groups: Seq<Seq<u32>>,
}

/// The contents of each inner vector.
pub open spec fn seqs_of_vecs<T>(v: Seq<Vec<T>>) -> Seq<Seq<T>> {
    v.map_values(|x: Vec<T>| x@)
}

impl View for Geoset {
    type V = SpecGeoset;

    open spec fn view(&self) -> SpecGeoset {
        SpecGeoset {
            vertices: self.vertices@,
            normals: self.normals@,
            tex_coords: self.tex_coords@,
            faces: self.faces@,
            material_id: self.material_id,
            selection_group: self.selection_group,
            unselectable: self.unselectable,
            bounds_radius: self.bounds_radius,
            minimum_extent: self.minimum_extent,
            maximum_extent: self.maximum_extent,
            vertex_groups: self.vertex_groups@,
            matrix_groups: seqs_of_vecs(self.matrix_groups@),
        }
    }
}

/// The geoset of a freshly created model: empty, with no material.
pub open spec fn empty_geoset() -> SpecGeoset {
    SpecGeoset {
        vertices: Seq::empty(),
        normals: Seq::empty(),
        tex_coords: Seq::empty(),
        faces: Seq::empty(),
        material_id: None,
        selection_group: 0,
        unselectable: false,
        bounds_radius: 0,
        minimum_extent: [0, 0, 0],
        maximum_extent: [0, 0, 0],
        vertex_groups: Seq::empty(),
        matrix_groups: Seq::empty(),
    }
}

impl Geoset {
    /// An empty geoset.
    pub fn new() -> (g: Geoset)
        ensures
            g@ == empty_geoset(),
    {
        let g = Geoset {
            vertices: Vec::new(),
            normals: Vec::new(),
            tex_coords: Vec::new(),
            faces: Vec::new(),
            material_id: None,
            selection_group: 0,
            unselectable: false,
            bounds_radius: 0,
            minimum_extent: [0, 0, 0],
            maximum_extent: [0, 0, 0],
            vertex_groups: Vec::new(),
            matrix_groups: Vec::new(),
        };
        assert(g@.matrix_groups =~= Seq::<Seq<u32>>::empty());
        g
    }
}

impl Default for Geoset {
    fn default() -> (g: Geoset)
        ensures
            g@ == empty_geoset(),
    {
        Geoset::new()
    }
}

/// One layer of a material.
#[derive(Clone, Debug)]
pub struct Layer {
    pub texture_id: Option<usize>,
    pub filter_mode: FilterMode,
    pub shading_flags: Vec<ShadingFlags>,
    /// Bit pattern of the layer's opacity.
    pub alpha: u32,
}

/// Mathematical value of a [`Layer`].
pub struct SpecLayer {
    pub texture_id: Option<usize>,
    pub filter_mode: FilterMode,
    pub shading_flags: Seq<ShadingFlags>,
    pub alpha: u32,
}

impl View for Layer {
    type V = SpecLayer;

    open spec fn view(&self) -> SpecLayer {
        SpecLayer {
            texture_id: self.texture_id,
            filter_mode: self.filter_mode,
            shading_flags: self.shading_flags@,
            alpha: self.alpha,
        }
    }
}

/// A material: a stack of layers.
#[derive(Clone, Debug)]
pub struct Material {
    pub layers: Vec<Layer>,
}

/// The value of each element.
pub open spec fn views_of<T: View>(v: Seq<T>) -> Seq<T::V> {
    v.map_values(|x: T| x@)
}

impl View for Material {
    type V = Seq<SpecLayer>;

    open spec fn view(&self) -> Seq<SpecLayer> {
        views_of(self.layers@)
    }
}

impl Default for Material {
    fn default() -> (m: Material)
        ensures
            m@ == Seq::<SpecLayer>::empty(),
    {
        let m = Material { layers: Vec::new() };
        assert(m@ =~= Seq::<SpecLayer>::empty());
        m
    }
}

/// A texture that the model refers to.
#[derive(Clone, Debug)]
pub struct Texture {
    pub filename: String,
    /// 0 for a file texture, 1 for team color, 2 for team glow.
    pub replaceable_id: u32,
    pub image_data: Option<Vec<u8>>,
    pub width: u32,
    pub height: u32,
}

/// Mathematical value of a [`Texture`].
pub struct SpecTexture {
    pub filename: Seq<char>,
    pub replaceable_id: u32,
    pub image_data: Option<Seq<u8>>,
    pub width: u32,
    pub height: u32,
}

impl View for Texture {
    type V = SpecTexture;

    open spec fn view(&self) -> SpecTexture {
        SpecTexture {
            filename: self.filename@,
            replaceable_id: self.replaceable_id,
            image_data: match self.image_data {
                Some(d) => Some(d@),
                None => None,
            },
            width: self.width,
            height: self.height,
        }
    }
}

/// An animation sequence: a named range of frames.
#[derive(Clone, Debug)]
pub struct Sequence {
    pub name: String,
    pub start_frame: u32,
    pub end_frame: u32,
    pub rarity: Option<u32>,
    pub non_looping: bool,
}

/// Mathematical value of a [`Sequence`].
pub struct SpecSequence {
    pub name: Seq<char>,
    pub start_frame: u32,
    pub end_frame: u32,
    pub rarity: Option<u32>,
    pub non_looping: bool,
}

impl View for Sequence {
    type V = SpecSequence;

    open spec fn view(&self) -> SpecSequence {
        SpecSequence {
            name: self.name@,
            start_frame: self.start_frame,
            end_frame: self.end_frame,
            rarity: self.rarity,
            non_looping: self.non_looping,
        }
    }
}

impl Default for Sequence {
    fn default() -> (s: Sequence)
        ensures
            s@ == (SpecSequence {
                name: Seq::empty(),
                start_frame: 0,
                end_frame: 0,
                rarity: None,
                non_looping: false,
            }),
    {
        Sequence { name: String::new(), start_frame: 0, end_frame: 0, rarity: None, non_looping: false }
    }
}

/// One keyframe of an animation track.
#[derive(Clone, Debug)]
pub struct Keyframe {
    pub frame: i32,
    /// Bit patterns of the value at this frame.
    pub data: Vec<u32>,
    pub in_tan: Vec<u32>,
    pub out_tan: Vec<u32>,
}

/// Mathematical value of a [`Keyframe`].
pub struct SpecKeyframe {
    pub frame: i32,
    pub data: Seq<u32>,
    pub in_tan: Seq<u32>,
    pub out_tan: Seq<u32>,
}

impl View for Keyframe {
    type V = SpecKeyframe;

    open spec fn view(&self) -> SpecKeyframe {
        SpecKeyframe {
            frame: self.frame,
            data: self.data@,
            in_tan: self.in_tan@,
            out_tan: self.out_tan@,
        }
    }
}

/// An animation track: keyframes and how to interpolate between them.
#[derive(Clone, Debug)]
pub struct AnimationController {
    /// 0 none, 1 linear, 2 Hermite, 3 Bezier.
    pub interpolation_type: u32,
    pub global_seq_id: i32,
    pub keyframes: Vec<Keyframe>,
}

/// Mathematical value of an [`AnimationController`].
pub struct SpecController {
    pub interpolation_type: u32,
    pub global_seq_id: i32,
    pub keyframes: Seq<SpecKeyframe>,
}

impl View for AnimationController {
    type V = SpecController;

    open spec fn view(&self) -> SpecController {
        SpecController {
            interpolation_type: self.interpolation_type,
            global_seq_id: self.global_seq_id,
            keyframes: views_of(self.keyframes@),
        }
    }
}

/// A bone of the skeleton.
#[derive(Clone, Debug)]
pub struct Bone {
    pub name: String,
    pub object_id: u32,
    /// Object id of the parent node, -1 for none.
    pub parent_id: i32,
    pub pivot_point: [u32; 3],
    pub geoset_id: Option<u32>,
    pub geoset_anim_id: Option<u32>,
    /// Controller indices, -1 when the node is not animated that way.
    pub translation_idx: i32,
    pub rotation_idx: i32,
    pub scaling_idx: i32,
    pub visibility_idx: i32,
}

/// Mathematical value of a [`Bone`].
pub struct SpecBone {
    pub name: Seq<char>,
    pub object_id: u32,
    pub parent_id: i32,
    pub pivot_point: [u32; 3],
    pub geoset_id: Option<u32>,
    pub geoset_anim_id: Option<u32>,
    pub translation_idx: i32,
    pub rotation_idx: i32,
    pub scaling_idx: i32,
    pub visibility_idx: i32,
}

impl View for Bone {
    type V = SpecBone;

    open spec fn view(&self) -> SpecBone {
        SpecBone {
            name: self.name@,
            object_id: self.object_id,
            parent_id: self.parent_id,
            pivot_point: self.pivot_point,
            geoset_id: self.geoset_id,
            geoset_anim_id: self.geoset_anim_id,
            translation_idx: self.translation_idx,
            rotation_idx: self.rotation_idx,
            scaling_idx: self.scaling_idx,
            visibility_idx: self.visibility_idx,
        }
    }
}

impl Default for Bone {
    fn default() -> (b: Bone)
        ensures
            b@ == (SpecBone {
                name: Seq::empty(),
                object_id: 0,
                parent_id: -1i32,
                pivot_point: [0, 0, 0],
                geoset_id: None,
                geoset_anim_id: None,
                translation_idx: -1i32,
                rotation_idx: -1i32,
                scaling_idx: -1i32,
                visibility_idx: -1i32,
            }),
    {
        Bone {
            name: String::new(),
            object_id: 0,
            parent_id: -1,
            pivot_point: [0, 0, 0],
            geoset_id: None,
            geoset_anim_id: None,
            translation_idx: -1,
            rotation_idx: -1,
            scaling_idx: -1,
            visibility_idx: -1,
        }
    }
}

/// A helper node of the skeleton (a node without geometry of its own).
#[derive(Clone, Debug)]
pub struct Helper {
    pub name: String,
    pub object_id: u32,
    pub parent_id: i32,
    pub pivot_point: [u32; 3],
    pub translation_idx: i32,
    pub rotation_idx: i32,
    pub scaling_idx: i32,
    pub visibility_idx: i32,
}

/// Mathematical value of a [`Helper`].
pub struct SpecHelper {
    pub name: Seq<char>,
    pub object_id: u32,
    pub parent_id: i32,
    pub pivot_point: [u32; 3],
    pub translation_idx: i32,
    pub rotation_idx: i32,
    pub scaling_idx: i32,
    pub visibility_idx: i32,
}

impl View for Helper {
    type V = SpecHelper;

    open spec fn view(&self) -> SpecHelper {
        SpecHelper {
            name: self.name@,
            object_id: self.object_id,
            parent_id: self.parent_id,
            pivot_point: self.pivot_point,
            translation_idx: self.translation_idx,
            rotation_idx: self.rotation_idx,
            scaling_idx: self.scaling_idx,
            visibility_idx: self.visibility_idx,
        }
    }
}

impl Default for Helper {
    fn default() -> (h: Helper)
        ensures
            h@ == (SpecHelper {
                name: Seq::empty(),
                object_id: 0,
                parent_id: -1i32,
                pivot_point: [0, 0, 0],
                translation_idx: -1i32,
                rotation_idx: -1i32,
                scaling_idx: -1i32,
                visibility_idx: -1i32,
            }),
    {
        Helper {
            name: String::new(),
            object_id: 0,
            parent_id: -1,
            pivot_point: [0, 0, 0],
            translation_idx: -1,
            rotation_idx: -1,
            scaling_idx: -1,
            visibility_idx: -1,
        }
    }
}

/// A whole model.
#[derive(Clone, Debug)]
pub struct Model {
    pub name: String,
    pub geosets: Vec<Geoset>,
    pub materials: Vec<Material>,
    pub textures: Vec<Texture>,
    pub sequences: Vec<Sequence>,
    pub bones: Vec<Bone>,
    pub helpers: Vec<Helper>,
    pub controllers: Vec<AnimationController>,
}

/// Mathematical value of a [`Model`].
pub struct SpecModel {
    pub name: Seq<char>,
    pub geosets: Seq<SpecGeoset>,
    pub materials: Seq<Seq<SpecLayer>>,
    pub textures: Seq<SpecTexture>,
    pub sequences: Seq<SpecSequence>,
    pub bones: Seq<SpecBone>,
    pub helpers: Seq<SpecHelper>,
    pub controllers: Seq<SpecController>,
}

impl View for Model {
    type V = SpecModel;

    open spec fn view(&self) -> SpecModel {
        SpecModel {
            name: self.name@,
            geosets: views_of(self.geosets@),
            materials: views_of(self.materials@),
            textures: views_of(self.textures@),
            sequences: views_of(self.sequences@),
            bones: views_of(self.bones@),
            helpers: views_of(self.helpers@),
            controllers: views_of(self.controllers@),
        }
    }
}

/// A model with the given name and nothing else.
pub open spec fn empty_model(name: Seq<char>) -> SpecModel {
    SpecModel {
        name,
        geosets: Seq::empty(),
        materials: Seq::empty(),
        textures: Seq::empty(),
        sequences: Seq::empty(),
        bones: Seq::empty(),
        helpers: Seq::empty(),
        controllers: Seq::empty(),
    }
}

impl Model {
    /// An empty model with the given name.
    pub fn named(name: String) -> (m: Model)
        ensures
            m@ == empty_model(name@),
    {
        let m = Model {
            name,
            geosets: Vec::new(),
            materials: Vec::new(),
            textures: Vec::new(),
            sequences: Vec::new(),
            bones: Vec::new(),
            helpers: Vec::new(),
            controllers: Vec::new(),
        };
        assert(m@.geosets =~= Seq::<SpecGeoset>::empty());
        assert(m@.materials =~= Seq::<Seq<SpecLayer>>::empty());
        assert(m@.textures =~= Seq::<SpecTexture>::empty());
        assert(m@.sequences =~= Seq::<SpecSequence>::empty());
        assert(m@.bones =~= Seq::<SpecBone>::empty());
        assert(m@.helpers =~= Seq::<SpecHelper>::empty());
        assert(m@.controllers =~= Seq::<SpecController>::empty());
        m
    }
}

impl Default for Model {
    fn default() -> (m: Model)
        ensures
            m@ == empty_model(Seq::empty()),
    {
        Model::named(String::new())
    }
}

} // verus!
