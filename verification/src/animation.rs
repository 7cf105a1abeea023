//! The discrete side of skeletal animation: what kind of interpolation a
//! track uses, which keyframes enclose a frame, and how the nodes of the
//! skeleton refer to their parents.
use crate::model::{views_of, Model, SpecBone, SpecHelper, SpecModel};
use std::collections::HashMap;
use vstd::prelude::*;

verus! {

broadcast use vstd::std_specs::hash::group_hash_axioms;

/// How the values of a track are produced between keyframes.
#[derive(Clone, Copy, Debug, PartialEq, Eq, Structural)]
pub enum ControllerType {
    Translation,
    Rotation,
    Scaling,
    Alpha,
    DontInterp,
    Linear,
    Hermite,
    Bezier,
}

/// The interpolation that a track's interpolation-type code selects.
pub open spec fn controller_type_of(code: u32) -> ControllerType {
    if code == 0 {
        ControllerType::DontInterp
    } else if code == 2 {
        ControllerType::Hermite
    } else if code == 3 {
        ControllerType::Bezier
    } else {
        ControllerType::Linear
    }
}

/// How a value between two keyframes is computed.
#[derive(Clone, Copy, Debug, PartialEq, Eq, Structural)]
pub enum Blend {
    /// The value of the earlier keyframe.
    Hold,
    /// Component-wise linear interpolation.
    Linear,
    /// Spherical linear interpolation of a quaternion.
    Slerp,
    /// Cubic interpolation with the keyframes' tangents.
    Cubic,
}

/// The blend that a controller type uses.
pub open spec fn blend_of(t: ControllerType) -> Blend {
    match t {
        ControllerType::DontInterp => Blend::Hold,
        ControllerType::Rotation => Blend::Slerp,
        ControllerType::Hermite | ControllerType::Bezier => Blend::Cubic,
        _ => Blend::Linear,
    }
}

impl ControllerType {
    /// The controller type of an interpolation-type code of the file
    /// (0 none, 1 linear, 2 Hermite, 3 Bezier, anything else linear).
    pub fn from_interpolation(code: u32) -> (r: ControllerType)
        ensures
            r == controller_type_of(code),
    {
        if code == 0 {
            ControllerType::DontInterp
        } else if code == 2 {
            ControllerType::Hermite
        } else if code == 3 {
            ControllerType::Bezier
        } else {
            ControllerType::Linear
        }
    }

    /// How values between keyframes are computed for this type.
    pub fn blend(&self) -> (r: Blend)
        ensures
            r == blend_of(*self),
    {
        match self {
            ControllerType::DontInterp => Blend::Hold,
            ControllerType::Rotation => Blend::Slerp,
            ControllerType::Hermite | ControllerType::Bezier => Blend::Cubic,
            _ => Blend::Linear,
        }
    }
}

/// Texture animation: the tracks that move, turn and scale a texture.
#[derive(Clone, Copy, Debug, PartialEq, Eq, Structural)]
pub struct TextureAnim {
    pub translation_graph: i32,
    pub rotation_graph: i32,
    pub scaling_graph: i32,
}

impl Default for TextureAnim {
    /// A texture animation with no tracks.
    fn default() -> (r: TextureAnim)
        ensures
            r == (TextureAnim { translation_graph: -1i32, rotation_graph: -1i32, scaling_graph: -1i32 }),
    {
        TextureAnim { translation_graph: -1, rotation_graph: -1, scaling_graph: -1 }
    }
}

/// The index of the controller that a node's track index designates among
/// `count` controllers, if it designates one.
pub open spec fn controller_slot(idx: i32, count: nat) -> Option<nat> {
    if 0 <= idx < count {
        Some(idx as nat)
    } else {
        None
    }
}

/// The controller that a track index designates among `count` controllers;
/// `None` (the track's value is then the default) for a negative or too
/// large index.
pub fn controller_index(idx: i32, count: usize) -> (r: Option<usize>)
    ensures
        r matches Some(i) ==> controller_slot(idx, count as nat) == Some(i as nat),
        r is None ==> controller_slot(idx, count as nat) is None,
{
    if idx < 0 || idx as usize >= count {
        None
    } else {
        Some(idx as usize)
    }
}

/// Where a frame falls among the keyframes of a track.
#[derive(Clone, Copy, Debug, PartialEq, Eq, Structural)]
pub enum FrameSpan {
    /// The track has no keyframes.
    Empty,
    /// The frame comes before every keyframe: the first keyframe holds.
    BeforeFirst,
    /// The frame comes after every keyframe: the last keyframe holds.
    AfterLast,
    /// A keyframe lies exactly on the frame.
    Exact(usize),
    /// The frame lies between two keyframes; `num / den` is how far it is
    /// from the earlier one towards the later one.
    Between { before: usize, after: usize, num: i64, den: i64 },
}

/// The first keyframe at or after `frame`, scanning from the start.
pub open spec fn first_at_least(frames: Seq<i32>, frame: i32) -> Option<int>
    decreases frames.len(),
{
    if frames.len() == 0 {
        None
    } else if frames[0] >= frame {
        Some(0)
    } else {
        match first_at_least(frames.drop_first(), frame) {
            Some(i) => Some(i + 1),
            None => None,
        }
    }
}

/// The last keyframe before position `k` that lies at or before `frame`.
pub open spec fn last_at_most(frames: Seq<i32>, frame: i32, k: int) -> Option<int>
    decreases k,
{
    if k <= 0 {
        None
    } else if frames[k - 1] <= frame {
        Some(k - 1)
    } else {
        last_at_most(frames, frame, k - 1)
    }
}

/// Where `frame` falls among keyframes at `frames`: the scan stops at the
/// first keyframe at or after the frame, and the earlier keyframe is the
/// last one up to there that lies at or before it.
pub open spec fn frame_span(frames: Seq<i32>, frame: i32) -> FrameSpan {
    let after = first_at_least(frames, frame);
    let before = last_at_most(
        frames,
        frame,
        match after {
            Some(a) => a + 1,
            None => frames.len() as int,
        },
    );
    if frames.len() == 0 {
        FrameSpan::Empty
    } else {
        match (before, after) {
            (None, _) => FrameSpan::BeforeFirst,
            (_, None) => FrameSpan::AfterLast,
            (Some(b), Some(a)) => if b == a {
                FrameSpan::Exact(b as usize)
            } else {
                FrameSpan::Between {
                    before: b as usize,
                    after: a as usize,
                    num: (frame - frames[b]) as i64,
                    den: (frames[a] - frames[b]) as i64,
                }
            },
        }
    }
}

proof fn lemma_first_at_least(frames: Seq<i32>, frame: i32, i: int)
    requires
        0 <= i <= frames.len(),
        forall|j: int| 0 <= j < i ==> frames[j] < frame,
    ensures
        i < frames.len() && frames[i] >= frame ==> first_at_least(frames, frame) == Some(i),
        i == frames.len() ==> first_at_least(frames, frame) is None,
    decreases i,
{
    if i > 0 {
        let rest = frames.drop_first();
        assert forall|j: int| 0 <= j < i - 1 implies rest[j] < frame by {
            assert(rest[j] == frames[j + 1]);
        }
        if i < frames.len() {
            assert(rest[i - 1] == frames[i]);
        }
        lemma_first_at_least(rest, frame, i - 1);
    }
}

proof fn lemma_first_at_least_facts(frames: Seq<i32>, frame: i32)
    ensures
        first_at_least(frames, frame) matches Some(a) ==> 0 <= a < frames.len() && frames[a]
            >= frame && forall|j: int| 0 <= j < a ==> frames[j] < frame,
        first_at_least(frames, frame) is None ==> forall|j: int|
            0 <= j < frames.len() ==> frames[j] < frame,
    decreases frames.len(),
{
    if frames.len() > 0 && frames[0] < frame {
        let rest = frames.drop_first();
        lemma_first_at_least_facts(rest, frame);
        assert forall|j: int| 1 <= j < frames.len() implies frames[j] == rest[j - 1] by {}
    }
}

proof fn lemma_last_at_most_facts(frames: Seq<i32>, frame: i32, k: int)
    requires
        k <= frames.len(),
    ensures
        last_at_most(frames, frame, k) matches Some(b) ==> 0 <= b < k && frames[b] <= frame
            && forall|j: int| b < j < k ==> frames[j] > frame,
        last_at_most(frames, frame, k) is None ==> forall|j: int|
            0 <= j < k ==> frames[j] > frame,
    decreases k,
{
    if k > 0 && frames[k - 1] > frame {
        lemma_last_at_most_facts(frames, frame, k - 1);
    }
}

/// Where `frame` falls among the keyframes at `frames` (see [`frame_span`]).
pub fn find_frame_span(frames: &[i32], frame: i32) -> (r: FrameSpan)
    ensures
        r == frame_span(frames@, frame),
{
    let n = frames.len();
    let mut before: Option<usize> = None;
    let mut after: Option<usize> = None;
    let mut i: usize = 0;
    while i < n
        invariant_except_break
            after is None,
            forall|j: int| 0 <= j < i ==> frames@[j] < frame,
            before == match last_at_most(frames@, frame, i as int) {
                Some(b) => Some(b as usize),
                None => None::<usize>,
            },
        invariant
            n == frames@.len(),
            i <= n,
        ensures
            after is None ==> i == n && (forall|j: int| 0 <= j < n ==> frames@[j] < frame)
                && before == match last_at_most(frames@, frame, n as int) {
                Some(b) => Some(b as usize),
                None => None::<usize>,
            },
            after matches Some(a) ==> a == i && i < n && frames@[a as int] >= frame && (forall|
                j: int,
            | 0 <= j < a ==> frames@[j] < frame) && before == match last_at_most(
                frames@,
                frame,
                a + 1,
            ) {
                Some(b) => Some(b as usize),
                None => None::<usize>,
            },
        decreases n - i,
    {
        if frames[i] <= frame {
            before = Some(i);
        }
        if frames[i] >= frame {
            after = Some(i);
            break;
        }
        i = i + 1;
    }
    proof {
        lemma_first_at_least(frames@, frame, i as int);
        lemma_last_at_most_facts(frames@, frame, match after {
            Some(a) => a + 1,
            None => n as int,
        });
    }
    if n == 0 {
        return FrameSpan::Empty;
    }
    match (before, after) {
        (None, _) => FrameSpan::BeforeFirst,
        (Some(_), None) => FrameSpan::AfterLast,
        (Some(b), Some(a)) => {
            if b == a {
                FrameSpan::Exact(b)
            } else {
                FrameSpan::Between {
                    before: b,
                    after: a,
                    num: frame as i64 - frames[b] as i64,
                    den: frames[a] as i64 - frames[b] as i64,
                }
            }
        },
    }
}

/// The two keyframes that enclose a frame strictly surround it: the earlier
/// one comes first and lies before the frame, the later one after it, so
/// the fraction `num / den` lies strictly between 0 and 1.
pub proof fn law_span_encloses_frame(frames: Seq<i32>, frame: i32)
    requires
        frames.len() <= usize::MAX,
    ensures
        frame_span(frames, frame) matches FrameSpan::Between { before, after, num, den } ==> {
            &&& before < after < frames.len()
            &&& frames[before as int] < frame < frames[after as int]
            &&& 0 < num < den
        },
        frame_span(frames, frame) matches FrameSpan::Exact(i) ==> i < frames.len() && frames[i as int]
            == frame,
        frame_span(frames, frame) is BeforeFirst ==> frames.len() > 0 && frame < frames[0],
        frame_span(frames, frame) is AfterLast ==> frames.len() > 0 && frames.last() < frame,
{
    lemma_first_at_least_facts(frames, frame);
    let after = first_at_least(frames, frame);
    let k = match after {
        Some(a) => a + 1,
        None => frames.len() as int,
    };
    lemma_last_at_most_facts(frames, frame, k);
}

/// The last node in `ids` whose object id, read as a signed number, is `key`.
pub open spec fn last_with_id(ids: Seq<u32>, key: i32) -> Option<int>
    decreases ids.len(),
{
    if ids.len() == 0 {
        None
    } else if ids.last() as i32 == key {
        Some(ids.len() - 1)
    } else {
        last_with_id(ids.drop_last(), key)
    }
}

/// The slot of the node with object id `key` in the sequence of all nodes
/// (bones first, then helpers).  When several nodes share the id, a helper
/// wins over a bone and a later node over an earlier one.
pub open spec fn node_slot(bone_ids: Seq<u32>, helper_ids: Seq<u32>, key: i32) -> Option<int> {
    match last_with_id(helper_ids, key) {
        Some(h) => Some(bone_ids.len() + h),
        None => last_with_id(bone_ids, key),
    }
}

/// The slot of a node's parent given its parent's object id, or -1 when
/// the node has no parent (a negative id) or no node has that id.
pub open spec fn parent_slot(bone_ids: Seq<u32>, helper_ids: Seq<u32>, parent_id: i32) -> i32 {
    if parent_id >= 0 {
        match node_slot(bone_ids, helper_ids, parent_id) {
            Some(i) => i as i32,
            None => -1i32,
        }
    } else {
        -1i32
    }
}

/// The object ids of the bones of a model.
pub open spec fn bone_ids(m: SpecModel) -> Seq<u32> {
    m.bones.map_values(|b: SpecBone| b.object_id)
}

/// The object ids of the helpers of a model.
pub open spec fn helper_ids(m: SpecModel) -> Seq<u32> {
    m.helpers.map_values(|h: SpecHelper| h.object_id)
}

/// A node of the skeleton as animation sees it: its parent is a slot in
/// the sequence of all nodes rather than an object id.
#[derive(Clone, Debug)]
pub struct SkeletonNode {
    pub name: String,
    pub object_id: i32,
    /// Slot of the parent among all nodes (bones, then helpers), -1 for none.
    pub parent: i32,
    pub translation_idx: i32,
    pub rotation_idx: i32,
    pub scaling_idx: i32,
    pub visibility_idx: i32,
}

/// Mathematical value of a [`SkeletonNode`].
pub struct SpecNode {
    pub name: Seq<char>,
    pub object_id: i32,
    pub parent: i32,
    pub translation_idx: i32,
    pub rotation_idx: i32,
    pub scaling_idx: i32,
    pub visibility_idx: i32,
}

impl View for SkeletonNode {
    type V = SpecNode;

    open spec fn view(&self) -> SpecNode {
        SpecNode {
            name: self.name@,
            object_id: self.object_id,
            parent: self.parent,
            translation_idx: self.translation_idx,
            rotation_idx: self.rotation_idx,
            scaling_idx: self.scaling_idx,
            visibility_idx: self.visibility_idx,
        }
    }
}

/// The skeleton node of bone `i` of a model.
pub open spec fn bone_node(m: SpecModel, i: int) -> SpecNode {
    let b = m.bones[i];
    SpecNode {
        name: b.name,
        object_id: b.object_id as i32,
        parent: parent_slot(bone_ids(m), helper_ids(m), b.parent_id),
        translation_idx: b.translation_idx,
        rotation_idx: b.rotation_idx,
        scaling_idx: b.scaling_idx,
        visibility_idx: b.visibility_idx,
    }
}

/// The skeleton node of helper `i` of a model.
pub open spec fn helper_node(m: SpecModel, i: int) -> SpecNode {
    let h = m.helpers[i];
    SpecNode {
        name: h.name,
        object_id: h.object_id as i32,
        parent: parent_slot(bone_ids(m), helper_ids(m), h.parent_id),
        translation_idx: h.translation_idx,
        rotation_idx: h.rotation_idx,
        scaling_idx: h.scaling_idx,
        visibility_idx: h.visibility_idx,
    }
}

proof fn lemma_last_with_id_step(ids: Seq<u32>, i: int, key: i32)
    requires
        0 <= i < ids.len(),
    ensures
        last_with_id(ids.take(i + 1), key) == if ids[i] as i32 == key {
            Some(i)
        } else {
            last_with_id(ids.take(i), key)
        },
{
    assert(ids.take(i + 1).drop_last() =~= ids.take(i));
}

/// Whether `index` maps exactly the object ids of `bone_ids` and of the first
/// `j` helpers to their slots.
spec fn indexes(index: Map<i32, usize>, bone_ids: Seq<u32>, helper_ids: Seq<u32>) -> bool {
    forall|k: i32|
        #![trigger index.contains_key(k)]
        (index.contains_key(k) <==> node_slot(bone_ids, helper_ids, k) is Some) && (
        index.contains_key(k) ==> index[k] as int == node_slot(bone_ids, helper_ids, k).unwrap())
}

/// The skeleton nodes of a model's bones and helpers, with each parent's
/// object id turned into the parent's slot among all nodes.
pub fn skeleton_nodes(model: &Model) -> (r: (Vec<SkeletonNode>, Vec<SkeletonNode>))
    requires
        model@.bones.len() + model@.helpers.len() <= usize::MAX,
    ensures
        views_of(r.0@) == Seq::new(model@.bones.len(), |i: int| bone_node(model@, i)),
        views_of(r.1@) == Seq::new(model@.helpers.len(), |i: int| helper_node(model@, i)),
{
    let ghost m = model@;
    let ghost bids = bone_ids(m);
    let ghost hids = helper_ids(m);
    let nb = model.bones.len();
    let nh = model.helpers.len();
    let mut index: HashMap<i32, usize> = HashMap::new();
    let mut i: usize = 0;
    while i < nb
        invariant
            m == model@,
            bids == bone_ids(m),
            hids == helper_ids(m),
            nb == model.bones@.len(),
            i <= nb,
            indexes(index@, bids.take(i as int), Seq::empty()),
        decreases nb - i,
    {
        let key = #[verifier::truncate] (model.bones[i].object_id as i32);
        index.insert(key, i);
        proof {
            assert(bids[i as int] == model.bones@[i as int].object_id);
            assert forall|k: i32| #![trigger index@.contains_key(k)] true implies (index@.contains_key(k)
                <==> node_slot(bids.take(i + 1), Seq::empty(), k) is Some) && (index@.contains_key(k)
                ==> index@[k] as int == node_slot(bids.take(i + 1), Seq::empty(), k).unwrap()) by {
                lemma_last_with_id_step(bids, i as int, k);
            }
        }
        i = i + 1;
    }
    assert(bids.take(nb as int) =~= bids);
    let mut j: usize = 0;
    while j < nh
        invariant
            m == model@,
            bids == bone_ids(m),
            hids == helper_ids(m),
            nb == model.bones@.len(),
            nh == model.helpers@.len(),
            nb + nh <= usize::MAX,
            j <= nh,
            indexes(index@, bids, hids.take(j as int)),
        decreases nh - j,
    {
        let key = #[verifier::truncate] (model.helpers[j].object_id as i32);
        index.insert(key, nb + j);
        proof {
            assert(hids[j as int] == model.helpers@[j as int].object_id);
            assert forall|k: i32| #![trigger index@.contains_key(k)] true implies (index@.contains_key(k)
                <==> node_slot(bids, hids.take(j + 1), k) is Some) && (index@.contains_key(k)
                ==> index@[k] as int == node_slot(bids, hids.take(j + 1), k).unwrap()) by {
                lemma_last_with_id_step(hids, j as int, k);
            }
        }
        j = j + 1;
    }
    assert(hids.take(nh as int) =~= hids);
    let mut bones: Vec<SkeletonNode> = Vec::new();
    let mut i: usize = 0;
    while i < nb
        invariant
            m == model@,
            bids == bone_ids(m),
            hids == helper_ids(m),
            nb == model.bones@.len(),
            i <= nb,
            indexes(index@, bids, hids),
            views_of(bones@) =~= Seq::new(i as nat, |k: int| bone_node(m, k)),
        decreases nb - i,
    {
        let b = &model.bones[i];
        let parent = if b.parent_id >= 0 {
            match index.get(&b.parent_id) {
                Some(slot) => #[verifier::truncate] (*slot as i32),
                None => -1,
            }
        } else {
            -1
        };
        let node = SkeletonNode {
            name: b.name.clone(),
            object_id: #[verifier::truncate] (b.object_id as i32),
            parent,
            translation_idx: b.translation_idx,
            rotation_idx: b.rotation_idx,
            scaling_idx: b.scaling_idx,
            visibility_idx: b.visibility_idx,
        };
        assert(node@ == bone_node(m, i as int));
        let ghost before = views_of(bones@);
        bones.push(node);
        assert(views_of(bones@) =~= before.push(bone_node(m, i as int)));
        i = i + 1;
    }
    let mut helpers: Vec<SkeletonNode> = Vec::new();
    let mut j: usize = 0;
    while j < nh
        invariant
            m == model@,
            bids == bone_ids(m),
            hids == helper_ids(m),
            nh == model.helpers@.len(),
            j <= nh,
            indexes(index@, bids, hids),
            views_of(helpers@) =~= Seq::new(j as nat, |k: int| helper_node(m, k)),
        decreases nh - j,
    {
        let h = &model.helpers[j];
        let parent = if h.parent_id >= 0 {
            match index.get(&h.parent_id) {
                Some(slot) => #[verifier::truncate] (*slot as i32),
                None => -1,
            }
        } else {
            -1
        };
        let node = SkeletonNode {
            name: h.name.clone(),
            object_id: #[verifier::truncate] (h.object_id as i32),
            parent,
            translation_idx: h.translation_idx,
            rotation_idx: h.rotation_idx,
            scaling_idx: h.scaling_idx,
            visibility_idx: h.visibility_idx,
        };
        assert(node@ == helper_node(m, j as int));
        let ghost before = views_of(helpers@);
        helpers.push(node);
        assert(views_of(helpers@) =~= before.push(helper_node(m, j as int)));
        j = j + 1;
    }
    (bones, helpers)
}

/// The discrete side of a model's animation: the nodes of its bones and of
/// its helpers, and the interpolation of each of its tracks.
pub struct Skeleton {
    pub bones: Vec<SkeletonNode>,
    pub helpers: Vec<SkeletonNode>,
    pub controller_types: Vec<ControllerType>,
}

/// Mathematical value of a [`Skeleton`].
pub struct SpecSkeleton {
    pub bones: Seq<SpecNode>,
    pub helpers: Seq<SpecNode>,
    pub controller_types: Seq<ControllerType>,
}

impl View for Skeleton {
    type V = SpecSkeleton;

    open spec fn view(&self) -> SpecSkeleton {
        SpecSkeleton {
            bones: views_of(self.bones@),
            helpers: views_of(self.helpers@),
            controller_types: self.controller_types@,
        }
    }
}

/// The skeleton of a model: a node for each bone and each helper, with
/// parents as slots, and the interpolation of each track.
pub open spec fn skeleton_of(m: SpecModel) -> SpecSkeleton {
    SpecSkeleton {
        bones: Seq::new(m.bones.len(), |i: int| bone_node(m, i)),
        helpers: Seq::new(m.helpers.len(), |j: int| helper_node(m, j)),
        controller_types: Seq::new(
            m.controllers.len(),
            |k: int| controller_type_of(m.controllers[k].interpolation_type),
        ),
    }
}

/// The skeleton after it is taken from model `m`: what it held before is
/// discarded.
pub open spec fn after_init(old: SpecSkeleton, m: SpecModel) -> SpecSkeleton {
    skeleton_of(m)
}

impl Skeleton {
    /// A skeleton with no nodes and no tracks.
    pub fn new() -> (r: Skeleton)
        ensures
            r@ == (SpecSkeleton { bones: Seq::empty(), helpers: Seq::empty(), controller_types: Seq::empty() }),
    {
        let r = Skeleton { bones: Vec::new(), helpers: Vec::new(), controller_types: Vec::new() };
        assert(r@.bones =~= Seq::<SpecNode>::empty());
        assert(r@.helpers =~= Seq::<SpecNode>::empty());
        r
    }

    /// Takes the skeleton of a model (see [`skeleton_of`]), discarding the
    /// nodes and tracks held before.
    pub fn init_from_model(&mut self, model: &Model)
        requires
            model@.bones.len() + model@.helpers.len() <= usize::MAX,
        ensures
            final(self)@ == after_init(old(self)@, model@),
    {
        let (bones, helpers) = skeleton_nodes(model);
        let ghost m = model@;
        let n = model.controllers.len();
        let mut types: Vec<ControllerType> = Vec::new();
        let mut k: usize = 0;
        while k < n
            invariant
                m == model@,
                n == m.controllers.len(),
                k <= n,
                types@ =~= Seq::new(
                    k as nat,
                    |i: int| controller_type_of(m.controllers[i].interpolation_type),
                ),
            decreases n - k,
        {
            assert(m.controllers[k as int] == model.controllers@[k as int]@);
            let t = ControllerType::from_interpolation(model.controllers[k].interpolation_type);
            types.push(t);
            k = k + 1;
        }
        self.bones = bones;
        self.helpers = helpers;
        self.controller_types = types;
    }
}

/// Taking the skeleton of a model discards what was held before: the result
/// depends on the model alone, so taking it twice is taking it once, and
/// taking it over any earlier skeleton gives the same.
pub proof fn law_init_discards_earlier_state(s: SpecSkeleton, t: SpecSkeleton, m1: SpecModel, m: SpecModel)
    ensures
        after_init(after_init(s, m1), m) == after_init(s, m),
        after_init(after_init(s, m), m) == after_init(s, m),
        after_init(s, m) == after_init(t, m),
        after_init(s, m) == skeleton_of(m),
{
}

/// Brings node `idx` into its final place in the hierarchy: first its
/// parent (recursively), then the node itself is placed relative to its
/// parent, recorded as the step `(parent, idx)`.  A node that is already
/// placed, or that lies outside the slots, is left alone; a root is only
/// marked placed.  `None` when the parent chain walks more than
/// `parents.len()` levels deep: it then runs in a cycle and never ends.
pub open spec fn place(parents: Seq<i32>, placed: Seq<bool>, idx: int, depth: nat) -> Option<
    (Seq<bool>, Seq<(usize, usize)>),
>
    decreases parents.len() + 1 - depth,
{
    if depth > parents.len() {
        None
    } else if idx < 0 || idx >= parents.len() || idx >= placed.len() {
        Some((placed, Seq::empty()))
    } else if placed[idx] {
        Some((placed, Seq::empty()))
    } else {
        let p = parents[idx];
        if p < 0 {
            Some((placed.update(idx, true), Seq::empty()))
        } else {
            match place(parents, placed, p as int, depth + 1) {
                None => None,
                Some((after, steps)) => if p >= parents.len() {
                    Some((after, steps))
                } else {
                    Some((after.update(idx, true), steps.push((p as usize, idx as usize))))
                },
            }
        }
    }
}

/// Places the nodes `slots[k..]` one after another (see [`place`]).
pub open spec fn place_all(parents: Seq<i32>, placed: Seq<bool>, slots: Seq<int>, k: int) -> Option<
    Seq<(usize, usize)>,
>
    decreases slots.len() - k,
{
    if k < 0 || k >= slots.len() {
        Some(Seq::empty())
    } else {
        match place(parents, placed, slots[k], 0) {
            None => None,
            Some((after, steps)) => match place_all(parents, after, slots, k + 1) {
                None => None,
                Some(rest) => Some(steps + rest),
            },
        }
    }
}

/// The order in which nodes are placed: the helpers (slots from
/// `bone_count` on) first, then the bones.
pub open spec fn placement_slots(count: nat, bone_count: nat) -> Seq<int> {
    let b = if bone_count <= count {
        bone_count
    } else {
        count
    };
    Seq::new((count - b) as nat, |i: int| b + i) + Seq::new(b, |i: int| i)
}

/// The steps that put every node of a skeleton in place, given the parent
/// slot of each node; `None` when a chain of parents runs in a cycle.
pub open spec fn hierarchy_steps(parents: Seq<i32>, bone_count: nat) -> Option<Seq<(usize, usize)>> {
    place_all(
        parents,
        Seq::new(parents.len(), |i: int| false),
        placement_slots(parents.len(), bone_count),
        0,
    )
}

fn place_node(
    parents: &[i32],
    placed: &mut Vec<bool>,
    idx: usize,
    depth: usize,
    steps: &mut Vec<(usize, usize)>,
) -> (ok: bool)
    requires
        old(placed)@.len() == parents@.len(),
        parents@.len() < usize::MAX,
        depth <= parents@.len() + 1,
    ensures
        final(placed)@.len() == parents@.len(),
        match place(parents@, old(placed)@, idx as int, depth as nat) {
            None => !ok,
            Some((after, st)) => ok && final(placed)@ == after && final(steps)@ == old(steps)@ + st,
        },
    decreases parents@.len() + 1 - depth,
{
    if depth > parents.len() {
        return false;
    }
    if idx >= parents.len() {
        assert(steps@ =~= old(steps)@ + Seq::<(usize, usize)>::empty());
        return true;
    }
    if placed[idx] {
        assert(steps@ =~= old(steps)@ + Seq::<(usize, usize)>::empty());
        return true;
    }
    let p = parents[idx];
    if p < 0 {
        placed.set(idx, true);
        assert(steps@ =~= old(steps)@ + Seq::<(usize, usize)>::empty());
        return true;
    }
    let ghost before_steps = steps@;
    if !place_node(parents, placed, p as usize, depth + 1, steps) {
        return false;
    }
    if p as usize >= parents.len() {
        return true;
    }
    let ghost mid = steps@;
    steps.push((p as usize, idx));
    placed.set(idx, true);
    assert(steps@ =~= before_steps + (mid.subrange(before_steps.len() as int, mid.len() as int)).push(
        (p as usize, idx),
    ));
    true
}

/// The steps, in order, that put every node of a skeleton in place: each
/// step `(parent, child)` places `child` relative to `parent`, after all
/// steps that place `parent`.  `parents` holds the parent slot of each node
/// (bones first, then helpers, -1 for a root); the helpers are placed first.
/// `None` when a chain of parents runs in a cycle.
pub fn hierarchy_order(parents: &[i32], bone_count: usize) -> (r: Option<Vec<(usize, usize)>>)
    requires
        parents@.len() < usize::MAX,
    ensures
        match hierarchy_steps(parents@, bone_count as nat) {
            None => r is None,
            Some(st) => r is Some && r->Some_0@ == st,
        },
{
    let n = parents.len();
    let b = if bone_count <= n {
        bone_count
    } else {
        n
    };
    let mut placed: Vec<bool> = Vec::new();
    let mut i: usize = 0;
    while i < n
        invariant
            i <= n,
            n == parents@.len(),
            placed@ =~= Seq::new(i as nat, |k: int| false),
        decreases n - i,
    {
        placed.push(false);
        i = i + 1;
    }
    let ghost slots = placement_slots(n as nat, bone_count as nat);
    let ghost target = hierarchy_steps(parents@, bone_count as nat);
    let mut steps: Vec<(usize, usize)> = Vec::new();
    let mut k: usize = 0;
    while k < n
        invariant
            k <= n,
            n == parents@.len(),
            n < usize::MAX,
            b <= n,
            b == (if bone_count <= n { bone_count } else { n }),
            slots == placement_slots(n as nat, bone_count as nat),
            slots.len() == n,
            placed@.len() == n,
            target == hierarchy_steps(parents@, bone_count as nat),
            target == match place_all(parents@, placed@, slots, k as int) {
                None => None,
                Some(rest) => Some(steps@ + rest),
            },
        decreases n - k,
    {
        let slot = if k < n - b {
            b + k
        } else {
            k - (n - b)
        };
        assert(slots[k as int] == slot as int);
        let ghost before = steps@;
        if !place_node(parents, &mut placed, slot, 0, &mut steps) {
            return None;
        }
        proof {
            let st = steps@.subrange(before.len() as int, steps@.len() as int);
            assert(steps@ =~= before + st);
            match place_all(parents@, placed@, slots, k + 1) {
                None => {},
                Some(rest) => {
                    assert(before + (st + rest) =~= steps@ + rest);
                },
            }
        }
        k = k + 1;
    }
    assert(steps@ + Seq::<(usize, usize)>::empty() =~= steps@);
    Some(steps)
}

} // verus!
