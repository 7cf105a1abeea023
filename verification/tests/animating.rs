use mdlvis::animation::{
    Skeleton, controller_index, find_frame_span, hierarchy_order, skeleton_nodes, Blend, ControllerType, FrameSpan, TextureAnim,
};
use mdlvis::model::{AnimationController, Bone, Helper, Model};

#[test]
fn interpolation_codes() {
    assert_eq!(ControllerType::from_interpolation(0), ControllerType::DontInterp);
    assert_eq!(ControllerType::from_interpolation(1), ControllerType::Linear);
    assert_eq!(ControllerType::from_interpolation(2), ControllerType::Hermite);
    assert_eq!(ControllerType::from_interpolation(3), ControllerType::Bezier);
    assert_eq!(ControllerType::from_interpolation(17), ControllerType::Linear);
}

#[test]
fn blends_of_controller_types() {
    assert_eq!(ControllerType::DontInterp.blend(), Blend::Hold);
    assert_eq!(ControllerType::Rotation.blend(), Blend::Slerp);
    assert_eq!(ControllerType::Hermite.blend(), Blend::Cubic);
    assert_eq!(ControllerType::Bezier.blend(), Blend::Cubic);
    assert_eq!(ControllerType::Linear.blend(), Blend::Linear);
    assert_eq!(ControllerType::Translation.blend(), Blend::Linear);
    assert_eq!(ControllerType::Scaling.blend(), Blend::Linear);
    assert_eq!(ControllerType::Alpha.blend(), Blend::Linear);
}

#[test]
fn texture_animation_defaults_to_no_tracks() {
    let t = TextureAnim::default();
    assert_eq!(t, TextureAnim { translation_graph: -1, rotation_graph: -1, scaling_graph: -1 });
}

#[test]
fn controller_indices() {
    assert_eq!(controller_index(-1, 5), None);
    assert_eq!(controller_index(5, 5), None);
    assert_eq!(controller_index(0, 5), Some(0));
    assert_eq!(controller_index(4, 5), Some(4));
    assert_eq!(controller_index(0, 0), None);
}

#[test]
fn frame_spans() {
    let frames = [0, 100, 200];
    assert_eq!(find_frame_span(&[], 5), FrameSpan::Empty);
    assert_eq!(find_frame_span(&frames, -5), FrameSpan::BeforeFirst);
    assert_eq!(find_frame_span(&frames, 250), FrameSpan::AfterLast);
    assert_eq!(find_frame_span(&frames, 100), FrameSpan::Exact(1));
    assert_eq!(find_frame_span(&frames, 0), FrameSpan::Exact(0));
    assert_eq!(find_frame_span(&frames, 150), FrameSpan::Between { before: 1, after: 2, num: 50, den: 100 });
    assert_eq!(find_frame_span(&frames, 25), FrameSpan::Between { before: 0, after: 1, num: 25, den: 100 });
}

#[test]
fn frame_span_with_repeated_keyframes() {
    // The scan stops at the first keyframe at or after the frame.
    assert_eq!(find_frame_span(&[10, 10, 20], 10), FrameSpan::Exact(0));
    assert_eq!(find_frame_span(&[0, 10, 10, 20], 15), FrameSpan::Between { before: 2, after: 3, num: 5, den: 10 });
    assert_eq!(find_frame_span(&[i32::MIN, i32::MAX], 0), FrameSpan::Between {
        before: 0,
        after: 1,
        num: -(i32::MIN as i64),
        den: i32::MAX as i64 - i32::MIN as i64,
    });
}

fn skeleton() -> Model {
    let mut m = Model::default();
    let mut a = Bone::default();
    a.name = "Root".to_string();
    a.object_id = 10;
    let mut b = Bone::default();
    b.name = "Arm".to_string();
    b.object_id = 11;
    b.parent_id = 20;
    b.rotation_idx = 3;
    m.bones = vec![a, b];
    let mut h = Helper::default();
    h.name = "Mount".to_string();
    h.object_id = 20;
    h.parent_id = 10;
    let mut lost = Helper::default();
    lost.object_id = 21;
    lost.parent_id = 99;
    m.helpers = vec![h, lost];
    m
}

#[test]
fn skeleton_nodes_resolve_parent_slots() {
    let (bones, helpers) = skeleton_nodes(&skeleton());
    assert_eq!(bones.len(), 2);
    assert_eq!(helpers.len(), 2);
    assert_eq!(bones[0].parent, -1);
    assert_eq!(bones[1].parent, 2);
    assert_eq!(bones[1].name, "Arm");
    assert_eq!(bones[1].object_id, 11);
    assert_eq!(bones[1].rotation_idx, 3);
    assert_eq!(helpers[0].parent, 0);
    assert_eq!(helpers[1].parent, -1);
}

#[test]
fn skeleton_nodes_take_the_last_node_with_an_id() {
    let mut m = skeleton();
    let mut dup = Helper::default();
    dup.object_id = 10;
    m.helpers.push(dup);
    let (bones, helpers) = skeleton_nodes(&m);
    assert_eq!(helpers[0].parent, 4);
    assert_eq!(bones[0].parent, -1);
}

#[test]
fn hierarchy_places_parents_first() {
    let (bones, helpers) = skeleton_nodes(&skeleton());
    let parents: Vec<i32> = bones.iter().chain(helpers.iter()).map(|n| n.parent).collect();
    assert_eq!(parents, vec![-1, 2, 0, -1]);
    let steps = hierarchy_order(&parents, 2).unwrap();
    assert_eq!(steps, vec![(0, 2), (2, 1)]);
}

#[test]
fn hierarchy_of_a_chain() {
    // Node 0 is the child of 1, which is the child of 2, the root.
    let steps = hierarchy_order(&[1, 2, -1], 3).unwrap();
    assert_eq!(steps, vec![(2, 1), (1, 0)]);
    assert_eq!(hierarchy_order(&[], 0).unwrap(), vec![]);
    assert_eq!(hierarchy_order(&[-1, -1], 1).unwrap(), vec![]);
}

#[test]
fn hierarchy_with_a_cycle_has_no_order() {
    assert_eq!(hierarchy_order(&[1, 0], 2), None);
    assert_eq!(hierarchy_order(&[0], 1), None);
}

#[test]
fn skeleton_init_discards_what_it_held() {
    let mut first = skeleton();
    first.controllers.push(AnimationController { interpolation_type: 2, global_seq_id: -1, keyframes: Vec::new() });
    let mut s = Skeleton::new();
    assert!(s.bones.is_empty());
    s.init_from_model(&first);
    assert_eq!(s.bones.len(), 2);
    assert_eq!(s.controller_types, vec![ControllerType::Hermite]);
    let mut second = Model::default();
    second.bones.push(Bone::default());
    s.init_from_model(&second);
    assert_eq!(s.bones.len(), 1);
    assert!(s.helpers.is_empty());
    assert!(s.controller_types.is_empty());
    s.init_from_model(&second);
    assert_eq!(s.bones.len(), 1);
    assert_eq!(s.bones[0].parent, -1);
}
