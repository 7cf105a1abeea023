use mdlvis::camera::{CameraInput, DragAction, MouseButton};
use mdlvis::events::{handle_event, EventResponse, ViewerAction, ViewerEvent};
use mdlvis::render::SlotTexture;
use mdlvis::model::{Face, Geoset, Model, TexCoord, Vertex};
use mdlvis::registry::{get_raw, register, unregister};
use mdlvis::stats::{cover_geosets, model_totals};
use mdlvis::textures::{
    apply_texture_result, archive_url, texture_base_url, texture_source, texture_url, TextureLoadResult, TextureSource,
};

#[test]
fn right_button_rotates_from_the_second_move() {
    let mut c = CameraInput::new();
    assert_eq!(c.on_mouse_move(), DragAction::Idle);
    c.on_mouse_button(MouseButton::Right, true);
    assert_eq!(c.drag_mode(), DragAction::Rotate);
    assert_eq!(c.on_mouse_move(), DragAction::Idle);
    assert!(c.anchored);
    assert_eq!(c.on_mouse_move(), DragAction::Rotate);
    c.on_mouse_button(MouseButton::Right, false);
    assert!(!c.anchored);
    assert_eq!(c.on_mouse_move(), DragAction::Idle);
}

#[test]
fn middle_button_and_shift_right_pan() {
    let mut c = CameraInput::new();
    c.on_mouse_button(MouseButton::Middle, true);
    c.on_mouse_move();
    assert_eq!(c.on_mouse_move(), DragAction::Pan);
    c.on_mouse_button(MouseButton::Middle, false);
    c.on_modifiers(true, false);
    c.on_mouse_button(MouseButton::Right, true);
    assert_eq!(c.drag_mode(), DragAction::Pan);
    c.on_modifiers(false, false);
    assert_eq!(c.drag_mode(), DragAction::Rotate);
}

#[test]
fn alt_left_rotates_and_left_alone_does_nothing() {
    let mut c = CameraInput::new();
    c.on_mouse_button(MouseButton::Left, true);
    assert_eq!(c.drag_mode(), DragAction::Idle);
    c.on_modifiers(false, true);
    assert_eq!(c.drag_mode(), DragAction::Rotate);
    c.on_mouse_button(MouseButton::Other, true);
    assert_eq!(c.drag_mode(), DragAction::Rotate);
}

#[test]
fn reset_forgets_the_mouse_position() {
    let mut c = CameraInput::new();
    c.on_mouse_button(MouseButton::Right, true);
    c.on_mouse_move();
    c.reset();
    assert!(!c.anchored);
    assert!(c.right_pressed);
    assert_eq!(c.on_mouse_move(), DragAction::Idle);
}

#[test]
fn registry_hands_back_what_was_registered() {
    let mut slot: Option<usize> = None;
    assert_eq!(get_raw(&slot), None);
    register(&mut slot, 0x1000);
    assert_eq!(get_raw(&slot), Some(0x1000));
    register(&mut slot, 0x2000);
    assert_eq!(get_raw(&slot), Some(0x2000));
    unregister(&mut slot);
    assert_eq!(get_raw(&slot), None);
}

#[test]
fn texture_urls() {
    let base = texture_base_url();
    assert_eq!(base, "https://github.com/WarRaft/War3.mpq/raw/refs/heads/main/lowercase");
    assert_eq!(
        texture_url("Textures\\Footman.blp"),
        format!("{}/textures/footman.blp", base)
    );
    assert_eq!(texture_url("/\\/UI\\Glow.BLP"), format!("{}/ui/glow.blp", base));
    assert_eq!(texture_url(""), format!("{}/", base));
    assert_eq!(texture_url("ÄB\\c"), format!("{}/äb/c", base));
}

#[test]
fn model_totals_add_up_geosets() {
    let mut m = Model::default();
    assert_eq!(model_totals(&m), Some((0, 0, 0)));
    let mut g = Geoset::new();
    g.vertices = vec![Vertex { position: [0, 0, 0] }; 4];
    g.faces = vec![Face { vertices: [0, 1, 2] }; 2];
    g.tex_coords = vec![TexCoord { uv: [0, 0] }; 3];
    m.geosets.push(g.clone());
    m.geosets.push(g);
    assert_eq!(model_totals(&m), Some((8, 4, 6)));
}

#[test]
fn geoset_visibility_is_extended_with_shown() {
    let mut show = vec![false];
    cover_geosets(&mut show, 3);
    assert_eq!(show, vec![false, true, true]);
    cover_geosets(&mut show, 2);
    assert_eq!(show, vec![false, true, true]);
}

#[test]
fn close_and_escape_exit() {
    let mut c = CameraInput::new();
    let exit = EventResponse { repaint: false, exit: true };
    let keep = EventResponse { repaint: false, exit: false };
    assert_eq!(handle_event(&mut c, ViewerEvent::CloseRequested, true, true), (exit, ViewerAction::Nothing));
    assert_eq!(handle_event(&mut c, ViewerEvent::Key { escape: true }, false, false), (exit, ViewerAction::Nothing));
    assert_eq!(
        handle_event(&mut c, ViewerEvent::Key { escape: true }, true, true),
        (EventResponse { repaint: true, exit: false }, ViewerAction::Nothing)
    );
    assert_eq!(handle_event(&mut c, ViewerEvent::Key { escape: false }, false, true), (keep, ViewerAction::Nothing));
    assert_eq!(handle_event(&mut c, ViewerEvent::Resized, false, false), (keep, ViewerAction::Resize));
    assert_eq!(handle_event(&mut c, ViewerEvent::MouseWheel, false, false), (keep, ViewerAction::Zoom));
    assert_eq!(handle_event(&mut c, ViewerEvent::PinchGesture, false, false), (keep, ViewerAction::Zoom));
    assert_eq!(handle_event(&mut c, ViewerEvent::RotationGesture, false, false), (keep, ViewerAction::TurnCamera));
    assert_eq!(handle_event(&mut c, ViewerEvent::PanGesture { moved: true }, false, false), (keep, ViewerAction::TurnCamera));
    assert_eq!(handle_event(&mut c, ViewerEvent::PanGesture { moved: false }, false, false), (keep, ViewerAction::Nothing));
    assert_eq!(handle_event(&mut c, ViewerEvent::Other, false, false), (keep, ViewerAction::Nothing));
    assert_eq!(c, CameraInput::new());
}

#[test]
fn mouse_events_drive_the_camera_controls() {
    let mut c = CameraInput::new();
    handle_event(&mut c, ViewerEvent::MouseInput { button: MouseButton::Middle, pressed: true }, false, false);
    assert!(c.middle_pressed);
    assert_eq!(handle_event(&mut c, ViewerEvent::CursorMoved, false, false).1, ViewerAction::MoveCursor(DragAction::Idle));
    assert_eq!(handle_event(&mut c, ViewerEvent::CursorMoved, false, false).1, ViewerAction::MoveCursor(DragAction::Pan));
    handle_event(&mut c, ViewerEvent::ModifiersChanged { shift: true, alt: true }, false, false);
    assert!(c.shift_pressed && c.alt_pressed);
}

#[test]
fn texture_results_bind_or_report() {
    let mut slots = vec![SlotTexture::White];
    let ok = TextureLoadResult::Success { texture_id: 2, rgba_data: vec![0; 16], width: 2, height: 2 };
    assert_eq!(apply_texture_result(&mut slots, ok), None);
    assert_eq!(slots, vec![SlotTexture::White, SlotTexture::White, SlotTexture::Loaded { width: 2, height: 2 }]);
    let failed = TextureLoadResult::Error { texture_id: 2, error: "HTTP 404".to_string() };
    assert_eq!(apply_texture_result(&mut slots, failed), Some("HTTP 404".to_string()));
    assert_eq!(slots[2], SlotTexture::Loaded { width: 2, height: 2 });
}

#[test]
fn sequence_durations() {
    let mut s = mdlvis::model::Sequence::default();
    s.start_frame = 100;
    s.end_frame = 933;
    assert_eq!(mdlvis::stats::sequence_duration(&s), 833);
    s.end_frame = 100;
    assert_eq!(mdlvis::stats::sequence_duration(&s), 0);
}

#[test]
fn archive_urls_of_lowercased_paths() {
    let base = texture_base_url();
    assert_eq!(archive_url("//textures\\Footman.blp"), format!("{}/textures/Footman.blp", base));
    assert_eq!(archive_url(""), format!("{}/", base));
}

#[test]
fn texture_sources() {
    let mut t = mdlvis::model::Texture { filename: String::new(), replaceable_id: 1, image_data: None, width: 0, height: 0 };
    assert_eq!(texture_source(&t), TextureSource::TeamColor);
    assert_eq!(texture_source(&t).generated_size(), Some((4, 4)));
    t.replaceable_id = 2;
    assert_eq!(texture_source(&t), TextureSource::TeamGlow);
    assert_eq!(texture_source(&t).generated_size(), Some((32, 32)));
    t.replaceable_id = 0;
    assert_eq!(texture_source(&t), TextureSource::Nothing);
    t.filename = "Textures\\Footman.blp".to_string();
    assert_eq!(texture_source(&t), TextureSource::Fetch);
    assert_eq!(texture_source(&t).generated_size(), None);
    t.replaceable_id = 11;
    assert_eq!(texture_source(&t), TextureSource::Nothing);
}
