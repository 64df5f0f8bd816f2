use fractal::config_pick::{gl_config_picker, GlConfigInfo};
use fractal::fx::{Fx, FX_ONE};
use fractal::input::{InputState, KeyAction, NavKey};
use fractal::render_loop::{
    LoopEvent, LoopState, RenderLoop, PAN_DELTA, ROT_COS, ROT_SIN, ZOOM_IN_FACTOR, ZOOM_OUT_FACTOR,
};

#[test]
fn press_then_release_leaves_no_key_held() {
    let mut inp = InputState::new();
    inp.set_key(NavKey::ZoomIn, KeyAction::Pressed);
    assert!(inp.is_any_key_down());
    inp.set_key(NavKey::ZoomIn, KeyAction::Released);
    assert!(!inp.is_any_key_down());
    assert!(inp.iterate_held().is_empty());
}

#[test]
fn releasing_unpressed_key_changes_nothing() {
    let mut inp = InputState::new();
    inp.set_key(NavKey::PanUp, KeyAction::Pressed);
    inp.set_key(NavKey::RotCw, KeyAction::Released);
    let held = inp.iterate_held();
    assert_eq!(held, vec![NavKey::PanUp]);
}

#[test]
fn pressing_twice_is_idempotent() {
    let mut inp = InputState::new();
    inp.set_key(NavKey::PanDown, KeyAction::Pressed);
    inp.set_key(NavKey::PanDown, KeyAction::Pressed);
    assert_eq!(inp.iterate_held(), vec![NavKey::PanDown]);
}

#[test]
fn iteration_order_is_canonical_not_press_order() {
    let mut inp = InputState::new();
    inp.set_key(NavKey::PanRight, KeyAction::Pressed);
    inp.set_key(NavKey::PanLeft, KeyAction::Pressed);
    assert_eq!(inp.iterate_held(), vec![NavKey::PanLeft, NavKey::PanRight]);
}

#[test]
fn key_event_schedules_redraw() {
    let mut rl = RenderLoop::new();
    let d = rl.handle_event(LoopEvent::Key(NavKey::PanLeft, KeyAction::Pressed));
    assert!(d.request_redraw);
    assert!(!d.stop);
    assert!(d.frame.is_none());
    assert_eq!(rl.state, LoopState::NeedsRedraw);
}

#[test]
fn redraw_without_held_keys_goes_idle() {
    let mut rl = RenderLoop::new();
    rl.handle_event(LoopEvent::Key(NavKey::PanLeft, KeyAction::Pressed));
    rl.handle_event(LoopEvent::Key(NavKey::PanLeft, KeyAction::Released));
    let d = rl.handle_event(LoopEvent::RedrawRequested);
    assert!(!d.request_redraw);
    assert!(d.frame.is_some());
    assert_eq!(rl.state, LoopState::Idle);
}

#[test]
fn redraw_with_held_key_keeps_motion_going() {
    let mut rl = RenderLoop::new();
    rl.handle_event(LoopEvent::Key(NavKey::PanLeft, KeyAction::Pressed));
    let d = rl.handle_event(LoopEvent::RedrawRequested);
    assert!(d.request_redraw);
    assert!(d.frame.is_some());
    assert_eq!(rl.state, LoopState::NeedsRedraw);
    assert_eq!(rl.camera.pos_x.raw, PAN_DELTA);
}

#[test]
fn opposing_pans_cancel_exactly() {
    let mut rl = RenderLoop::new();
    rl.handle_event(LoopEvent::Key(NavKey::PanLeft, KeyAction::Pressed));
    rl.handle_event(LoopEvent::Key(NavKey::PanRight, KeyAction::Pressed));
    rl.handle_event(LoopEvent::RedrawRequested);
    assert_eq!(rl.camera.pos_x.raw, 0);
    assert_eq!(rl.camera.pos_y.raw, 0);
    assert_eq!(rl.camera.pos_z.raw, 0);
}

#[test]
fn zoom_ticks_multiply_scale() {
    let mut rl = RenderLoop::new();
    rl.handle_event(LoopEvent::Key(NavKey::ZoomOut, KeyAction::Pressed));
    rl.handle_event(LoopEvent::RedrawRequested);
    assert_eq!(rl.camera.scale_x.raw, ZOOM_OUT_FACTOR);
    rl.handle_event(LoopEvent::Key(NavKey::ZoomOut, KeyAction::Released));
    rl.handle_event(LoopEvent::Key(NavKey::ZoomIn, KeyAction::Pressed));
    rl.handle_event(LoopEvent::RedrawRequested);
    let expected = ((ZOOM_OUT_FACTOR as i128 * ZOOM_IN_FACTOR as i128) / FX_ONE as i128) as i64;
    assert_eq!(rl.camera.scale_x.raw, expected);
}

#[test]
fn rotation_tick_composes_increment() {
    let mut rl = RenderLoop::new();
    rl.handle_event(LoopEvent::Key(NavKey::RotCw, KeyAction::Pressed));
    rl.handle_event(LoopEvent::RedrawRequested);
    assert_eq!(rl.camera.rot.c.raw, ROT_COS);
    assert_eq!(rl.camera.rot.s.raw, -ROT_SIN);
}

#[test]
fn frame_transform_at_identity_camera() {
    let mut rl = RenderLoop::new();
    let d = rl.handle_event(LoopEvent::RedrawRequested);
    let m = d.frame.expect("a redraw always produces a frame");
    for r in 0..4 {
        for c in 0..4 {
            let want = if r != c {
                0
            } else if r == 2 {
                -FX_ONE
            } else {
                FX_ONE
            };
            assert_eq!(m.at(r, c), want);
        }
    }
}

#[test]
fn resize_is_forwarded_untouched() {
    let mut rl = RenderLoop::new();
    let cam_before = rl.camera;
    let d = rl.handle_event(LoopEvent::Resized(640, 480));
    assert_eq!(d.resize, Some((640, 480)));
    assert!(!d.request_redraw);
    assert!(rl.camera == cam_before);
    assert_eq!(rl.state, LoopState::Idle);
}

#[test]
fn close_terminates_and_later_events_are_ignored() {
    let mut rl = RenderLoop::new();
    let d = rl.handle_event(LoopEvent::CloseRequested);
    assert!(d.stop);
    assert_eq!(rl.state, LoopState::Terminated);
    let d2 = rl.handle_event(LoopEvent::Key(NavKey::PanLeft, KeyAction::Pressed));
    assert!(!d2.request_redraw);
    assert!(!d2.stop);
    assert!(d2.frame.is_none());
    assert_eq!(rl.state, LoopState::Terminated);
}

#[test]
fn config_picker_prefers_new_transparency_then_samples() {
    let cfgs = vec![
        GlConfigInfo { transparency: false, num_samples: 0 },
        GlConfigInfo { transparency: true, num_samples: 0 },
        GlConfigInfo { transparency: true, num_samples: 4 },
    ];
    assert_eq!(gl_config_picker(&cfgs), 2);
}

#[test]
fn config_picker_keeps_incumbent_on_tie() {
    let cfgs = vec![
        GlConfigInfo { transparency: true, num_samples: 4 },
        GlConfigInfo { transparency: true, num_samples: 4 },
    ];
    assert_eq!(gl_config_picker(&cfgs), 0);
}

#[test]
fn config_picker_samples_can_displace_transparency() {
    let cfgs = vec![
        GlConfigInfo { transparency: true, num_samples: 0 },
        GlConfigInfo { transparency: false, num_samples: 4 },
    ];
    assert_eq!(gl_config_picker(&cfgs), 1);
}

#[test]
fn pan_speed_tracks_zoom_level() {
    let mut rl = RenderLoop::new();
    rl.camera.scale_x = Fx::from_raw(2 * FX_ONE);
    rl.handle_event(LoopEvent::Key(NavKey::PanLeft, KeyAction::Pressed));
    rl.handle_event(LoopEvent::RedrawRequested);
    assert_eq!(rl.camera.pos_x.raw, PAN_DELTA / 2);
}
