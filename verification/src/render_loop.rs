//! The scheduling authority: owns the camera and the input record,
//! translates platform events into camera mutations and draw requests,
//! and decides when another redraw must be scheduled. One fixed delta
//! is applied per held key per redraw tick, in canonical key order.

use vstd::prelude::*;
use crate::fx::Fx;
use crate::fx::FX_ONE;
use crate::fx::fx_mul;
use crate::fx::fx_div;
use crate::fx::lemma_tdiv_bounds;
use crate::fx::lemma_tdiv_cap;
use crate::fx::fx_mul_i64;
use crate::fx::fx_div_i64;
use crate::rot::Rot2;
use crate::mat::Mat4;
use crate::camera::Camera;
use crate::camera::POS_LIM;
use crate::camera::SCALE_MAX;
use crate::camera::camera_identity_spec;
use crate::camera::translated;
use crate::camera::zoomed;
use crate::camera::rotated;
use crate::camera::mvp_spec;
use crate::input::InputState;
use crate::input::KeyAction;
use crate::input::NavKey;

verus! {

/// Raw pan delta applied per held key per redraw tick (0.01 world
/// units before zoom scaling); a tunable constant, not time derived.
pub const PAN_DELTA: i64 = 10486;

/// Raw zoom-out factor per tick (1.01: factors above one zoom out).
pub const ZOOM_OUT_FACTOR: i64 = 1059062;

/// Raw zoom-in factor per tick (0.99).
pub const ZOOM_IN_FACTOR: i64 = 1038090;

/// Raw cosine of the per-tick rotation increment (0.01 radians).
pub const ROT_COS: i64 = 1048524;

/// Raw sine of the per-tick rotation increment (0.01 radians).
pub const ROT_SIN: i64 = 10486;

/// Negated raw sine of the per-tick rotation increment.
pub const ROT_SIN_NEG: i64 = -10486;

/// The scheduling states of the loop.
#[derive(Clone, Copy, PartialEq, Eq, Structural, Debug)]
pub enum LoopState {
    Idle,
    NeedsRedraw,
    Terminated,
}

/// A platform event, already reduced to plain values: a navigation key
/// changed, a redraw was requested, the window was resized, or closing
/// was requested.
#[derive(Clone, Copy, PartialEq, Eq, Structural, Debug)]
pub enum LoopEvent {
    Key(NavKey, KeyAction),
    RedrawRequested,
    Resized(u32, u32),
    CloseRequested,
}

/// What the caller must do after an event: schedule another redraw,
/// draw a frame with the given transform, forward a resize to the
/// graphics layer, or stop dispatching events.
#[derive(Debug)]
pub struct Directive {
    pub request_redraw: bool,
    pub frame: Option<Mat4>,
    pub resize: Option<(u32, u32)>,
    pub stop: bool,
}

/// One key's per-tick camera delta, skipped only where the result
/// would leave the representable range (a machine bound, not policy).
pub open spec fn pan_step(c: Camera, dx: int, dy: int) -> Camera {
    let nx = c.pos_x.raw + fx_div(dx, c.scale_x.raw as int);
    let ny = c.pos_y.raw + fx_div(dy, c.scale_y.raw as int);
    if -POS_LIM <= nx <= POS_LIM && -POS_LIM <= ny <= POS_LIM {
        translated(c, dx, dy)
    } else {
        c
    }
}

/// One tick's zoom by `f`, skipped only where a scale component would
/// leave the representable positive range (a machine bound).
pub open spec fn zoom_step(c: Camera, f: int) -> Camera {
    if 1 <= fx_mul(c.scale_x.raw as int, f) <= SCALE_MAX && 1 <= fx_mul(c.scale_y.raw as int, f)
        <= SCALE_MAX && 1 <= fx_mul(c.scale_z.raw as int, f) <= SCALE_MAX {
        zoomed(c, f)
    } else {
        c
    }
}

/// The camera delta of one held key for one redraw tick.
pub open spec fn key_step(c: Camera, k: NavKey) -> Camera {
    match k {
        NavKey::PanLeft => pan_step(c, PAN_DELTA as int, 0),
        NavKey::PanRight => pan_step(c, -(PAN_DELTA as int), 0),
        NavKey::PanUp => pan_step(c, 0, -(PAN_DELTA as int)),
        NavKey::PanDown => pan_step(c, 0, PAN_DELTA as int),
        NavKey::ZoomOut => zoom_step(c, ZOOM_OUT_FACTOR as int),
        NavKey::ZoomIn => zoom_step(c, ZOOM_IN_FACTOR as int),
        NavKey::RotCw => rotated(c, Rot2 { c: Fx { raw: ROT_COS }, s: Fx { raw: ROT_SIN_NEG } }),
        NavKey::RotCcw => rotated(c, Rot2 { c: Fx { raw: ROT_COS }, s: Fx { raw: ROT_SIN } }),
    }
}

/// The camera deltas of a sequence of held keys, first to last.
pub open spec fn run_keys(c: Camera, ks: Seq<NavKey>) -> Camera
    decreases ks.len(),
{
    if ks.len() == 0 {
        c
    } else {
        run_keys(key_step(c, ks[0]), ks.skip(1))
    }
}

/// Appending one key to a run applies its step last.
pub proof fn lemma_run_keys_push(c: Camera, ks: Seq<NavKey>, k: NavKey)
    ensures
        run_keys(c, ks.push(k)) == key_step(run_keys(c, ks), k),
    decreases ks.len(),
{
    if ks.len() == 0 {
        reveal_with_fuel(run_keys, 3);
        assert(ks.push(k)[0] == k);
        assert(ks.push(k).skip(1) =~= Seq::<NavKey>::empty());
    } else {
        assert(ks.push(k)[0] == ks[0]);
        assert(ks.push(k).skip(1) =~= ks.skip(1).push(k));
        lemma_run_keys_push(key_step(c, ks[0]), ks.skip(1), k);
    }
}

/// Applies one held key's delta to the camera, preserving its
/// invariant.
pub fn step_key(cam: &mut Camera, k: NavKey)
    requires
        old(cam).wf(),
    ensures
        *final(cam) == key_step(*old(cam), k),
        final(cam).wf(),
{
    match k {
        NavKey::PanLeft => pan_exec(cam, PAN_DELTA, 0),
        NavKey::PanRight => pan_exec(cam, -PAN_DELTA, 0),
        NavKey::PanUp => pan_exec(cam, 0, -PAN_DELTA),
        NavKey::PanDown => pan_exec(cam, 0, PAN_DELTA),
        NavKey::ZoomOut => zoom_exec(cam, ZOOM_OUT_FACTOR),
        NavKey::ZoomIn => zoom_exec(cam, ZOOM_IN_FACTOR),
        NavKey::RotCw => {
            let d = Rot2 { c: Fx { raw: ROT_COS }, s: Fx { raw: ROT_SIN_NEG } };
            proof {
                assert(d.is_unit());
            }
            cam.apply_rotation(d);
        },
        NavKey::RotCcw => {
            let d = Rot2 { c: Fx { raw: ROT_COS }, s: Fx { raw: ROT_SIN } };
            proof {
                assert(d.is_unit());
            }
            cam.apply_rotation(d);
        },
    }
}

/// A pan delta never exceeds `PAN_DELTA * FX_ONE` raw after the zoom
/// scaling.
proof fn lemma_pan_delta_fits(d: int, s: int)
    requires
        -PAN_DELTA <= d <= PAN_DELTA,
        1 <= s,
    ensures
        -(PAN_DELTA as int) * (FX_ONE as int) <= fx_div(d, s) <= (PAN_DELTA as int) * (
        FX_ONE as int),
{
    assert(s * ((PAN_DELTA as int) * (FX_ONE as int)) >= (PAN_DELTA as int) * (FX_ONE as int)) by (
    nonlinear_arith)
        requires
            s >= 1,
            (PAN_DELTA as int) * (FX_ONE as int) >= 0,
    ;
    assert(-(s * ((PAN_DELTA as int) * (FX_ONE as int))) <= d * (FX_ONE as int) <= s * ((
    PAN_DELTA as int) * (FX_ONE as int)));
    lemma_tdiv_cap(d * (FX_ONE as int), s, (PAN_DELTA as int) * (FX_ONE as int));
}

/// The guarded per-tick pan.
fn pan_exec(cam: &mut Camera, dx: i64, dy: i64)
    requires
        old(cam).wf(),
        -PAN_DELTA <= dx <= PAN_DELTA,
        -PAN_DELTA <= dy <= PAN_DELTA,
    ensures
        *final(cam) == pan_step(*old(cam), dx as int, dy as int),
        final(cam).wf(),
{
    proof {
        lemma_pan_delta_fits(dx as int, cam.scale_x.raw as int);
        lemma_pan_delta_fits(dy as int, cam.scale_y.raw as int);
    }
    let ddx: i64 = fx_div_i64(dx, cam.scale_x.raw);
    let ddy: i64 = fx_div_i64(dy, cam.scale_y.raw);
    let nx: i64 = cam.pos_x.raw + ddx;
    let ny: i64 = cam.pos_y.raw + ddy;
    if -POS_LIM <= nx && nx <= POS_LIM && -POS_LIM <= ny && ny <= POS_LIM {
        cam.apply_translation(Fx { raw: dx }, Fx { raw: dy });
    }
}

/// A zoomed scale component never exceeds `2 * SCALE_MAX` raw before
/// the guard runs.
proof fn lemma_zoom_product_fits(s: int, f: int)
    requires
        1 <= s <= SCALE_MAX,
        1 <= f <= 2 * (FX_ONE as int),
    ensures
        0 <= fx_mul(s, f) <= 2 * (SCALE_MAX as int),
{
    assert(0 <= s * f <= (FX_ONE as int) * (2 * (SCALE_MAX as int))) by (nonlinear_arith)
        requires
            1 <= s <= SCALE_MAX as int,
            1 <= f <= 2 * (FX_ONE as int),
            SCALE_MAX as int == 1099511627776,
            FX_ONE as int == 1048576,
    ;
    lemma_tdiv_cap(s * f, FX_ONE as int, 2 * (SCALE_MAX as int));
    lemma_tdiv_bounds(s * f, FX_ONE as int);
}

/// The guarded per-tick zoom.
fn zoom_exec(cam: &mut Camera, f: i64)
    requires
        old(cam).wf(),
        1 <= f <= 2 * FX_ONE,
    ensures
        *final(cam) == zoom_step(*old(cam), f as int),
        final(cam).wf(),
{
    proof {
        lemma_zoom_product_fits(cam.scale_x.raw as int, f as int);
        lemma_zoom_product_fits(cam.scale_y.raw as int, f as int);
        lemma_zoom_product_fits(cam.scale_z.raw as int, f as int);
    }
    let tx: i64 = fx_mul_i64(cam.scale_x.raw, f);
    let ty: i64 = fx_mul_i64(cam.scale_y.raw, f);
    let tz: i64 = fx_mul_i64(cam.scale_z.raw, f);
    if 1 <= tx && tx <= SCALE_MAX && 1 <= ty && ty <= SCALE_MAX && 1 <= tz && tz <= SCALE_MAX {
        cam.apply_zoom(Fx { raw: f });
    }
}

/// The event-driven controller: owns the camera and the input record,
/// and is the only mutator of either.
#[derive(Debug)]
pub struct RenderLoop {
    pub camera: Camera,
    pub input: InputState,
    pub state: LoopState,
}

impl RenderLoop {
    /// The camera and the input record are valid.
    pub open spec fn wf(self) -> bool {
        self.camera.wf() && self.input.wf()
    }

    /// The startup controller: identity camera, no key held, idle.
    pub fn new() -> (r: RenderLoop)
        ensures
            r.wf(),
            r.camera == camera_identity_spec(),
            !r.input.any_down_spec(),
            r.state == LoopState::Idle,
    {
        RenderLoop { camera: Camera::identity(), input: InputState::new(), state: LoopState::Idle }
    }

    /// Handles one platform event. A key event records it and asks for
    /// a redraw; a redraw event applies one delta per held key (in
    /// canonical order), produces the frame transform, and asks for
    /// another redraw exactly while keys stay held; a resize is
    /// forwarded untouched; a close stops dispatch. After termination
    /// every event is ignored.
    pub fn handle_event(&mut self, ev: LoopEvent) -> (d: Directive)
        requires
            old(self).wf(),
        ensures
            final(self).wf(),
            old(self).state == LoopState::Terminated ==> *final(self) == *old(self)
                && !d.request_redraw && !d.stop && d.frame is None && d.resize is None,
            old(self).state != LoopState::Terminated ==> {
                &&& (ev matches LoopEvent::Key(k, a) ==> {
                    &&& final(self).camera == old(self).camera
                    &&& final(self).state == LoopState::NeedsRedraw
                    &&& final(self).input.held@ == old(self).input.held@.update(
                        k.index_spec(),
                        a == KeyAction::Pressed,
                    )
                    &&& d.request_redraw
                    &&& !d.stop
                    &&& d.frame is None
                    &&& d.resize is None
                })
                &&& (ev == LoopEvent::RedrawRequested ==> {
                    &&& final(self).input == old(self).input
                    &&& old(self).input.any_down_spec() ==> final(self).camera == run_keys(
                        old(self).camera,
                        old(self).input.held_list(),
                    ) && final(self).state == LoopState::NeedsRedraw && d.request_redraw
                    &&& !old(self).input.any_down_spec() ==> final(self).camera == old(self).camera
                        && final(self).state == LoopState::Idle && !d.request_redraw
                    &&& d.frame matches Some(m) && m.wf() && m.m() == mvp_spec(final(self).camera)
                    &&& !d.stop
                    &&& d.resize is None
                })
                &&& (ev matches LoopEvent::Resized(w, h) ==> *final(self) == *old(self)
                    && d.resize == Some((w, h)) && !d.request_redraw && !d.stop && d.frame is None)
                &&& (ev == LoopEvent::CloseRequested ==> {
                    &&& final(self).camera == old(self).camera
                    &&& final(self).input == old(self).input
                    &&& final(self).state == LoopState::Terminated
                    &&& d.stop
                    &&& !d.request_redraw
                    &&& d.frame is None
                    &&& d.resize is None
                })
            },
    {
        if self.state == LoopState::Terminated {
            return Directive { request_redraw: false, frame: None, resize: None, stop: false };
        }
        match ev {
            LoopEvent::Key(k, a) => {
                self.input.set_key(k, a);
                self.state = LoopState::NeedsRedraw;
                Directive { request_redraw: true, frame: None, resize: None, stop: false }
            },
            LoopEvent::RedrawRequested => {
                let any: bool = self.input.is_any_key_down();
                if any {
                    let ks: Vec<NavKey> = self.input.iterate_held();
                    let ghost c0 = self.camera;
                    let mut i: usize = 0;
                    while i < ks.len()
                        invariant
                            i <= ks.len(),
                            self.camera.wf(),
                            self.camera == run_keys(c0, ks@.take(i as int)),
                            self.input == old(self).input,
                            self.state == old(self).state,
                        decreases ks.len() - i,
                    {
                        proof {
                            lemma_run_keys_push(c0, ks@.take(i as int), ks@[i as int]);
                            assert(ks@.take(i as int).push(ks@[i as int]) =~= ks@.take(
                                i as int + 1,
                            ));
                        }
                        step_key(&mut self.camera, ks[i]);
                        i += 1;
                    }
                    proof {
                        assert(ks@.take(ks@.len() as int) =~= ks@);
                    }
                    self.state = LoopState::NeedsRedraw;
                    let m: Mat4 = self.camera.mvp();
                    Directive { request_redraw: true, frame: Some(m), resize: None, stop: false }
                } else {
                    self.state = LoopState::Idle;
                    let m: Mat4 = self.camera.mvp();
                    Directive { request_redraw: false, frame: Some(m), resize: None, stop: false }
                }
            },
            LoopEvent::Resized(w, h) => {
                Directive { request_redraw: false, frame: None, resize: Some((w, h)), stop: false }
            },
            LoopEvent::CloseRequested => {
                self.state = LoopState::Terminated;
                Directive { request_redraw: false, frame: None, resize: None, stop: true }
            },
        }
    }
}

/// Holding the opposing pan keys for one tick cancels exactly: the
/// camera comes back to precisely its starting state. The precondition
/// only keeps the intermediate position representable.
pub proof fn lemma_opposing_pans_cancel(c: Camera)
    requires
        c.wf(),
        c.pos_x.raw + fx_div(PAN_DELTA as int, c.scale_x.raw as int) <= POS_LIM,
    ensures
        run_keys(c, seq![NavKey::PanLeft, NavKey::PanRight]) == c,
{
    reveal_with_fuel(run_keys, 4);
    let ks = seq![NavKey::PanLeft, NavKey::PanRight];
    lemma_tdiv_bounds((PAN_DELTA as int) * (FX_ONE as int), c.scale_x.raw as int);
    lemma_tdiv_bounds(0, c.scale_x.raw as int);
    lemma_tdiv_bounds(0, c.scale_y.raw as int);
    let d = fx_div(PAN_DELTA as int, c.scale_x.raw as int);
    assert(fx_div(0, c.scale_y.raw as int) == 0);
    let c1 = key_step(c, NavKey::PanLeft);
    assert(c1.pos_x.raw == c.pos_x.raw + d && c1.pos_y == c.pos_y && c1.scale_x == c.scale_x);
    assert(fx_div(-(PAN_DELTA as int), c1.scale_x.raw as int) == -d);
    let c2 = key_step(c1, NavKey::PanRight);
    assert(c2.pos_x.raw == c.pos_x.raw && c2.pos_y == c.pos_y);
    assert(c2 == c);
    assert(ks.skip(1) =~= seq![NavKey::PanRight]);
    assert(seq![NavKey::PanRight].skip(1) =~= Seq::<NavKey>::empty());
    assert(run_keys(c, ks) == c2);
}

} // verus!
