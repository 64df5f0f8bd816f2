//! The camera: a position, an orientation about the view axis, and a
//! strictly positive per-axis scale. It derives the view matrix (the
//! inverse of translate-then-rotate), a symmetric orthographic
//! projection, and their fixed-order composition `projection * view`.

use vstd::prelude::*;
use crate::fx::Fx;
use crate::fx::FX_ONE;
use crate::fx::tdiv;
use crate::fx::fx_mul;
use crate::fx::fx_div;
use crate::fx::lemma_tdiv_bounds;
use crate::fx::lemma_tdiv_mul_cancel;
use crate::fx::lemma_tdiv_cap;
use crate::fx::lemma_mul_mag;
use crate::fx::fx_mul_i64;
use crate::fx::fx_div_i64;
use crate::rot::Rot2;
use crate::rot::rotate_spec;
use crate::rot::lemma_unit_bound;
use crate::mat::Mat4;
use crate::mat::MAT_LIM;
use crate::mat::mat_bounded;
use crate::mat::mat_mul_spec;
use crate::mat::mat_identity_spec;
use crate::mat::lemma_mul_identity_right;

verus! {

/// Furthest representable camera position on each axis (2^38 raw,
/// about 262144 world units): a machine bound, not a design bound.
pub const POS_LIM: i64 = 274877906944;

/// Largest accepted scale component (2^40 raw, about a million to one
/// zoomed out): a machine bound, not a design bound.
pub const SCALE_MAX: i64 = 1099511627776;

/// The camera state: world-space offset of the viewed origin, unit
/// rotation of the view plane, and positive half-extents of the
/// orthographic viewing volume.
#[derive(Clone, Copy, PartialEq, Eq, Structural, Debug)]
pub struct Camera {
    pub pos_x: Fx,
    pub pos_y: Fx,
    pub pos_z: Fx,
    pub rot: Rot2,
    pub scale_x: Fx,
    pub scale_y: Fx,
    pub scale_z: Fx,
}

/// The camera after a pan by `(dx, dy)`, scaled inversely by the
/// current zoom so that perceived pan speed is zoom independent.
pub open spec fn translated(c: Camera, dx: int, dy: int) -> Camera {
    Camera {
        pos_x: Fx { raw: (c.pos_x.raw + fx_div(dx, c.scale_x.raw as int)) as i64 },
        pos_y: Fx { raw: (c.pos_y.raw + fx_div(dy, c.scale_y.raw as int)) as i64 },
        ..c
    }
}

/// The camera after a zoom by `factor`: every scale component
/// multiplied by it (`factor > 1` zooms out, `factor < 1` zooms in).
pub open spec fn zoomed(c: Camera, factor: int) -> Camera {
    Camera {
        scale_x: Fx { raw: fx_mul(c.scale_x.raw as int, factor) as i64 },
        scale_y: Fx { raw: fx_mul(c.scale_y.raw as int, factor) as i64 },
        scale_z: Fx { raw: fx_mul(c.scale_z.raw as int, factor) as i64 },
        ..c
    }
}

/// The camera after composing `d` into its orientation.
pub open spec fn rotated(c: Camera, d: Rot2) -> Camera {
    Camera { rot: rotate_spec(c.rot, d), ..c }
}

/// The view matrix: the inverse of the homogeneous translate-then-
/// rotate transform, i.e. transposed rotation block and back-rotated,
/// negated translation column.
pub open spec fn view_spec(c: Camera) -> Seq<int> {
    let cr = c.rot.c.raw as int;
    let sr = c.rot.s.raw as int;
    let px = c.pos_x.raw as int;
    let py = c.pos_y.raw as int;
    let pz = c.pos_z.raw as int;
    seq![
        cr,
        sr,
        0,
        -(fx_mul(cr, px) + fx_mul(sr, py)),
        -sr,
        cr,
        0,
        fx_mul(sr, px) - fx_mul(cr, py),
        0,
        0,
        FX_ONE as int,
        -pz,
        0,
        0,
        0,
        FX_ONE as int,
    ]
}

/// The orthographic projection matrix for symmetric half-extents equal
/// to the scale components: reciprocal scales down the diagonal, the
/// depth axis negated.
pub open spec fn proj_spec(c: Camera) -> Seq<int> {
    seq![
        fx_div(FX_ONE as int, c.scale_x.raw as int),
        0,
        0,
        0,
        0,
        fx_div(FX_ONE as int, c.scale_y.raw as int),
        0,
        0,
        0,
        0,
        -fx_div(FX_ONE as int, c.scale_z.raw as int),
        0,
        0,
        0,
        0,
        FX_ONE as int,
    ]
}

/// The model-view-projection transform, in the one fixed composition
/// order: projection applied after view.
pub open spec fn mvp_spec(c: Camera) -> Seq<int> {
    mat_mul_spec(proj_spec(c), view_spec(c))
}

/// The identity camera: zero position, identity orientation, unit
/// scale.
pub open spec fn camera_identity_spec() -> Camera {
    Camera {
        pos_x: Fx { raw: 0 },
        pos_y: Fx { raw: 0 },
        pos_z: Fx { raw: 0 },
        rot: Rot2 { c: Fx { raw: FX_ONE }, s: Fx { raw: 0 } },
        scale_x: Fx { raw: FX_ONE },
        scale_y: Fx { raw: FX_ONE },
        scale_z: Fx { raw: FX_ONE },
    }
}

impl Camera {
    /// Position within machine bounds, orientation unit, scales
    /// strictly positive and within machine bounds.
    pub open spec fn wf(self) -> bool {
        &&& -POS_LIM <= self.pos_x.raw <= POS_LIM
        &&& -POS_LIM <= self.pos_y.raw <= POS_LIM
        &&& -POS_LIM <= self.pos_z.raw <= POS_LIM
        &&& self.rot.is_unit()
        &&& 1 <= self.scale_x.raw <= SCALE_MAX
        &&& 1 <= self.scale_y.raw <= SCALE_MAX
        &&& 1 <= self.scale_z.raw <= SCALE_MAX
    }

    /// The startup camera: identity everything.
    pub fn identity() -> (r: Camera)
        ensures
            r == camera_identity_spec(),
            r.wf(),
    {
        Camera {
            pos_x: Fx { raw: 0 },
            pos_y: Fx { raw: 0 },
            pos_z: Fx { raw: 0 },
            rot: Rot2::identity(),
            scale_x: Fx { raw: FX_ONE },
            scale_y: Fx { raw: FX_ONE },
            scale_z: Fx { raw: FX_ONE },
        }
    }

    /// Pans by `(dx, dy)`, each delta divided by the matching scale
    /// component. Position is unbounded by design; the bounds in the
    /// precondition only keep it representable.
    pub fn apply_translation(&mut self, dx: Fx, dy: Fx)
        requires
            old(self).wf(),
            -POS_LIM <= old(self).pos_x.raw + fx_div(dx.raw as int, old(self).scale_x.raw as int)
                <= POS_LIM,
            -POS_LIM <= old(self).pos_y.raw + fx_div(dy.raw as int, old(self).scale_y.raw as int)
                <= POS_LIM,
        ensures
            *final(self) == translated(*old(self), dx.raw as int, dy.raw as int),
            final(self).wf(),
    {
        let sx: i64 = self.scale_x.raw;
        let sy: i64 = self.scale_y.raw;
        self.pos_x = Fx { raw: self.pos_x.raw + fx_div_i64(dx.raw, sx) };
        self.pos_y = Fx { raw: self.pos_y.raw + fx_div_i64(dy.raw, sy) };
    }

    /// Zooms by a strictly positive factor, multiplying every scale
    /// component; the bounds in the precondition keep the scale
    /// strictly positive and representable.
    pub fn apply_zoom(&mut self, factor: Fx)
        requires
            old(self).wf(),
            factor.raw >= 1,
            1 <= fx_mul(old(self).scale_x.raw as int, factor.raw as int) <= SCALE_MAX,
            1 <= fx_mul(old(self).scale_y.raw as int, factor.raw as int) <= SCALE_MAX,
            1 <= fx_mul(old(self).scale_z.raw as int, factor.raw as int) <= SCALE_MAX,
        ensures
            *final(self) == zoomed(*old(self), factor.raw as int),
            final(self).wf(),
    {
        self.scale_x = Fx { raw: fx_mul_i64(self.scale_x.raw, factor.raw) };
        self.scale_y = Fx { raw: fx_mul_i64(self.scale_y.raw, factor.raw) };
        self.scale_z = Fx { raw: fx_mul_i64(self.scale_z.raw, factor.raw) };
    }

    /// Composes an incremental unit rotation into the orientation and
    /// renormalizes, so the unit-norm invariant always holds.
    pub fn apply_rotation(&mut self, d: Rot2)
        requires
            old(self).wf(),
            d.is_unit(),
        ensures
            *final(self) == rotated(*old(self), d),
            final(self).wf(),
    {
        self.rot = self.rot.rotate_by(d);
    }

    /// The view matrix of the current state; pure, mutates nothing.
    pub fn view_matrix(&self) -> (r: Mat4)
        requires
            self.wf(),
        ensures
            r.wf(),
            r.m() == view_spec(*self),
            mat_bounded(r.m(), MAT_LIM as int),
    {
        proof {
            lemma_unit_bound(self.rot);
            lemma_view_entry_fits(self.rot.c.raw as int, self.pos_x.raw as int);
            lemma_view_entry_fits(self.rot.s.raw as int, self.pos_y.raw as int);
            lemma_view_entry_fits(self.rot.s.raw as int, self.pos_x.raw as int);
            lemma_view_entry_fits(self.rot.c.raw as int, self.pos_y.raw as int);
        }
        let cr: i64 = self.rot.c.raw;
        let sr: i64 = self.rot.s.raw;
        let tx: i64 = -(fx_mul_i64(cr, self.pos_x.raw) + fx_mul_i64(sr, self.pos_y.raw));
        let ty: i64 = fx_mul_i64(sr, self.pos_x.raw) - fx_mul_i64(cr, self.pos_y.raw);
        let nsr: i64 = -sr;
        let npz: i64 = -self.pos_z.raw;
        let e: Vec<i64> = vec![cr, sr, 0, tx, nsr, cr, 0, ty, 0, 0, FX_ONE, npz, 0, 0, 0, FX_ONE];
        let r = Mat4 { e };
        proof {
            assert(r.m() =~= view_spec(*self));
        }
        r
    }

    /// The orthographic projection of the current state; pure.
    pub fn projection_matrix(&self) -> (r: Mat4)
        requires
            self.wf(),
        ensures
            r.wf(),
            r.m() == proj_spec(*self),
            mat_bounded(r.m(), MAT_LIM as int),
    {
        proof {
            lemma_recip_fits(self.scale_x.raw as int);
            lemma_recip_fits(self.scale_y.raw as int);
            lemma_recip_fits(self.scale_z.raw as int);
        }
        let rx: i64 = fx_div_i64(FX_ONE, self.scale_x.raw);
        let ry: i64 = fx_div_i64(FX_ONE, self.scale_y.raw);
        let rz: i64 = fx_div_i64(FX_ONE, self.scale_z.raw);
        let nrz: i64 = -rz;
        let e: Vec<i64> = vec![rx, 0, 0, 0, 0, ry, 0, 0, 0, 0, nrz, 0, 0, 0, 0, FX_ONE];
        let r = Mat4 { e };
        proof {
            assert(r.m() =~= proj_spec(*self));
        }
        r
    }

    /// The model-view-projection transform, recomputed from the
    /// current state on every call: `projection_matrix() *
    /// view_matrix()`, in that order.
    pub fn mvp(&self) -> (r: Mat4)
        requires
            self.wf(),
        ensures
            r.wf(),
            r.m() == mvp_spec(*self),
    {
        let p = self.projection_matrix();
        let v = self.view_matrix();
        p.matmul(&v)
    }
}

/// A rotation component times a bounded position stays well inside the
/// matrix entry limit.
proof fn lemma_view_entry_fits(x: int, p: int)
    requires
        -(FX_ONE as int + 4) <= x <= FX_ONE as int + 4,
        -(POS_LIM as int) <= p <= POS_LIM as int,
    ensures
        -549755813888 <= fx_mul(x, p) <= 549755813888,
{
    lemma_mul_mag(x, p, FX_ONE as int + 4, POS_LIM as int);
    assert((FX_ONE as int + 4) * (POS_LIM as int) <= (FX_ONE as int) * 549755813888) by (
    nonlinear_arith)
        requires
            FX_ONE as int == 1048576,
            POS_LIM as int == 274877906944,
    ;
    lemma_tdiv_cap(x * p, FX_ONE as int, 549755813888);
}

/// The reciprocal of a positive scale component fits the matrix entry
/// limit exactly.
proof fn lemma_recip_fits(s: int)
    requires
        1 <= s <= SCALE_MAX as int,
    ensures
        0 <= fx_div(FX_ONE as int, s) <= MAT_LIM as int,
{
    lemma_tdiv_bounds((FX_ONE as int) * (FX_ONE as int), s);
}

/// Zooming by exactly 1 changes nothing, on any camera.
pub proof fn lemma_zoom_one_noop(c: Camera)
    ensures
        zoomed(c, FX_ONE as int) == c,
{
    lemma_tdiv_mul_cancel(c.scale_x.raw as int, FX_ONE as int);
    lemma_tdiv_mul_cancel(c.scale_y.raw as int, FX_ONE as int);
    lemma_tdiv_mul_cancel(c.scale_z.raw as int, FX_ONE as int);
}

/// Zooming by any positive factor `a` and then by its fixed-point
/// reciprocal restores every scale component up to the bounded rounding
/// loss of the three truncations involved (for factors near one and
/// ordinary scales, a relative error of a few units in 2^20), and
/// never overshoots. Position and orientation are untouched.
pub proof fn lemma_zoom_round_trip(c: Camera, a: int)
    requires
        c.wf(),
        a >= 1,
        fx_mul(c.scale_x.raw as int, a) <= SCALE_MAX,
        fx_mul(c.scale_y.raw as int, a) <= SCALE_MAX,
        fx_mul(c.scale_z.raw as int, a) <= SCALE_MAX,
    ensures
        ({
            let rt = zoomed(zoomed(c, a), fx_div(FX_ONE as int, a));
            &&& rt.pos_x == c.pos_x
            &&& rt.pos_y == c.pos_y
            &&& rt.pos_z == c.pos_z
            &&& rt.rot == c.rot
            &&& 0 <= rt.scale_x.raw <= c.scale_x.raw
            &&& 0 <= rt.scale_y.raw <= c.scale_y.raw
            &&& 0 <= rt.scale_z.raw <= c.scale_z.raw
            &&& zoom_loss_bounded(c.scale_x.raw as int, rt.scale_x.raw as int, a)
            &&& zoom_loss_bounded(c.scale_y.raw as int, rt.scale_y.raw as int, a)
            &&& zoom_loss_bounded(c.scale_z.raw as int, rt.scale_z.raw as int, a)
        }),
{
    lemma_zoom_axis_round_trip(c.scale_x.raw as int, a);
    lemma_zoom_axis_round_trip(c.scale_y.raw as int, a);
    lemma_zoom_axis_round_trip(c.scale_z.raw as int, a);
}

/// The round-trip loss on one scale component, multiplied through by
/// `a * FX_ONE^2`: equivalent to `s - s2 < s * a / FX_ONE^2 +
/// FX_ONE / a + 1`.
pub open spec fn zoom_loss_bounded(s: int, s2: int, a: int) -> bool {
    a * ((FX_ONE as int) * (FX_ONE as int)) * (s - s2) < s * a * a + (FX_ONE as int) * ((
    FX_ONE as int) * (FX_ONE as int)) + a * ((FX_ONE as int) * (FX_ONE as int))
}

/// One axis of the zoom round trip, with the in-range facts needed to
/// push the scalar result through the fixed-width representation.
proof fn lemma_zoom_axis_round_trip(s: int, a: int)
    requires
        1 <= s <= SCALE_MAX,
        a >= 1,
        fx_mul(s, a) <= SCALE_MAX,
    ensures
        0 <= fx_mul(s, a),
        0 <= fx_div(FX_ONE as int, a) <= (FX_ONE as int) * (FX_ONE as int),
        0 <= fx_mul(fx_mul(s, a), fx_div(FX_ONE as int, a)) <= s,
        zoom_loss_bounded(s, fx_mul(fx_mul(s, a), fx_div(FX_ONE as int, a)), a),
{
    assert(s * a >= 1) by (nonlinear_arith)
        requires
            s >= 1,
            a >= 1,
    ;
    lemma_tdiv_bounds(s * a, FX_ONE as int);
    lemma_tdiv_bounds((FX_ONE as int) * (FX_ONE as int), a);
    crate::fx::lemma_mul_recip_round_trip(s, a);
}

/// At the identity camera state the view matrix is the identity
/// matrix.
pub proof fn lemma_view_identity()
    ensures
        view_spec(camera_identity_spec()) == mat_identity_spec(),
{
    let c = camera_identity_spec();
    assert((FX_ONE as int) * 0 == 0);
    assert(0int * 0 == 0);
    assert(tdiv(0, FX_ONE as int) == 0);
    assert(view_spec(c) =~= mat_identity_spec());
}

/// With zero position and identity orientation — whatever the scale —
/// the view matrix is the identity, so the composed transform equals
/// the projection alone: the composition order is observable.
pub proof fn lemma_mvp_identity_view(c: Camera)
    requires
        c.pos_x.raw == 0,
        c.pos_y.raw == 0,
        c.pos_z.raw == 0,
        c.rot.c.raw == FX_ONE,
        c.rot.s.raw == 0,
    ensures
        mvp_spec(c) == proj_spec(c),
{
    assert((FX_ONE as int) * 0 == 0);
    assert(0int * 0 == 0);
    assert(tdiv(0, FX_ONE as int) == 0);
    assert(view_spec(c) =~= mat_identity_spec());
    lemma_mul_identity_right(proj_spec(c));
}

} // verus!
