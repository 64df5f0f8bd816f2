//! 4x4 matrices of fixed-point entries, row major. The camera derives
//! its view, projection and model-view-projection transforms as values
//! of this type; multiplication carries the same truncating fixed-point
//! rounding as the scalar operations.

use vstd::prelude::*;
use crate::fx::FX_ONE;
use crate::fx::fx_mul;
use crate::fx::lemma_tdiv_mul_cancel;
use crate::fx::lemma_tdiv_cap;
use crate::fx::lemma_mul_mag;
use crate::fx::fx_mul_i64;

verus! {

/// Largest entry magnitude (2^40 raw) accepted by the matrix product;
/// large enough for every matrix the camera builds, small enough that
/// a product entry can never overflow.
pub const MAT_LIM: i64 = 1099511627776;

/// A 4x4 matrix, 16 raw fixed-point entries in row-major order.
#[derive(Debug)]
pub struct Mat4 {
    pub e: Vec<i64>,
}

/// All entries within `b` in magnitude.
pub open spec fn mat_bounded(s: Seq<int>, b: int) -> bool {
    forall|i: int| 0 <= i < s.len() ==> -b <= #[trigger] s[i] <= b
}

/// The identity transform: ones down the diagonal.
pub open spec fn mat_identity_spec() -> Seq<int> {
    seq![
        FX_ONE as int,
        0,
        0,
        0,
        0,
        FX_ONE as int,
        0,
        0,
        0,
        0,
        FX_ONE as int,
        0,
        0,
        0,
        0,
        FX_ONE as int,
    ]
}

/// Row-by-column fixed-point matrix product: each entry is the sum of
/// four truncated fixed-point scalar products.
pub open spec fn mat_mul_spec(a: Seq<int>, b: Seq<int>) -> Seq<int> {
    Seq::new(
        16,
        |i: int|
            {
                let r = i / 4;
                let c = i % 4;
                fx_mul(a[4 * r + 0], b[0 + c]) + fx_mul(a[4 * r + 1], b[4 + c]) + fx_mul(
                    a[4 * r + 2],
                    b[8 + c],
                ) + fx_mul(a[4 * r + 3], b[12 + c])
            },
    )
}

/// Multiplying by the identity on the right changes nothing.
pub proof fn lemma_mul_identity_right(a: Seq<int>)
    requires
        a.len() == 16,
    ensures
        mat_mul_spec(a, mat_identity_spec()) == a,
{
    let id = mat_identity_spec();
    assert forall|i: int| 0 <= i < 16 implies mat_mul_spec(a, id)[i] == a[i] by {
        let r = i / 4;
        let c = i % 4;
        assert(i == 4 * r + c && 0 <= r < 4 && 0 <= c < 4);
        lemma_fx_mul_zero(a[4 * r + 0]);
        lemma_fx_mul_zero(a[4 * r + 1]);
        lemma_fx_mul_zero(a[4 * r + 2]);
        lemma_fx_mul_zero(a[4 * r + 3]);
        lemma_tdiv_mul_cancel(a[4 * r + c], FX_ONE as int);
        if c == 0 {
            assert(id[0 + c] == FX_ONE as int && id[4 + c] == 0 && id[8 + c] == 0 && id[12 + c]
                == 0);
        } else if c == 1 {
            assert(id[0 + c] == 0 && id[4 + c] == FX_ONE as int && id[8 + c] == 0 && id[12 + c]
                == 0);
        } else if c == 2 {
            assert(id[0 + c] == 0 && id[4 + c] == 0 && id[8 + c] == FX_ONE as int && id[12 + c]
                == 0);
        } else {
            assert(id[0 + c] == 0 && id[4 + c] == 0 && id[8 + c] == 0 && id[12 + c]
                == FX_ONE as int);
        }
    }
    assert(mat_mul_spec(a, mat_identity_spec()) =~= a);
}

/// Scaling by a zero factor gives zero.
proof fn lemma_fx_mul_zero(x: int)
    ensures
        fx_mul(x, 0) == 0,
{
    assert(x * 0 == 0);
}

impl Mat4 {
    /// Sixteen entries are present.
    pub open spec fn wf(self) -> bool {
        self.e@.len() == 16
    }

    /// The entries as mathematical integers, row major.
    pub open spec fn m(self) -> Seq<int> {
        Seq::new(16, |i: int| self.e@[i] as int)
    }

    /// Entry at row `r`, column `c`.
    pub fn at(&self, r: usize, c: usize) -> (x: i64)
        requires
            self.wf(),
            r < 4,
            c < 4,
        ensures
            x as int == self.m()[4 * r + c],
    {
        self.e[4 * r + c]
    }

    /// The identity matrix.
    pub fn identity() -> (r: Mat4)
        ensures
            r.wf(),
            r.m() == mat_identity_spec(),
    {
        let e: Vec<i64> = vec![FX_ONE, 0, 0, 0, 0, FX_ONE, 0, 0, 0, 0, FX_ONE, 0, 0, 0, 0, FX_ONE];
        let r = Mat4 { e };
        proof {
            assert(r.m() =~= mat_identity_spec());
        }
        r
    }

    /// Fixed-point matrix product `self * o`.
    pub fn matmul(&self, o: &Mat4) -> (r: Mat4)
        requires
            self.wf(),
            o.wf(),
            mat_bounded(self.m(), MAT_LIM as int),
            mat_bounded(o.m(), MAT_LIM as int),
        ensures
            r.wf(),
            r.m() == mat_mul_spec(self.m(), o.m()),
    {
        let mut e: Vec<i64> = Vec::new();
        let mut i: usize = 0;
        while i < 16
            invariant
                self.wf(),
                o.wf(),
                mat_bounded(self.m(), MAT_LIM as int),
                mat_bounded(o.m(), MAT_LIM as int),
                i <= 16,
                e@.len() == i,
                forall|j: int| 0 <= j < i ==> e@[j] as int == mat_mul_spec(self.m(), o.m())[j],
            decreases 16 - i,
        {
            let r_: usize = i / 4;
            let c_: usize = i % 4;
            proof {
                lemma_entry_product_fits(self.m()[4 * r_ + 0], o.m()[0 + c_]);
                lemma_entry_product_fits(self.m()[4 * r_ + 1], o.m()[4 + c_]);
                lemma_entry_product_fits(self.m()[4 * r_ + 2], o.m()[8 + c_]);
                lemma_entry_product_fits(self.m()[4 * r_ + 3], o.m()[12 + c_]);
            }
            let t0: i64 = fx_mul_i64(self.e[4 * r_ + 0], o.e[0 + c_]);
            let t1: i64 = fx_mul_i64(self.e[4 * r_ + 1], o.e[4 + c_]);
            let t2: i64 = fx_mul_i64(self.e[4 * r_ + 2], o.e[8 + c_]);
            let t3: i64 = fx_mul_i64(self.e[4 * r_ + 3], o.e[12 + c_]);
            let v: i64 = t0 + t1 + t2 + t3;
            e.push(v);
            i += 1;
        }
        let r = Mat4 { e };
        proof {
            assert(r.m() =~= mat_mul_spec(self.m(), o.m()));
        }
        r
    }
}

/// A fixed-point product of two in-bound entries stays far below the
/// machine limit (2^60 raw at most).
proof fn lemma_entry_product_fits(x: int, y: int)
    requires
        -(MAT_LIM as int) <= x <= MAT_LIM as int,
        -(MAT_LIM as int) <= y <= MAT_LIM as int,
    ensures
        -1152921504606846976 <= fx_mul(x, y) <= 1152921504606846976,
{
    lemma_mul_mag(x, y, MAT_LIM as int, MAT_LIM as int);
    assert((FX_ONE as int) * 1152921504606846976 == (MAT_LIM as int) * (MAT_LIM as int));
    lemma_tdiv_cap(x * y, FX_ONE as int, 1152921504606846976);
}

} // verus!
