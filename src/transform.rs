//! The transform record: translate, rotate (with its order), scale, and the
//! pivot, shear and rotate-axis fields, which are kept for compatibility
//! and always hold zero. The scalar type is generic; the matrix arithmetic
//! on it lives with the caller.
use crate::node::RotateOrder;
use vstd::prelude::*;
use vstd::std_specs::convert::FromSpec;

verus! {

#[derive(Debug, Copy, Clone)]
pub struct Transform<R> {
    // Scale
    pub sx: R,
    pub sy: R,
    pub sz: R,
    // Scale pivot
    pub spx: R,
    pub spy: R,
    pub spz: R,
    // Scale pivot translation
    pub sptx: R,
    pub spty: R,
    pub sptz: R,
    // Shear
    pub shxy: R,
    pub shxz: R,
    pub shyz: R,
    // Rotate order
    pub roo: RotateOrder,
    // Rotate, in degrees
    pub rx: R,
    pub ry: R,
    pub rz: R,
    // Rotate axis
    pub rax: R,
    pub ray: R,
    pub raz: R,
    // Rotate pivot
    pub rpx: R,
    pub rpy: R,
    pub rpz: R,
    // Rotate pivot translation
    pub rptx: R,
    pub rpty: R,
    pub rptz: R,
    // Translate
    pub tx: R,
    pub ty: R,
    pub tz: R,
}

/// `v` is the scalar `n`, as far as `R`'s conversion from `u8` is specified.
pub open spec fn is_small_int<R: From<u8>>(v: R, n: u8) -> bool {
    R::obeys_from_spec() ==> v == R::from_spec(n)
}

impl<R: Copy + From<u8>> Transform<R> {
    /// The transform has the given translate, rotate, rotate order and scale,
    /// and every pivot, shear and rotate-axis field holds `zero`.
    pub open spec fn is_trs(
        self,
        t: (R, R, R),
        r: (R, R, R),
        roo: RotateOrder,
        s: (R, R, R),
        zero: R,
    ) -> bool {
        &&& self.tx == t.0 && self.ty == t.1 && self.tz == t.2
        &&& self.rx == r.0 && self.ry == r.1 && self.rz == r.2
        &&& self.roo == roo
        &&& self.sx == s.0 && self.sy == s.1 && self.sz == s.2
        &&& self.spx == zero && self.spy == zero && self.spz == zero
        &&& self.sptx == zero && self.spty == zero && self.sptz == zero
        &&& self.shxy == zero && self.shxz == zero && self.shyz == zero
        &&& self.rax == zero && self.ray == zero && self.raz == zero
        &&& self.rpx == zero && self.rpy == zero && self.rpz == zero
        &&& self.rptx == zero && self.rpty == zero && self.rptz == zero
    }

    fn trs(t: (R, R, R), r: (R, R, R), roo: RotateOrder, s: (R, R, R), zero: R) -> (res: Self)
        ensures
            res.is_trs(t, r, roo, s, zero),
    {
        Transform {
            sx: s.0,
            sy: s.1,
            sz: s.2,
            spx: zero,
            spy: zero,
            spz: zero,
            sptx: zero,
            spty: zero,
            sptz: zero,
            shxy: zero,
            shxz: zero,
            shyz: zero,
            roo,
            rx: r.0,
            ry: r.1,
            rz: r.2,
            rax: zero,
            ray: zero,
            raz: zero,
            rpx: zero,
            rpy: zero,
            rpz: zero,
            rptx: zero,
            rpty: zero,
            rptz: zero,
            tx: t.0,
            ty: t.1,
            tz: t.2,
        }
    }

    /// The identity transform: no translation or rotation, unit scale,
    /// rotate order XYZ.
    pub fn new() -> (r: Self)
        ensures
            is_small_int(r.spx, 0),
            is_small_int(r.sx, 1),
            r.is_trs((r.spx, r.spx, r.spx), (r.spx, r.spx, r.spx), RotateOrder::XYZ, (r.sx, r.sx, r.sx), r.spx),
    {
        let zero = R::from(0u8);
        let one = R::from(1u8);
        Self::trs((zero, zero, zero), (zero, zero, zero), RotateOrder::XYZ, (one, one, one), zero)
    }

    pub fn from_txyz_rxyz_sxyz(
        tx: R,
        ty: R,
        tz: R,
        rx: R,
        ry: R,
        rz: R,
        roo: RotateOrder,
        sx: R,
        sy: R,
        sz: R,
    ) -> (r: Self)
        ensures
            is_small_int(r.spx, 0),
            r.is_trs((tx, ty, tz), (rx, ry, rz), roo, (sx, sy, sz), r.spx),
    {
        let zero = R::from(0u8);
        Self::trs((tx, ty, tz), (rx, ry, rz), roo, (sx, sy, sz), zero)
    }

    /// Translate and rotate as given, unit scale.
    pub fn from_txyz_rxyz(tx: R, ty: R, tz: R, rx: R, ry: R, rz: R, roo: RotateOrder) -> (r: Self)
        ensures
            is_small_int(r.spx, 0),
            is_small_int(r.sx, 1),
            r.is_trs((tx, ty, tz), (rx, ry, rz), roo, (r.sx, r.sx, r.sx), r.spx),
    {
        let zero = R::from(0u8);
        let one = R::from(1u8);
        Self::trs((tx, ty, tz), (rx, ry, rz), roo, (one, one, one), zero)
    }

    /// Translate as given, no rotation (order XYZ), unit scale.
    pub fn from_txyz(tx: R, ty: R, tz: R) -> (r: Self)
        ensures
            is_small_int(r.spx, 0),
            is_small_int(r.sx, 1),
            r.is_trs((tx, ty, tz), (r.spx, r.spx, r.spx), RotateOrder::XYZ, (r.sx, r.sx, r.sx), r.spx),
    {
        let zero = R::from(0u8);
        let one = R::from(1u8);
        Self::trs((tx, ty, tz), (zero, zero, zero), RotateOrder::XYZ, (one, one, one), zero)
    }

    /// Rotate as given, no translation, unit scale.
    pub fn from_rxyz(rx: R, ry: R, rz: R, roo: RotateOrder) -> (r: Self)
        ensures
            is_small_int(r.spx, 0),
            is_small_int(r.sx, 1),
            r.is_trs((r.spx, r.spx, r.spx), (rx, ry, rz), roo, (r.sx, r.sx, r.sx), r.spx),
    {
        let zero = R::from(0u8);
        let one = R::from(1u8);
        Self::trs((zero, zero, zero), (rx, ry, rz), roo, (one, one, one), zero)
    }

    /// Scale as given, no translation or rotation (order XYZ).
    pub fn from_sxyz(sx: R, sy: R, sz: R) -> (r: Self)
        ensures
            is_small_int(r.spx, 0),
            r.is_trs((r.spx, r.spx, r.spx), (r.spx, r.spx, r.spx), RotateOrder::XYZ, (sx, sy, sz), r.spx),
    {
        let zero = R::from(0u8);
        Self::trs((zero, zero, zero), (zero, zero, zero), RotateOrder::XYZ, (sx, sy, sz), zero)
    }

    /// The same scale `s` on all three axes, no translation or rotation.
    pub fn from_s(s: R) -> (r: Self)
        ensures
            is_small_int(r.spx, 0),
            r.is_trs((r.spx, r.spx, r.spx), (r.spx, r.spx, r.spx), RotateOrder::XYZ, (s, s, s), r.spx),
    {
        let zero = R::from(0u8);
        Self::trs((zero, zero, zero), (zero, zero, zero), RotateOrder::XYZ, (s, s, s), zero)
    }
}

} // verus!
