//! Fitting a view to a raster, and carrying it from one resolution to
//! another.
//!
//! A view shows the plane at some number of plane units per pixel, the same
//! along both axes. That number is chosen so that the shorter axis of the
//! raster spans the area to be shown. When the raster changes its size, the
//! number is multiplied by the ratio of the old to the new length of one
//! axis; which axis depends on how the two aspect ratios compare.

use vstd::prelude::*;
use crate::config::Resolution;

verus! {

/// An axis of a raster.
#[derive(Debug, Copy, Clone, PartialEq, Eq, Structural)]
pub enum Axis {
    Width,
    Height,
}

/// The fraction `num / den` by which a scale is multiplied.
#[derive(Debug, Copy, Clone, PartialEq, Eq, Structural)]
pub struct Ratio {
    pub num: usize,
    pub den: usize,
}

/// The axis of a raster along which an area is fitted: the shorter one, and
/// the width where both are equal.
pub open spec fn shorter_axis(resolution: Resolution) -> Axis {
    if resolution.height < resolution.width {
        Axis::Height
    } else {
        Axis::Width
    }
}

/// Whether `a` has the greater ratio of width to height. The ratios are
/// compared exactly, by cross-multiplication.
pub open spec fn wider(a: Resolution, b: Resolution) -> bool {
    a.width * b.height > b.width * a.height
}

/// Whether two resolutions have the same ratio of width to height.
pub open spec fn same_aspect(a: Resolution, b: Resolution) -> bool {
    a.width * b.height == b.width * a.height
}

/// The axis by which a scale is carried from `old` to `new`: the width where
/// `new` is the wider of the two, else the height.
pub open spec fn rescale_axis(old: Resolution, new: Resolution) -> Axis {
    if wider(new, old) {
        Axis::Width
    } else {
        Axis::Height
    }
}

/// The ratio by which a scale is multiplied on the way from `old` to `new`:
/// the old length of the chosen axis over the new one.
pub open spec fn rescale_ratio(old: Resolution, new: Resolution) -> Ratio {
    match rescale_axis(old, new) {
        Axis::Width => Ratio { num: old.width, den: new.width },
        Axis::Height => Ratio { num: old.height, den: new.height },
    }
}

impl Resolution {
    /// Tells whether this resolution has a greater ratio of width to height
    /// than `other`.
    pub fn is_wider_than(&self, other: &Resolution) -> (yes: bool)
        ensures
            yes == wider(*self, *other),
    {
        let left_w: u128 = self.width as u128;
        let left_h: u128 = self.height as u128;
        let right_w: u128 = other.width as u128;
        let right_h: u128 = other.height as u128;
        assert(left_w * right_h <= 0xffff_ffff_ffff_ffff * 0xffff_ffff_ffff_ffff)
            by (nonlinear_arith)
            requires
                0 <= left_w <= 0xffff_ffff_ffff_ffff,
                0 <= right_h <= 0xffff_ffff_ffff_ffff,
        ;
        assert(right_w * left_h <= 0xffff_ffff_ffff_ffff * 0xffff_ffff_ffff_ffff)
            by (nonlinear_arith)
            requires
                0 <= right_w <= 0xffff_ffff_ffff_ffff,
                0 <= left_h <= 0xffff_ffff_ffff_ffff,
        ;
        assert(0xffff_ffff_ffff_ffff * 0xffff_ffff_ffff_ffff
            == 0xffff_ffff_ffff_fffe_0000_0000_0000_0001int);
        left_w * right_h > right_w * left_h
    }
}

/// The axis of the raster whose span matches the area that a view is made
/// for. The other axis is at least as long, and shows what the same scale
/// makes it show.
pub fn fit_axis(resolution: Resolution) -> (axis: Axis)
    ensures
        axis == shorter_axis(resolution),
{
    if resolution.height < resolution.width {
        Axis::Height
    } else {
        Axis::Width
    }
}

impl Resolution {
    /// The length of an axis in pixels.
    pub fn along(&self, axis: Axis) -> (length: usize)
        ensures
            length == match axis {
                Axis::Width => self.width,
                Axis::Height => self.height,
            },
    {
        match axis {
            Axis::Width => self.width,
            Axis::Height => self.height,
        }
    }
}

/// The axis along which a scale is carried over from `old` to `new`.
pub fn scale_axis(old: Resolution, new: Resolution) -> (axis: Axis)
    ensures
        axis == rescale_axis(old, new),
{
    if new.is_wider_than(&old) {
        Axis::Width
    } else {
        Axis::Height
    }
}

/// The ratio by which the scale of a view is multiplied when its raster
/// changes from `old` to `new`.
pub fn scale(old: Resolution, new: Resolution) -> (ratio: Ratio)
    ensures
        ratio == rescale_ratio(old, new),
{
    match scale_axis(old, new) {
        Axis::Width => Ratio { num: old.width, den: new.width },
        Axis::Height => Ratio { num: old.height, den: new.height },
    }
}

/// Between two resolutions of one aspect ratio, the way there and the way
/// back cancel: the two ratios multiply to one.
pub proof fn lemma_rescale_round_trip(a: Resolution, b: Resolution)
    requires
        same_aspect(a, b),
    ensures
        rescale_ratio(a, b).num * rescale_ratio(b, a).num == rescale_ratio(a, b).den
            * rescale_ratio(b, a).den,
{
    assert(a.height * b.height == b.height * a.height) by (nonlinear_arith);
}

/// Between two resolutions of different aspect ratios, the way there and the
/// way back shrink the scale: the two ratios multiply to less than one.
pub proof fn lemma_rescale_round_trip_shrinks(a: Resolution, b: Resolution)
    requires
        !same_aspect(a, b),
    ensures
        rescale_ratio(a, b).num * rescale_ratio(b, a).num < rescale_ratio(a, b).den
            * rescale_ratio(b, a).den,
{
    let aw = a.width as int;
    let ah = a.height as int;
    let bw = b.width as int;
    let bh = b.height as int;
    if wider(b, a) {
        assert(aw * bh == bh * aw) by (nonlinear_arith);
        assert(bw * ah == ah * bw) by (nonlinear_arith);
    } else {
        assert(ah * bw == bw * ah) by (nonlinear_arith);
        assert(bh * aw == aw * bh) by (nonlinear_arith);
    }
}

} // verus!
