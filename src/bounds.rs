//! Target sizes for resized images.
use crate::image::ImageFormat;
use vstd::prelude::*;

verus! {

/// Why a size could not be fitted.
#[derive(Debug, Clone, Copy, PartialEq, Eq, Structural)]
pub enum Error {
    /// The source has no width or no height, so it has no aspect ratio.
    EmptySource,
    /// A scaled dimension does not fit in 32 bits.
    Overflow,
}

/// How a size is brought to a target.
#[derive(Debug, Clone, Copy, PartialEq, Eq, Hash, Structural)]
pub enum ScalingMode {
    /// Take the target size as it is.
    Exact,
    /// Scale, keeping the aspect ratio, to the largest size inside the target.
    Fit,
    /// Scale, keeping the aspect ratio, to the smallest size that covers the
    /// target.
    Cover,
}

impl Default for ScalingMode {
    fn default() -> (r: Self)
        ensures
            r == ScalingMode::Fit,
    {
        ScalingMode::Fit
    }
}

/// Limits on the width and height of an image.
#[derive(Debug, Clone, Copy)]
pub struct Bounds {
    /// width of the image
    pub width: Option<u32>,
    /// height of the image
    pub height: Option<u32>,
    /// mode of scaling
    pub mode: Option<ScalingMode>,
}

/// A width and a height in pixels.
#[derive(Debug, Clone, Copy, PartialEq, Eq, Structural)]
pub struct Size {
    /// width
    pub width: u32,
    /// height
    pub height: u32,
}

/// `a / b`, rounded up.
pub open spec fn ceil_div(a: nat, b: nat) -> nat
    recommends
        b > 0,
{
    if a % b == 0 {
        a / b
    } else {
        a / b + 1
    }
}

/// The scaled size as numbers: the target width with the height scaled to
/// match when `by_width`, else the target height with the width scaled.
pub open spec fn scaled(w: nat, h: nat, tw: nat, th: nat, by_width: bool) -> (nat, nat) {
    if by_width {
        (tw, ceil_div(h * tw, w))
    } else {
        (ceil_div(w * th, h), th)
    }
}

/// Whether the width is the dimension that decides the scale.
pub open spec fn width_decides(w: nat, h: nat, tw: nat, th: nat, mode: ScalingMode) -> bool {
    match mode {
        ScalingMode::Cover => tw * h >= th * w,
        _ => tw * h <= th * w,
    }
}

/// The size `(w, h)` brought to the target `(tw, th)` under `mode`.
pub open spec fn fit_spec(w: u32, h: u32, tw: u32, th: u32, mode: ScalingMode) -> Result<Size, Error> {
    if mode == ScalingMode::Exact {
        Ok(Size { width: tw, height: th })
    } else if w == 0 || h == 0 {
        Err(Error::EmptySource)
    } else {
        let s = scaled(
            w as nat,
            h as nat,
            tw as nat,
            th as nat,
            width_decides(w as nat, h as nat, tw as nat, th as nat, mode),
        );
        if s.0 > u32::MAX || s.1 > u32::MAX {
            Err(Error::Overflow)
        } else {
            Ok(Size { width: s.0 as u32, height: s.1 as u32 })
        }
    }
}

/// The mode used when none is given.
pub open spec fn mode_or_default(mode: Option<ScalingMode>) -> ScalingMode {
    match mode {
        Some(m) => m,
        None => ScalingMode::Fit,
    }
}

/// The product of two 32-bit numbers, which always fits in 64 bits.
fn mul32(a: u32, b: u32) -> (r: u64)
    ensures
        r == a as nat * b as nat,
        r <= 0xFFFF_FFFE_0000_0001,
{
    let a64 = a as u64;
    let b64 = b as u64;
    assert(a64 * b64 <= 0xFFFF_FFFE_0000_0001) by (nonlinear_arith)
        requires
            a64 <= 0xFFFF_FFFF,
            b64 <= 0xFFFF_FFFF,
    ;
    a64 * b64
}

/// `a * b / c` rounded up, for 32-bit factors.
fn mul_ceil_div(a: u32, b: u32, c: u32) -> (r: u64)
    requires
        c > 0,
    ensures
        r == ceil_div(a as nat * b as nat, c as nat),
{
    let p = mul32(a, b);
    let q = p / (c as u64);
    if p % (c as u64) == 0 {
        q
    } else {
        assert(q <= p);
        q + 1
    }
}

impl Size {
    /// This size brought within `bounds`: a missing dimension of the bounds
    /// is taken from this size, and no bound at all leaves the size as it is.
    pub fn fit_to_bounds(self, bounds: Bounds) -> (r: Result<Self, Error>)
        ensures
            r == match (bounds.width, bounds.height) {
                (None, None) => Ok(self),
                (None, Some(h)) => fit_spec(
                    self.width,
                    self.height,
                    self.width,
                    h,
                    mode_or_default(bounds.mode),
                ),
                (Some(w), None) => fit_spec(
                    self.width,
                    self.height,
                    w,
                    self.height,
                    mode_or_default(bounds.mode),
                ),
                (Some(w), Some(h)) => fit_spec(
                    self.width,
                    self.height,
                    w,
                    h,
                    mode_or_default(bounds.mode),
                ),
            },
    {
        match (bounds.width, bounds.height) {
            (None, None) => Ok(self),
            (None, Some(height)) => self.fit(Size { width: self.width, height }, bounds.mode),
            (Some(width), None) => self.fit(Size { width, height: self.height }, bounds.mode),
            (Some(width), Some(height)) => self.fit(Size { width, height }, bounds.mode),
        }
    }

    /// This size brought to `size` under `mode` (`Fit` when none is given).
    pub fn fit(self, size: Size, mode: Option<ScalingMode>) -> (r: Result<Self, Error>)
        ensures
            r == fit_spec(self.width, self.height, size.width, size.height, mode_or_default(mode)),
    {
        let mode = match mode {
            Some(m) => m,
            None => ScalingMode::Fit,
        };
        if let ScalingMode::Exact = mode {
            return Ok(size);
        }
        if self.width == 0 || self.height == 0 {
            return Err(Error::EmptySource);
        }
        let (w, h, tw, th) = (self.width, self.height, size.width, size.height);
        let lhs = mul32(tw, h);
        let rhs = mul32(th, w);
        let by_width = match mode {
            ScalingMode::Cover => lhs >= rhs,
            _ => lhs <= rhs,
        };
        let (nw, nh) = if by_width {
            (tw as u64, mul_ceil_div(h, tw, w))
        } else {
            (mul_ceil_div(w, th, h), th as u64)
        };
        if nw > u32::MAX as u64 || nh > u32::MAX as u64 {
            Err(Error::Overflow)
        } else {
            Ok(Size { width: nw as u32, height: nh as u32 })
        }
    }
}

/// What a request asks of an image: a size, a mode, an output format and a
/// quality.
#[derive(Debug, Clone, Copy, PartialEq, Eq, Hash, Structural)]
pub struct Optimizations {
    /// quality value for JPEG (0 to 100)
    pub quality: Option<u8>,
    /// width of the image
    pub width: Option<u32>,
    /// height of the image
    pub height: Option<u32>,
    /// mode of scaling
    pub mode: Option<ScalingMode>,
    /// encoding format
    pub format: Option<ImageFormat>,
}

impl Optimizations {
    /// The size limits these optimizations ask for.
    pub fn bounds(&self) -> (r: Bounds)
        ensures
            r.width == self.width,
            r.height == self.height,
            r.mode == self.mode,
    {
        Bounds { width: self.width, height: self.height, mode: self.mode }
    }
}

} // verus!
