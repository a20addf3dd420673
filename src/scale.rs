use vstd::prelude::*;

verus! {

/// The number of scale units that make up a factor of one.
pub const BASE: u32 = 120;

/// A fractional output scale, held as a multiple of `1 / BASE`.
#[derive(Copy, Clone, Debug, PartialEq, Eq, Structural, Hash, PartialOrd, Ord)]
pub struct Scale(pub u32);

/// `n / d` rounded to the nearest integer, halves away from zero.
pub open spec fn round_div(n: int, d: int) -> int
    recommends
        d > 0,
{
    if n >= 0 {
        (n + d / 2) / d
    } else {
        -((-n + d / 2) / d)
    }
}

/// `v` clamped into the range of `i32`.
pub open spec fn clamp_i32(v: int) -> int {
    if v < i32::MIN {
        i32::MIN as int
    } else if v > i32::MAX {
        i32::MAX as int
    } else {
        v
    }
}

/// The pixel count that a logical length `len` covers at `scale` units.
pub open spec fn scaled_len(len: int, scale: int) -> int {
    if scale == BASE {
        len
    } else {
        clamp_i32(round_div(len * scale, BASE as int))
    }
}

fn scale_len(len: i32, scale: u32) -> (r: i32)
    ensures
        r == scaled_len(len as int, scale as int),
{
    if scale == BASE {
        return len;
    }
    assert(-0x8000_0000 * 0xffff_ffff <= len as int * scale as int <= 0x7fff_ffff * 0xffff_ffff)
        by (nonlinear_arith)
        requires
            -0x8000_0000 <= len <= 0x7fff_ffff,
            0 <= scale <= 0xffff_ffff,
    ;
    let n: i64 = len as i64 * scale as i64;
    let q: i64 = if n >= 0 {
        (n + 60) / 120
    } else {
        -((-n + 60) / 120)
    };
    if q < i32::MIN as i64 {
        i32::MIN
    } else if q > i32::MAX as i64 {
        i32::MAX
    } else {
        q as i32
    }
}

impl Scale {
    pub fn from_int(f: u32) -> (r: Self)
        ensures
            r.0 == if f * BASE > u32::MAX { u32::MAX as int } else { f * BASE },
    {
        if f > u32::MAX / BASE {
            Scale(u32::MAX)
        } else {
            Scale(f * BASE)
        }
    }

    /// The smallest whole factor that is at least this scale.
    pub fn round_up(self) -> (r: u32)
        ensures
            r == (if self.0 + (BASE - 1) > u32::MAX { u32::MAX as int } else { self.0 + (BASE - 1) }) / BASE as int,
    {
        let s: u32 = if self.0 > u32::MAX - (BASE - 1) {
            u32::MAX
        } else {
            self.0 + (BASE - 1)
        };
        s / BASE
    }

    pub fn from_wl(wl: u32) -> (r: Self)
        ensures
            r.0 == wl,
    {
        Scale(wl)
    }

    pub fn to_wl(self) -> (r: u32)
        ensures
            r == self.0,
    {
        self.0
    }

    /// The size in pixels of a `width` x `height` area at this scale.
    pub fn pixel_size(self, width: i32, height: i32) -> (r: (i32, i32))
        ensures
            r.0 == scaled_len(width as int, self.0 as int),
            r.1 == scaled_len(height as int, self.0 as int),
    {
        (scale_len(width, self.0), scale_len(height, self.0))
    }

    /// Whether this scale is the whole factor `f`.
    pub fn is_factor(self, f: u32) -> (r: bool)
        ensures
            r == (self.0 == f * BASE),
    {
        f <= u32::MAX / BASE && self.0 == f * BASE
    }
}

impl Default for Scale {
    fn default() -> (r: Self)
        ensures
            r.0 == BASE,
    {
        Scale::from_int(1)
    }
}

} // verus!
