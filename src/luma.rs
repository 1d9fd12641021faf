//! Fixed-point Rec.709 luminance model.
use vstd::arithmetic::power2::pow2;
use vstd::bits::lemma_u64_shr_is_div;
use vstd::prelude::*;

verus! {

/// Rec.709 red coefficient, in parts per ten thousand.
pub const REC709_RED: u64 = 2126;

/// Rec.709 green coefficient, in parts per ten thousand.
pub const REC709_GREEN: u64 = 7152;

/// Rec.709 blue coefficient, in parts per ten thousand.
pub const REC709_BLUE: u64 = 722;

/// The scale in which the Rec.709 coefficients above are written.
pub const REC709_PARTS: u64 = 10000;

/// How a weighted channel sum is scaled back down to a luma value.
#[derive(Clone, Copy, Debug, PartialEq, Eq, Structural)]
pub enum Reduction {
    /// Exact integer division by the given divisor.
    Divide(u64),
    /// Right shift by the given number of bits (division by a power of two).
    Shift(u32),
}

impl Reduction {
    pub open spec fn wf(self) -> bool {
        match self {
            Reduction::Divide(d) => d > 0,
            Reduction::Shift(s) => s < 64,
        }
    }

    /// What the reduction does to a non-negative weighted sum.
    pub open spec fn apply(self, v: nat) -> nat {
        match self {
            Reduction::Divide(d) => v / (d as nat),
            Reduction::Shift(s) => v / pow2(s as nat),
        }
    }
}

/// Integer luma weights for the three channels together with the reduction
/// that scales a weighted sum back to channel range.
#[derive(Clone, Copy, Debug, PartialEq, Eq, Structural)]
pub struct LumaWeights {
    pub red: u32,
    pub green: u32,
    pub blue: u32,
    pub reduction: Reduction,
}

/// The byte at index `i`, or zero past either end of the buffer.
pub open spec fn byte_at(s: Seq<u8>, i: int) -> nat {
    if 0 <= i < s.len() {
        s[i] as nat
    } else {
        0
    }
}

impl LumaWeights {
    pub open spec fn wf(self) -> bool {
        self.reduction.wf()
    }

    /// Weighted sum of the triple that starts at byte `i`, bytes past the end
    /// of the buffer reading as zero.
    pub open spec fn weighted(self, s: Seq<u8>, i: int) -> nat {
        byte_at(s, i) * (self.red as nat) + byte_at(s, i + 1) * (self.green as nat) + byte_at(s, i + 2) * (self.blue as nat)
    }

    /// Weights derived from the Rec.709 coefficients at the integer `scale`,
    /// each truncated toward zero.
    pub fn rec709(scale: u32, reduction: Reduction) -> (r: LumaWeights)
        ensures
            r.red == (REC709_RED as int) * (scale as int) / (REC709_PARTS as int),
            r.green == (REC709_GREEN as int) * (scale as int) / (REC709_PARTS as int),
            r.blue == (REC709_BLUE as int) * (scale as int) / (REC709_PARTS as int),
            r.reduction == reduction,
    {
        let s: u64 = scale as u64;
        let red: u64 = REC709_RED * s / REC709_PARTS;
        let green: u64 = REC709_GREEN * s / REC709_PARTS;
        let blue: u64 = REC709_BLUE * s / REC709_PARTS;
        assert(red <= scale && green <= scale && blue <= scale) by (nonlinear_arith)
            requires
                red == 2126 * s / 10000,
                green == 7152 * s / 10000,
                blue == 722 * s / 10000,
                s == scale,
        ;
        LumaWeights { red: red as u32, green: green as u32, blue: blue as u32, reduction }
    }

    /// Decimal fixed point: scale ten thousand, exact division.
    pub fn decimal() -> (r: LumaWeights)
        ensures
            r.wf(),
            r.red == 2126 && r.green == 7152 && r.blue == 722,
            r.reduction == Reduction::Divide(10000),
    {
        let r = LumaWeights::rec709(10000, Reduction::Divide(REC709_PARTS));
        assert(2126 * 10000 / 10000 == 2126 && 7152 * 10000 / 10000 == 7152 && 722 * 10000 / 10000
            == 722) by (nonlinear_arith);
        r
    }

    /// Power-of-two fixed point: scale 8191, scaled down by a shift of 13 bits
    /// (division by 8192), an accepted approximation of exact division.
    pub fn binary() -> (r: LumaWeights)
        ensures
            r.wf(),
            r.red == 1741 && r.green == 5858 && r.blue == 591,
            r.reduction == Reduction::Shift(13),
    {
        let r = LumaWeights::rec709(8191, Reduction::Shift(13));
        assert(2126 * 8191 / 10000 == 1741 && 7152 * 8191 / 10000 == 5858 && 722 * 8191 / 10000
            == 591) by (nonlinear_arith);
        r
    }
}

/// Weighted channel sum of triple `k` of a batch of lanes: lanes `3k`, `3k+1`
/// and `3k+2` hold its red, green and blue bytes. No division is made here.
pub fn get_luminance_value(lanes: &Vec<u8>, k: usize, w: &LumaWeights) -> (r: u64)
    requires
        3 * k + 2 < lanes@.len(),
    ensures
        r == w.weighted(lanes@, 3 * k),
{
    let n: usize = lanes.len();
    assert(3 * k + 2 < n);
    let i: usize = 3 * k;
    let red: u64 = lanes[i] as u64;
    let green: u64 = lanes[i + 1] as u64;
    let blue: u64 = lanes[i + 2] as u64;
    assert(red * w.red + green * w.green + blue * w.blue <= 255 * 3 * 0xffff_ffff) by (nonlinear_arith)
        requires
            red <= 255,
            green <= 255,
            blue <= 255,
            w.red <= 0xffff_ffff,
            w.green <= 0xffff_ffff,
            w.blue <= 0xffff_ffff,
    ;
    red * (w.red as u64) + green * (w.green as u64) + blue * (w.blue as u64)
}

/// Scales a weighted sum back down to channel range.
pub fn divide_to_original(value: u64, reduction: Reduction) -> (r: u64)
    requires
        reduction.wf(),
    ensures
        r == reduction.apply(value as nat),
{
    match reduction {
        Reduction::Divide(d) => value / d,
        Reduction::Shift(s) => {
            proof {
                lemma_u64_shr_is_div(value, s as u64);
            }
            value >> (s as u64)
        },
    }
}

} // verus!
