//! Per-pair luminance difference: two sequencers consumed in lockstep, one
//! batch at a time.
use crate::luma::{LumaWeights, divide_to_original, get_luminance_value};
use crate::sequencer::{LaneWidth, TripleSequencer, window};
use vstd::arithmetic::power2::lemma_pow2_pos;
use vstd::prelude::*;

verus! {

/// Upper bound of a weighted channel sum: three bytes times weights below 2^32.
pub const WEIGHTED_BOUND: u64 = 0x400_0000_0000;

pub open spec fn abs_diff(x: nat, y: nat) -> nat {
    if x >= y {
        (x - y) as nat
    } else {
        (y - x) as nat
    }
}

/// Reduced absolute luminance difference of triple `t` of two buffers.
pub open spec fn triple_delta(a: Seq<u8>, b: Seq<u8>, w: LumaWeights, t: int) -> nat {
    w.reduction.apply(abs_diff(w.weighted(a, 3 * t), w.weighted(b, 3 * t)))
}

/// Sum of the reduced differences of the first `n` triples.
pub open spec fn diff_upto(a: Seq<u8>, b: Seq<u8>, w: LumaWeights, n: nat) -> nat
    decreases n,
{
    if n == 0 {
        0
    } else {
        diff_upto(a, b, w, (n - 1) as nat) + triple_delta(a, b, w, n - 1)
    }
}

/// Number of triples a buffer of `len` bytes holds, a partial one included.
pub open spec fn triples_in(len: nat) -> nat {
    (len + 2) / 3
}

/// Accumulated difference of two buffers: every triple counted once.
pub open spec fn total_diff(a: Seq<u8>, b: Seq<u8>, w: LumaWeights) -> nat {
    diff_upto(a, b, w, triples_in(a.len()))
}

proof fn lemma_reduce_le(w: LumaWeights, v: nat)
    requires
        w.wf(),
    ensures
        w.reduction.apply(v) <= v,
        v == 0 ==> w.reduction.apply(v) == 0,
{
    match w.reduction {
        crate::luma::Reduction::Divide(d) => {
            assert(v / (d as nat) <= v) by (nonlinear_arith)
                requires
                    d > 0,
            ;
        },
        crate::luma::Reduction::Shift(s) => {
            lemma_pow2_pos(s as nat);
            let p = vstd::arithmetic::power2::pow2(s as nat);
            assert(v / p <= v) by (nonlinear_arith)
                requires
                    p > 0,
            ;
        },
    }
}

proof fn lemma_weighted_bound(w: LumaWeights, s: Seq<u8>, i: int)
    ensures
        w.weighted(s, i) < WEIGHTED_BOUND,
{
    let x = crate::luma::byte_at(s, i);
    let y = crate::luma::byte_at(s, i + 1);
    let z = crate::luma::byte_at(s, i + 2);
    assert(x * (w.red as nat) + y * (w.green as nat) + z * (w.blue as nat) < 0x400_0000_0000)
        by (nonlinear_arith)
        requires
            x <= 255,
            y <= 255,
            z <= 255,
            w.red <= 0xffff_ffff,
            w.green <= 0xffff_ffff,
            w.blue <= 0xffff_ffff,
    ;
}

proof fn lemma_delta_bound(a: Seq<u8>, b: Seq<u8>, w: LumaWeights, t: int)
    requires
        w.wf(),
    ensures
        triple_delta(a, b, w, t) < WEIGHTED_BOUND,
{
    lemma_weighted_bound(w, a, 3 * t);
    lemma_weighted_bound(w, b, 3 * t);
    lemma_reduce_le(w, abs_diff(w.weighted(a, 3 * t), w.weighted(b, 3 * t)));
}

proof fn lemma_diff_upto_bound(a: Seq<u8>, b: Seq<u8>, w: LumaWeights, n: nat)
    requires
        w.wf(),
    ensures
        diff_upto(a, b, w, n) <= n * WEIGHTED_BOUND,
    decreases n,
{
    if n > 0 {
        lemma_diff_upto_bound(a, b, w, (n - 1) as nat);
        lemma_delta_bound(a, b, w, n - 1);
        assert((n - 1) * WEIGHTED_BOUND + WEIGHTED_BOUND == n * WEIGHTED_BOUND) by (nonlinear_arith);
    }
}

/// Triples that lie wholly past the end of both buffers add nothing.
proof fn lemma_tail_zero(a: Seq<u8>, b: Seq<u8>, w: LumaWeights, n: nat)
    requires
        w.wf(),
        a.len() == b.len(),
        n >= triples_in(a.len()),
    ensures
        diff_upto(a, b, w, n) == total_diff(a, b, w),
    decreases n,
{
    if n > triples_in(a.len()) {
        lemma_tail_zero(a, b, w, (n - 1) as nat);
        assert(w.weighted(a, 3 * (n - 1)) == 0);
        assert(w.weighted(b, 3 * (n - 1)) == 0);
        lemma_reduce_le(w, 0);
    }
}

/// The triples of a batch taken at triple `t` are the triples `t`, `t + 1`,
/// ... of the buffer.
proof fn lemma_window_diff(
    a: Seq<u8>,
    b: Seq<u8>,
    w: LumaWeights,
    width: LaneWidth,
    t: nat,
    k: nat,
)
    requires
        k <= width.triple_count(),
    ensures
        diff_upto(a, b, w, t) + diff_upto(
            window(a, 3 * t as int, width.lane_count()),
            window(b, 3 * t as int, width.lane_count()),
            w,
            k,
        ) == diff_upto(a, b, w, t + k),
    decreases k,
{
    if k > 0 {
        let x = window(a, 3 * t as int, width.lane_count());
        let y = window(b, 3 * t as int, width.lane_count());
        lemma_window_diff(a, b, w, width, t, (k - 1) as nat);
        let i = 3 * (k - 1);
        assert(i + 2 < width.lane_count());
        assert(w.weighted(x, i) == w.weighted(a, 3 * (t + k - 1)));
        assert(w.weighted(y, i) == w.weighted(b, 3 * (t + k - 1)));
    }
}

/// Sum over the triples of one batch pair of the reduced absolute
/// differences of their luminances. Padding lanes are not read.
pub fn batch_diff(x: &Vec<u8>, y: &Vec<u8>, width: LaneWidth, w: &LumaWeights) -> (r: u64)
    requires
        w.wf(),
        x@.len() == width.lane_count(),
        y@.len() == width.lane_count(),
    ensures
        r == diff_upto(x@, y@, *w, width.triple_count()),
{
    let n: usize = width.triples();
    let mut acc: u64 = 0;
    let mut k: usize = 0;
    while k < n
        invariant
            w.wf(),
            n == width.triple_count(),
            x@.len() == width.lane_count(),
            y@.len() == width.lane_count(),
            k <= n,
            acc == diff_upto(x@, y@, *w, k as nat),
        decreases n - k,
    {
        proof {
            lemma_diff_upto_bound(x@, y@, *w, k as nat);
            lemma_delta_bound(x@, y@, *w, k as int);
        }
        let lx: u64 = get_luminance_value(x, k, w);
        let ly: u64 = get_luminance_value(y, k, w);
        let d: u64 = if lx >= ly {
            lx - ly
        } else {
            ly - lx
        };
        acc = acc + divide_to_original(d, w.reduction);
        k = k + 1;
    }
    acc
}

/// Accumulated difference of two equally long buffers, traversed in batches
/// of the given width. The result is the same for every width: each triple
/// is counted once and padding lanes add nothing.
pub fn diff_buffers(a: &[u8], b: &[u8], width: LaneWidth, w: &LumaWeights) -> (r: u128)
    requires
        w.wf(),
        a@.len() == b@.len(),
    ensures
        r == total_diff(a@, b@, *w),
{
    let mut sa = TripleSequencer::new(a, width);
    let mut sb = TripleSequencer::new(b, width);
    let mut acc: u128 = 0;
    let ghost mut t: nat = 0;
    let n: usize = a.len();
    let ghost len: nat = n as nat;
    let ghost step: nat = width.triple_count();
    loop
        invariant
            w.wf(),
            len == a@.len(),
            len == b@.len(),
            len <= usize::MAX,
            step == width.triple_count(),
            sa.wf(),
            sb.wf(),
            sa.data() == a@,
            sb.data() == b@,
            sa.width() == width,
            sb.width() == width,
            sa.position() == sb.position(),
            sa.position() == if 3 * t < len {
                3 * t
            } else {
                len
            },
            3 * t < len + 3 * step,
            acc == diff_upto(a@, b@, *w, t),
        ensures
            acc == total_diff(a@, b@, *w),
        decreases len - sa.position(),
    {
        let pos: Ghost<nat> = Ghost(sa.position());
        let xa = sa.next_batch();
        let xb = sb.next_batch();
        match (xa, xb) {
            (Some(x), Some(y)) => {
                let d: u64 = batch_diff(&x, &y, width, w);
                proof {
                    lemma_window_diff(a@, b@, *w, width, t, step);
                    lemma_diff_upto_bound(a@, b@, *w, t + step);
                    assert(t + step <= len + step);
                    assert((t + step) * WEIGHTED_BOUND <= (len + step) * WEIGHTED_BOUND)
                        by (nonlinear_arith)
                        requires
                            t + step <= len + step,
                    ;
                }
                acc = acc + d as u128;
                proof {
                    t = t + step;
                }
            },
            _ => {
                proof {
                    lemma_tail_zero(a@, b@, *w, t);
                }
                break ;
            },
        }
    }
    acc
}

/// Why a comparison could not be made.
#[derive(Clone, Copy, Debug, PartialEq, Eq, Structural)]
pub enum DiffError {
    /// No comparison raster was given.
    NoInput,
    /// A comparison raster's width or height differs from the reference's.
    DimensionMismatch,
}

/// A decoded RGB8 image: rows without padding, three bytes per pixel in the
/// order red, green, blue.
#[derive(Clone, Debug)]
pub struct Raster {
    pub width: u32,
    pub height: u32,
    pub data: Vec<u8>,
}

impl Raster {
    pub open spec fn wf(&self) -> bool {
        self.data@.len() == (self.width as nat) * (self.height as nat) * 3
    }

    pub open spec fn same_dims(&self, other: &Raster) -> bool {
        self.width == other.width && self.height == other.height
    }

    /// A raster from its dimensions and bytes; `None` unless the buffer holds
    /// exactly three bytes per pixel.
    pub fn new(width: u32, height: u32, data: Vec<u8>) -> (r: Option<Raster>)
        ensures
            r.is_some() <==> data@.len() == (width as nat) * (height as nat) * 3,
            r.is_some() ==> ({
                let v = r.unwrap();
                v.wf() && v.width == width && v.height == height && v.data@ == data@
            }),
    {
        let pixels: u128 = area(width, height) as u128;
        if (data.len() as u128) == pixels * 3 {
            Some(Raster { width, height, data })
        } else {
            None
        }
    }

    /// Number of pixels.
    pub fn pixel_count(&self) -> (r: u64)
        ensures
            r == (self.width as nat) * (self.height as nat),
    {
        area(self.width, self.height)
    }
}

fn area(width: u32, height: u32) -> (r: u64)
    ensures
        r == (width as nat) * (height as nat),
{
    let (x, y): (u64, u64) = (width as u64, height as u64);
    assert(x * y <= 0xffff_ffff * 0xffff_ffff) by (nonlinear_arith)
        requires
            x <= 0xffff_ffff,
            y <= 0xffff_ffff,
    ;
    x * y
}

/// What comparing `r1` with `r2` yields: the mismatch error exactly when
/// their dimensions differ, else their accumulated difference.
pub open spec fn diff_outcome(
    r1: &Raster,
    r2: &Raster,
    w: LumaWeights,
    res: Result<u128, DiffError>,
) -> bool {
    if r1.same_dims(r2) {
        res == Ok::<u128, DiffError>(total_diff(r1.data@, r2.data@, w) as u128)
            && total_diff(r1.data@, r2.data@, w) <= u128::MAX
    } else {
        res == Err::<u128, DiffError>(DiffError::DimensionMismatch)
    }
}

/// Accumulated luminance difference of two rasters of equal dimensions;
/// rasters of other dimensions are refused before any pixel is read.
pub fn calculate_diff(r1: &Raster, r2: &Raster, width: LaneWidth, w: &LumaWeights) -> (r: Result<
    u128,
    DiffError,
>)
    requires
        r1.wf(),
        r2.wf(),
        w.wf(),
    ensures
        diff_outcome(r1, r2, *w, r),
{
    if r1.width != r2.width || r1.height != r2.height {
        return Err(DiffError::DimensionMismatch);
    }
    let d: u128 = diff_buffers(r1.data.as_slice(), r2.data.as_slice(), width, w);
    Ok(d)
}

proof fn lemma_diff_upto_self(a: Seq<u8>, w: LumaWeights, n: nat)
    requires
        w.wf(),
    ensures
        diff_upto(a, a, w, n) == 0,
    decreases n,
{
    if n > 0 {
        lemma_diff_upto_self(a, w, (n - 1) as nat);
        lemma_reduce_le(w, 0);
    }
}

proof fn lemma_diff_upto_swap(a: Seq<u8>, b: Seq<u8>, w: LumaWeights, n: nat)
    ensures
        diff_upto(a, b, w, n) == diff_upto(b, a, w, n),
    decreases n,
{
    if n > 0 {
        lemma_diff_upto_swap(a, b, w, (n - 1) as nat);
    }
}

/// A raster compared with an identical copy of itself has difference zero.
pub proof fn law_identity(r1: &Raster, r2: &Raster, w: LumaWeights)
    requires
        r1.wf(),
        w.wf(),
        r1.same_dims(r2),
        r2.data@ == r1.data@,
    ensures
        total_diff(r1.data@, r2.data@, w) == 0,
        diff_outcome(r1, r2, w, Ok(0u128)),
{
    lemma_diff_upto_self(r1.data@, w, triples_in(r1.data@.len()));
}

/// Comparing `r1` with `r2` yields what comparing `r2` with `r1` yields.
pub proof fn law_symmetry(r1: &Raster, r2: &Raster, w: LumaWeights)
    requires
        r1.wf(),
        r2.wf(),
    ensures
        r1.same_dims(r2) ==> total_diff(r1.data@, r2.data@, w) == total_diff(
            r2.data@,
            r1.data@,
            w,
        ),
        forall|res: Result<u128, DiffError>|
            #[trigger] diff_outcome(r1, r2, w, res) <==> diff_outcome(r2, r1, w, res),
{
    if r1.same_dims(r2) {
        lemma_diff_upto_swap(r1.data@, r2.data@, w, triples_in(r1.data@.len()));
    }
}

} // verus!
