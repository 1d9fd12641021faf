//! Lazy, single-use traversal of an interleaved RGB byte buffer in batches
//! of pixel triples.
use vstd::prelude::*;

verus! {

/// How many lanes one batch has, and how many pixel triples it carries.
#[derive(Clone, Copy, Debug, PartialEq, Eq, Structural)]
pub enum LaneWidth {
    /// Three lanes holding one triple.
    Scalar,
    /// Four lanes holding one triple and one padding lane.
    Quad,
    /// Sixteen lanes holding five triples and one padding lane.
    Wide,
}

impl LaneWidth {
    pub open spec fn lane_count(self) -> nat {
        match self {
            LaneWidth::Scalar => 3,
            LaneWidth::Quad => 4,
            LaneWidth::Wide => 16,
        }
    }

    pub open spec fn triple_count(self) -> nat {
        match self {
            LaneWidth::Scalar => 1,
            LaneWidth::Quad => 1,
            LaneWidth::Wide => 5,
        }
    }

    /// Number of lanes in one batch.
    pub fn lanes(self) -> (r: usize)
        ensures
            r == self.lane_count(),
    {
        match self {
            LaneWidth::Scalar => 3,
            LaneWidth::Quad => 4,
            LaneWidth::Wide => 16,
        }
    }

    /// Number of pixel triples in one batch.
    pub fn triples(self) -> (r: usize)
        ensures
            r == self.triple_count(),
    {
        match self {
            LaneWidth::Scalar => 1,
            LaneWidth::Quad => 1,
            LaneWidth::Wide => 5,
        }
    }
}

/// `n` bytes of `s` from `start` on, zero where `s` has run out.
pub open spec fn window(s: Seq<u8>, start: int, n: nat) -> Seq<u8> {
    Seq::new(n, |j: int| if start + j < s.len() { s[start + j] } else { 0u8 })
}

/// Cursor over a byte buffer that hands out one batch of lanes per step.
pub struct TripleSequencer<'a> {
    data: &'a [u8],
    cursor: usize,
    width: LaneWidth,
}

impl<'a> TripleSequencer<'a> {
    /// The buffer being traversed.
    pub closed spec fn data(&self) -> Seq<u8> {
        self.data@
    }

    /// Byte offset of the next batch.
    pub closed spec fn position(&self) -> nat {
        self.cursor as nat
    }

    pub closed spec fn width(&self) -> LaneWidth {
        self.width
    }

    pub open spec fn wf(&self) -> bool {
        self.position() <= self.data().len()
    }

    /// A sequencer at the start of `data`.
    pub fn new(data: &'a [u8], width: LaneWidth) -> (r: TripleSequencer<'a>)
        ensures
            r.wf(),
            r.data() == data@,
            r.position() == 0,
            r.width() == width,
    {
        TripleSequencer { data, cursor: 0, width }
    }

    /// The next batch: the lanes from the cursor on, zero-filled where the
    /// buffer runs out; `None` once no byte is left. The cursor moves on by
    /// the bytes of the triples of one batch, and stops at the end.
    pub fn next_batch(&mut self) -> (r: Option<Vec<u8>>)
        requires
            old(self).wf(),
        ensures
            final(self).wf(),
            final(self).data() == old(self).data(),
            final(self).width() == old(self).width(),
            old(self).position() < old(self).data().len() ==> {
                &&& r.is_some()
                &&& r.unwrap()@ == window(
                    old(self).data(),
                    old(self).position() as int,
                    old(self).width().lane_count(),
                )
                &&& final(self).position() == if old(self).position() + 3
                    * old(self).width().triple_count() < old(self).data().len() {
                    old(self).position() + 3 * old(self).width().triple_count()
                } else {
                    old(self).data().len()
                }
            },
            old(self).position() >= old(self).data().len() ==> {
                &&& r.is_none()
                &&& final(self).position() == old(self).position()
            },
    {
        let len: usize = self.data.len();
        let start: usize = self.cursor;
        if start >= len {
            return None;
        }
        let lanes: usize = self.width.lanes();
        let step: usize = 3 * self.width.triples();
        let mut batch: Vec<u8> = Vec::new();
        let mut j: usize = 0;
        while j < lanes
            invariant
                start < len,
                len == self.data@.len(),
                lanes == self.width.lane_count(),
                j <= lanes,
                batch@ == window(self.data@, start as int, j as nat),
            decreases lanes - j,
        {
            let byte: u8 = if j < len - start {
                self.data[start + j]
            } else {
                0
            };
            batch.push(byte);
            j = j + 1;
            assert(batch@ =~= window(self.data@, start as int, j as nat));
        }
        self.cursor = if step < len - start {
            start + step
        } else {
            len
        };
        Some(batch)
    }
}

} // verus!
