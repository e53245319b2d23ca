//! Per-page and per-document tallies of fills, strokes and substituted
//! strokes, and the index of each drawing operation on a page.
use vstd::prelude::*;

verus! {

/// How many fills and strokes a page (or a whole document) drew, and how
/// many of the strokes got a new width. Never more substituted strokes than
/// strokes.
#[derive(Clone, Copy, Debug)]
pub struct PageCounters {
    fills: u64,
    strokes: u64,
    substituted: u64,
}

impl View for PageCounters {
    /// `(fills, strokes, substituted)`.
    type V = (u64, u64, u64);

    closed spec fn view(&self) -> (u64, u64, u64) {
        (self.fills, self.strokes, self.substituted)
    }
}

impl PageCounters {
    #[verifier::type_invariant]
    spec fn substituted_within_strokes(self) -> bool {
        self.substituted <= self.strokes
    }

    /// All counts at zero.
    pub fn new() -> (r: Self)
        ensures
            r@ == (0u64, 0u64, 0u64),
    {
        PageCounters { fills: 0, strokes: 0, substituted: 0 }
    }

    /// Number of fills.
    pub fn fills(&self) -> (r: u64)
        ensures
            r == self@.0,
    {
        self.fills
    }

    /// Number of strokes.
    pub fn strokes(&self) -> (r: u64)
        ensures
            r == self@.1,
            self@.2 <= self@.1,
    {
        proof {
            use_type_invariant(self);
        }
        self.strokes
    }

    /// Number of strokes that got a new width; never more than
    /// [`strokes`](Self::strokes).
    pub fn substituted(&self) -> (r: u64)
        ensures
            r == self@.2,
            r <= self@.1,
    {
        proof {
            use_type_invariant(self);
        }
        self.substituted
    }

    /// Counts one fill.
    pub fn record_fill(&mut self)
        requires
            old(self)@.0 < u64::MAX,
        ensures
            final(self)@.0 == old(self)@.0 + 1,
            final(self)@.1 == old(self)@.1,
            final(self)@.2 == old(self)@.2,
    {
        proof {
            use_type_invariant(&*self);
        }
        *self = PageCounters { fills: self.fills + 1, strokes: self.strokes, substituted: self.substituted };
    }

    /// Counts one stroke, and one substitution when `substituted`.
    pub fn record_stroke(&mut self, substituted: bool)
        requires
            old(self)@.1 < u64::MAX,
        ensures
            final(self)@.0 == old(self)@.0,
            final(self)@.1 == old(self)@.1 + 1,
            final(self)@.2 == old(self)@.2 + (if substituted {
                1int
            } else {
                0int
            }),
            final(self)@.2 <= final(self)@.1,
    {
        proof {
            use_type_invariant(&*self);
        }
        let strokes = self.strokes + 1;
        let substituted = if substituted {
            self.substituted + 1
        } else {
            self.substituted
        };
        *self = PageCounters { fills: self.fills, strokes, substituted };
    }

    /// Adds the counts of `page` to these totals.
    pub fn add(&mut self, page: &PageCounters)
        requires
            old(self)@.0 + page@.0 <= u64::MAX,
            old(self)@.1 + page@.1 <= u64::MAX,
        ensures
            final(self)@.0 == old(self)@.0 + page@.0,
            final(self)@.1 == old(self)@.1 + page@.1,
            final(self)@.2 == old(self)@.2 + page@.2,
            final(self)@.2 <= final(self)@.1,
    {
        proof {
            use_type_invariant(&*self);
            use_type_invariant(page);
        }
        *self = PageCounters {
            fills: self.fills + page.fills,
            strokes: self.strokes + page.strokes,
            substituted: self.substituted + page.substituted,
        };
    }
}

impl Default for PageCounters {
    fn default() -> (r: Self)
        ensures
            r@ == (0u64, 0u64, 0u64),
    {
        PageCounters::new()
    }
}

/// Numbers the drawing operations of a page: 0, 1, 2, ...
#[derive(Clone, Copy, Debug)]
pub struct OpCounter {
    next: usize,
}

impl View for OpCounter {
    /// The index the next operation gets.
    type V = usize;

    closed spec fn view(&self) -> usize {
        self.next
    }
}

impl OpCounter {
    /// A counter whose next index is 0.
    pub fn new() -> (r: Self)
        ensures
            r@ == 0,
    {
        OpCounter { next: 0 }
    }

    /// The index the next operation gets.
    pub fn current(&self) -> (r: usize)
        ensures
            r == self@,
    {
        self.next
    }

    /// The index of the next operation; the one after gets the next number.
    pub fn next_index(&mut self) -> (r: usize)
        requires
            old(self)@ < usize::MAX,
        ensures
            r == old(self)@,
            final(self)@ == old(self)@ + 1,
    {
        let i = self.next;
        self.next = i + 1;
        i
    }
}

} // verus!
