//! Offsets of tokens in the source text.
use vstd::prelude::*;

verus! {

/// A half-open range `[start, end)` of character offsets into a source text.
#[derive(Debug, Copy, Clone)]
pub struct Span {
    pub start: usize,
    pub end: usize,
}

/// Offsets at or above this start mark a span that points nowhere.
pub const NONE_START_FLOOR: usize = usize::MAX - 255;

impl Span {
    /// The span that points nowhere.
    pub fn none() -> (r: Span)
        ensures
            r.start == usize::MAX,
            r.end == usize::MAX,
            r.is_none_spec(),
    {
        Span { start: usize::MAX, end: usize::MAX }
    }

    /// The span of the one character at `position`.
    pub fn single_token(position: usize) -> (r: Span)
        requires
            position < usize::MAX,
        ensures
            r.start == position,
            r.end == position + 1,
    {
        Span { start: position, end: position + 1 }
    }

    pub fn multi_token(start: usize, end: usize) -> (r: Span)
        ensures
            r.start == start,
            r.end == end,
    {
        Span { start, end }
    }

    /// Drops the last character of the span; fails on an empty span.
    pub fn shrink_hi(&mut self) -> (r: Result<(), ShrinkHiError>)
        requires
            old(self).start <= old(self).end,
        ensures
            old(self).start == old(self).end ==> r == Err::<(), ShrinkHiError>(
                ShrinkHiError(old(self).start),
            ) && *final(self) == *old(self),
            old(self).start < old(self).end ==> r is Ok && final(self).start == old(self).start
                && final(self).end == old(self).end - 1,
    {
        if self.start == self.end {
            return Err(ShrinkHiError(self.start));
        }
        self.end = self.end - 1;
        Ok(())
    }

    /// Drops the first character of the span; fails on an empty span.
    pub fn shrink_lo(&mut self) -> (r: Result<(), ShrinkLoError>)
        requires
            old(self).start <= old(self).end,
        ensures
            old(self).start == old(self).end ==> r == Err::<(), ShrinkLoError>(
                ShrinkLoError(old(self).end),
            ) && *final(self) == *old(self),
            old(self).start < old(self).end ==> r is Ok && final(self).start == old(self).start + 1
                && final(self).end == old(self).end,
    {
        if self.start == self.end {
            return Err(ShrinkLoError(self.end));
        }
        self.start = self.start + 1;
        Ok(())
    }

    pub open spec fn is_none_spec(&self) -> bool {
        self.start >= NONE_START_FLOOR && self.end == usize::MAX
    }

    /// Spans that start within 255 of the largest offset and end at it point nowhere.
    pub fn is_none(&self) -> (r: bool)
        ensures
            r == self.is_none_spec(),
    {
        self.start >= NONE_START_FLOOR && self.end == usize::MAX
    }
}

/// Anything with a start and an end offset.
pub trait GenericSpan {
    spec fn start_spec(&self) -> int;

    spec fn end_spec(&self) -> int;

    spec fn in_range(&self) -> bool;

    fn start(&self) -> (r: usize)
        ensures
            r == self.start_spec(),
    ;

    fn end(&self) -> (r: usize)
        requires
            self.in_range(),
        ensures
            r == self.end_spec(),
    ;
}

impl GenericSpan for Span {
    open spec fn start_spec(&self) -> int {
        self.start as int
    }

    open spec fn end_spec(&self) -> int {
        self.end as int
    }

    open spec fn in_range(&self) -> bool {
        true
    }

    fn start(&self) -> (r: usize) {
        self.start
    }

    fn end(&self) -> (r: usize) {
        self.end
    }
}

/// A span whose length `SIZE` is fixed by its type; it holds only its start.
#[derive(Debug, Copy, Clone)]
pub struct FixedTokenSpan<const SIZE: usize>(pub usize);

impl<const SIZE: usize> FixedTokenSpan<SIZE> {
    pub fn new(start: usize) -> (r: Self)
        ensures
            r.0 == start,
    {
        FixedTokenSpan(start)
    }

    /// The fixed span that points nowhere.
    pub fn none() -> (r: Self)
        ensures
            r.0 == usize::MAX - 1,
    {
        FixedTokenSpan(usize::MAX - 1)
    }

    pub open spec fn wf(&self) -> bool {
        self.0 + SIZE <= usize::MAX
    }

    pub fn to_unfixed_span(self) -> (r: Span)
        requires
            self.wf(),
        ensures
            r.start == self.0,
            r.end == self.0 + SIZE,
    {
        Span::multi_token(self.start(), self.end())
    }
}

impl<const SIZE: usize> GenericSpan for FixedTokenSpan<SIZE> {
    open spec fn start_spec(&self) -> int {
        self.0 as int
    }

    open spec fn end_spec(&self) -> int {
        self.0 + SIZE
    }

    open spec fn in_range(&self) -> bool {
        self.wf()
    }

    fn start(&self) -> (r: usize) {
        self.0
    }

    fn end(&self) -> (r: usize) {
        self.0 + SIZE
    }
}

/// Shrinking the high end of an empty span starting at the offset held.
#[derive(Debug, Copy, Clone, PartialEq, Eq)]
pub struct ShrinkHiError(pub usize);

/// Shrinking the low end of an empty span ending at the offset held.
#[derive(Debug, Copy, Clone, PartialEq, Eq)]
pub struct ShrinkLoError(pub usize);

} // verus!
