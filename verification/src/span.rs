//! Source locations.

use crate::text::{decimal, push_decimal};
use vstd::math::{max, min};
use vstd::prelude::*;

verus! {

/// A range of character offsets within one named source.
///
/// Both ends are offsets of characters; a span with `start == end` points at
/// a single location.
#[derive(Debug)]
pub struct Span {
    pub start: usize,
    pub end: usize,
    pub filename: String,
}

/// The mathematical content of a [`Span`].
pub struct SpanView {
    pub start: nat,
    pub end: nat,
    pub source: Seq<char>,
}

impl View for Span {
    type V = SpanView;

    open spec fn view(&self) -> SpanView {
        SpanView { start: self.start as nat, end: self.end as nat, source: self.filename@ }
    }
}

/// How a span is written: the name of the source, the start and the end,
/// with colons between them.
pub open spec fn location_text(span: SpanView) -> Seq<char> {
    span.source + ":"@ + decimal(span.start) + ":"@ + decimal(span.end)
}

impl Clone for Span {
    fn clone(&self) -> (copy: Self)
        ensures
            copy == *self,
    {
        Span { start: self.start, end: self.end, filename: self.filename.clone() }
    }
}

impl Span {
    /// The span from `start` to `end` in the source called `filename`.
    pub fn new(start: usize, end: usize, filename: String) -> (span: Self)
        ensures
            span == (Span { start, end, filename }),
    {
        Span { start, end, filename }
    }

    /// The span that covers the single location `index`.
    pub fn location(index: usize, filename: String) -> (span: Self)
        ensures
            span == (Span { start: index, end: index, filename }),
    {
        Self::new(index, index, filename)
    }

    /// The span that encloses `self` and `other`: it begins where the earlier
    /// of the two begins and ends where the later of the two ends, in the
    /// source of `self`. Two spans that do not end before they start give one
    /// that does not either.
    pub fn extend(self, other: Span) -> (span: Self)
        ensures
            span.start == min(self.start as int, other.start as int),
            span.end == max(self.end as int, other.end as int),
            span.filename == self.filename,
            span.start <= self.start && span.start <= other.start,
            span.end >= self.end && span.end >= other.end,
            self.start <= self.end || other.start <= other.end ==> span.start <= span.end,
    {
        let start = if other.start < self.start {
            other.start
        } else {
            self.start
        };
        let end = if other.end > self.end {
            other.end
        } else {
            self.end
        };
        Span { start, end, filename: self.filename }
    }

    /// The span as text: the name of its source, its start and its end, with
    /// colons between them.
    pub fn to_string(&self) -> (text: String)
        ensures
            text@ == location_text(self@),
    {
        let mut text = self.filename.clone();
        text.append(":");
        push_decimal(&mut text, self.start);
        text.append(":");
        push_decimal(&mut text, self.end);
        text
    }
}

} // verus!
