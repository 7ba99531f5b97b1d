//! Source spans: an owned region of the original source text, stored as a
//! pair of character offsets together with the text the region denotes.
//!
//! Two spans are equal only if they agree on position and on text, so two
//! occurrences of the same token elsewhere in the source are not equal.

use vstd::prelude::*;

verus! {

/// Mathematical model of a [`Span`]: offsets as unbounded integers and the
/// denoted text as a sequence of characters.
#[verifier::ext_equal]
pub struct SpanView {
    pub start: int,
    pub end: int,
    pub text: Seq<char>,
}

/// An immutable reference to a contiguous region of the original source
/// text: the half-open character-offset range `[start, end)` plus the text
/// it denotes, held by value.
#[derive(Debug, PartialEq, Eq)]
pub struct Span {
    start: usize,
    end: usize,
    text: String,
}

impl View for Span {
    type V = SpanView;

    closed spec fn view(&self) -> SpanView {
        SpanView { start: self.start as int, end: self.end as int, text: self.text@ }
    }
}

impl Span {
    /// Builds the span for the range `[start, end)` denoting `text`.
    pub fn new(start: usize, end: usize, text: String) -> (s: Span)
        ensures
            s@ == (SpanView { start: start as int, end: end as int, text: text@ }),
    {
        Span { start, end, text }
    }

    /// The character offset at which the region begins.
    pub fn start(&self) -> (r: usize)
        ensures
            r as int == self@.start,
    {
        self.start
    }

    /// The character offset one past the end of the region.
    pub fn end(&self) -> (r: usize)
        ensures
            r as int == self@.end,
    {
        self.end
    }

    /// The text the region denotes.
    pub fn as_str(&self) -> (r: &str)
        ensures
            r@ == self@.text,
    {
        self.text.as_str()
    }

    /// Whether the denoted text reads exactly `s`.
    pub fn text_is(&self, s: &str) -> (r: bool)
        ensures
            r == (self@.text == s@),
    {
        let other = s.to_owned();
        self.text == other
    }

    /// An owned copy of this span.
    pub fn duplicate(&self) -> (r: Span)
        ensures
            r@ == self@,
    {
        Span { start: self.start, end: self.end, text: self.text.clone() }
    }
}

/// The owned text of the characters `[start, end)` of `src`.
pub fn string_from_range(src: &Vec<char>, start: usize, end: usize) -> (r: String)
    requires
        start <= end <= src@.len(),
    ensures
        r@ == src@.subrange(start as int, end as int),
{
    let mut out = String::new();
    let mut i: usize = start;
    while i < end
        invariant
            start <= i <= end,
            end <= src@.len(),
            out@ =~= src@.subrange(start as int, i as int),
        decreases end - i,
    {
        out.push(src[i]);
        i = i + 1;
        proof {
            assert(out@ =~= src@.subrange(start as int, i as int));
        }
    }
    out
}

impl Clone for Span {
    /// A clone is equal to the original, position and text included.
    fn clone(&self) -> (r: Span)
        ensures
            r@ == self@,
    {
        self.duplicate()
    }
}

} // verus!
