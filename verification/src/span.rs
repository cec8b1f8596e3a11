//! Source locations and the `Positioned` wrapper that ties a value to one.

use vstd::prelude::*;

verus! {

/// A source region: character offsets of its first and last character, and
/// the line and column where it begins.
#[derive(Clone, Copy, PartialEq, Eq, Hash, Debug, Structural)]
pub struct Span {
    pub start: usize,
    pub end: usize,
    pub line: usize,
    pub column: usize,
}

impl Span {
    /// The zero span, used for synthesized nodes that have no source location.
    pub fn identity() -> (r: Self)
        ensures
            r == (Span { start: 0, end: 0, line: 0, column: 0 }),
    {
        Span { start: 0, end: 0, line: 0, column: 0 }
    }

    /// The region that runs from the start of `self` to the end of `to`,
    /// keeping the line and column of `self`.
    pub fn between(&self, to: Self) -> (r: Self)
        ensures
            r == (Span { start: self.start, end: to.end, line: self.line, column: self.column }),
    {
        Span { start: self.start, end: to.end, line: self.line, column: self.column }
    }

    /// Attaches this span to a value.
    pub fn wrap<T>(self, value: T) -> (r: Positioned<T>)
        ensures
            r.span == self,
            r.value == value,
    {
        Positioned { value, span: self }
    }
}

/// A value together with the source region it came from.
#[derive(Clone, PartialEq, Eq, Hash, Debug)]
pub struct Positioned<T> {
    pub value: T,
    pub span: Span,
}

impl<T> Positioned<T> {
    pub fn new(value: T, span: Span) -> (r: Positioned<T>)
        ensures
            r.value == value,
            r.span == span,
    {
        Positioned { value, span }
    }

    /// Wraps a value with the zero span.
    pub fn identity(value: T) -> (r: Positioned<T>)
        ensures
            r.value == value,
            r.span == (Span { start: 0, end: 0, line: 0, column: 0 }),
    {
        Positioned { value, span: Span::identity() }
    }

    /// The region from the start of `self` to the end of `value`.
    pub fn between<U>(&self, value: &Positioned<U>) -> (r: Span)
        ensures
            r == (Span {
                start: self.span.start,
                end: value.span.end,
                line: self.span.line,
                column: self.span.column,
            }),
    {
        self.span.between(value.span)
    }

    /// Attaches this node's span to another value.
    pub fn wrap<U>(&self, value: U) -> (r: Positioned<U>)
        ensures
            r.span == self.span,
            r.value == value,
    {
        self.span.wrap(value)
    }

    /// Applies `f` to the carried value, keeping the span.
    pub fn map<U, F: FnOnce(T) -> U>(self, f: F) -> (r: Positioned<U>)
        requires
            call_requires(f, (self.value,)),
        ensures
            r.span == self.span,
            call_ensures(f, (self.value,), r.value),
    {
        let Positioned { value, span } = self;
        span.wrap(f(value))
    }

    /// Splits the node into its span and its value.
    pub fn unpack(self) -> (r: (Span, T))
        ensures
            r.0 == self.span,
            r.1 == self.value,
    {
        let Positioned { value, span } = self;
        (span, value)
    }
}

} // verus!
