//! Diagnostics and the reporter they are collected in.
//!
//! Every component of the analyzer writes to one shared [`Reporter`]. The
//! reporter never aborts: it only records, in source order, and the driver
//! decides at the end whether compilation failed (any error-severity entry).

use vstd::prelude::*;

verus! {

/// What a diagnostic reports. Constant-evaluation failures are split into
/// their own kinds so that, for example, a zero divisor and an out-of-range
/// result stay distinguishable to the user.
#[derive(Clone, Copy, PartialEq, Eq, Structural, Debug)]
pub enum DiagKind {
    /// Undeclared name, or duplicate declaration within one scope.
    NameError,
    /// Two types that should agree do not.
    TypeMismatch,
    /// An ambiguous block type never reached a concrete type or unit.
    AmbiguousTypeUnresolved,
    /// A constant division or remainder with a zero divisor.
    DivisionByZero,
    /// A constant operation whose result does not fit its integer width.
    Overflow,
    /// A constant context over an expression that is not constant.
    NonConstantExpression,
    /// An array-size expression that is not a non-negative integer constant.
    NegativeArraySize,
    /// Use or borrow of a moved value.
    MoveError,
    /// Overlapping shared/exclusive borrows.
    BorrowConflict,
    /// A write to an immutable binding or through an immutable path.
    MutabilityError,
    /// A misplaced terminal call or a return-type mismatch.
    StructuralError,
}

#[derive(Clone, Copy, PartialEq, Eq, Structural, Debug)]
pub enum Severity {
    Warning,
    Error,
}

/// A half-open byte range into the source text, supplied by the parser.
#[derive(Clone, Copy, PartialEq, Eq, Structural, Debug)]
pub struct Span {
    pub lo: u32,
    pub hi: u32,
}

impl Span {
    pub fn at(lo: u32, hi: u32) -> (s: Span)
        ensures
            s.lo == lo,
            s.hi == hi,
    {
        Span { lo, hi }
    }
}

#[derive(Clone, Copy, PartialEq, Eq, Structural, Debug)]
pub struct Diagnostic {
    pub kind: DiagKind,
    pub severity: Severity,
    pub span: Span,
}

impl Diagnostic {
    pub open spec fn is_error(self) -> bool {
        self.severity is Error
    }
}

/// Whether some entry of `s` has error severity.
pub open spec fn has_error(s: Seq<Diagnostic>) -> bool {
    exists|i: int| 0 <= i < s.len() && s[i].is_error()
}

/// The shared sink all components report through. It never throws away or
/// reorders an entry: its view is the sequence of diagnostics so far, and
/// every reporting operation appends.
pub struct Reporter {
    diags: Vec<Diagnostic>,
}

impl View for Reporter {
    type V = Seq<Diagnostic>;

    closed spec fn view(&self) -> Seq<Diagnostic> {
        self.diags@
    }
}

impl Reporter {
    pub fn new() -> (r: Reporter)
        ensures
            r@ == Seq::<Diagnostic>::empty(),
    {
        Reporter { diags: Vec::new() }
    }

    /// Records a diagnostic; the only way the collection grows.
    pub fn report(&mut self, d: Diagnostic)
        ensures
            final(self)@ == old(self)@.push(d),
    {
        self.diags.push(d);
    }

    /// Records an error-severity diagnostic of kind `kind` at `span`.
    pub fn error(&mut self, kind: DiagKind, span: Span)
        ensures
            final(self)@ == old(self)@.push(
                Diagnostic { kind, severity: Severity::Error, span },
            ),
    {
        self.report(Diagnostic { kind, severity: Severity::Error, span });
    }

    pub fn len(&self) -> (n: usize)
        ensures
            n == self@.len(),
    {
        self.diags.len()
    }

    pub fn get(&self, i: usize) -> (d: Diagnostic)
        requires
            i < self@.len(),
        ensures
            d == self@[i as int],
    {
        self.diags[i]
    }

    /// Whether compilation must fail: any collected entry has error severity.
    pub fn failed(&self) -> (r: bool)
        ensures
            r == has_error(self@),
    {
        let mut i: usize = 0;
        while i < self.diags.len()
            invariant
                i <= self.diags.len(),
                self.diags@ == self@,
                forall|j: int| 0 <= j < i ==> !self@[j].is_error(),
            decreases self.diags.len() - i,
        {
            if self.diags[i].severity == Severity::Error {
                return true;
            }
            i = i + 1;
        }
        false
    }

    /// Hands the collected diagnostics over, in the order they were reported.
    pub fn into_diagnostics(self) -> (r: Vec<Diagnostic>)
        ensures
            r@ == self@,
    {
        self.diags
    }
}

} // verus!
