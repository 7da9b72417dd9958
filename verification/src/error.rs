//! Diagnostics: what the passes report, and the flag that tells later passes
//! that the context cannot be trusted.

use crate::ast::types::{Ident, Range};
use vstd::prelude::*;

verus! {

#[derive(Clone, Copy, Debug, PartialEq, Eq, Structural)]
pub enum Severity {
    Error,
    Warning,
}

/// What a diagnostic says.
#[derive(Clone, Copy, Debug, PartialEq, Eq, Structural)]
pub enum ErrorKind {
    /// A name is used that no local or global declares.
    UndeclaredVariable,
    UnknownFunction,
    UnknownStruct,
    UnknownEnum,
    UnknownTrait,
    UnknownField,
    UnknownVariant,
    DuplicateFunction,
    DuplicateStruct,
    DuplicateEnum,
    DuplicateTrait,
    DuplicateImpl,
    DuplicateParam,
    DuplicateVariable,
    DuplicateGlobal,
    /// A let-binding has the name of a global.
    ShadowsGlobal,
    /// A function's span meets the span of another function.
    SpanClash,
    /// The two sides of an assignment differ in type.
    TypeMismatch,
    /// An argument differs in type from its parameter.
    ArgumentMismatch,
    /// A returned value differs in type from the function's result.
    ReturnMismatch,
    WrongArity,
    InvalidLValue,
    /// A statement that binds a variable stands outside any function.
    OutsideFunction,
    InvalidFieldAccess,
    InvalidMatchType,
    /// A pattern does not fit the type it is matched against.
    PatternMismatch,
    NonTruthyCondition,
    DerefNonPointer,
    IndexNonArray,
    IndexNonInt,
    /// An operator does not apply to its operands.
    InvalidOperands,
    /// No type could be found for an expression.
    NoTypeInferred,
    /// `exit` in a function that returns a value.
    ExitWithValue,
    /// A function that returns a value has no return statement.
    MissingReturn,
    /// A signature uses a type parameter that is not declared.
    UndeclaredGeneric,
    /// A declared type holds a nominal reference that was not resolved.
    UnresolvedPath,
    /// A type parameter that no argument determines.
    UnusedGeneric,
    /// A trait has no implementation for the type arguments of a call.
    NotImplemented,
    /// The ids for uses of generic items are used up.
    TooManyInstances,
    /// A variable that is never read.
    UnusedVariable,
}

/// What a diagnostic says of a type: its constructor, with the name of a
/// struct, an enum, a type parameter or a signature, and the size of an
/// array.
#[derive(Clone, Copy, Debug, PartialEq, Eq, Structural)]
pub enum TyTag {
    Generic(Ident),
    Array(usize),
    Struct(Ident),
    Enum(Ident),
    Ptr,
    Ref,
    String,
    Int,
    Char,
    Float,
    Bool,
    Void,
    Func(Ident),
    Path,
}

/// A diagnostic: where, how grave, what, the name it is about if it is
/// about one, and for a mismatch of types the type that was found and the
/// type that was asked for, where they are known.
#[derive(Clone, Copy, Debug, PartialEq, Eq, Structural)]
pub struct Error {
    pub span: Range,
    pub severity: Severity,
    pub kind: ErrorKind,
    pub ident: Option<Ident>,
    pub found: Option<TyTag>,
    pub expected: Option<TyTag>,
}

impl Error {
    /// An error at `span`, about no name.
    pub fn error_with_span(span: Range, kind: ErrorKind) -> (r: Error)
        ensures
            r == (Error { span, severity: Severity::Error, kind, ident: None, found: None, expected: None }),
    {
        Error { span, severity: Severity::Error, kind, ident: None, found: None, expected: None }
    }

    /// An error at `span`, about the name `ident`.
    pub fn error_with_ident(span: Range, kind: ErrorKind, ident: Ident) -> (r: Error)
        ensures
            r == (Error {
            span,
            severity: Severity::Error,
            kind,
            ident: Some(ident),
            found: None,
            expected: None,
        }),
    {
        Error {
            span,
            severity: Severity::Error,
            kind,
            ident: Some(ident),
            found: None,
            expected: None,
        }
    }

    /// An error at `span` that says which type was found and which was
    /// asked for.
    pub fn mismatch(span: Range, kind: ErrorKind, found: Option<TyTag>, expected: Option<TyTag>) -> (r:
        Error)
        ensures
            r == (Error { span, severity: Severity::Error, kind, ident: None, found, expected }),
    {
        Error { span, severity: Severity::Error, kind, ident: None, found, expected }
    }

    /// A warning at `span`, about the name `ident`.
    pub fn warning(span: Range, kind: ErrorKind, ident: Ident) -> (r: Error)
        ensures
            r == (Error {
            span,
            severity: Severity::Warning,
            kind,
            ident: Some(ident),
            found: None,
            expected: None,
        }),
    {
        Error {
            span,
            severity: Severity::Warning,
            kind,
            ident: Some(ident),
            found: None,
            expected: None,
        }
    }
}

/// The diagnostics collected so far, in the order they were found.
pub struct ErrorReport {
    pub errors: Vec<Error>,
    pub poisoned: bool,
}

impl ErrorReport {
    /// A report without diagnostics.
    pub fn new() -> (r: Self)
        ensures
            r.errors@.len() == 0,
            !r.poisoned,
    {
        ErrorReport { errors: Vec::new(), poisoned: false }
    }

    /// `true` when `self` holds the diagnostics of `before` and maybe more,
    /// and is poisoned if `before` is.
    pub open spec fn extends(self, before: ErrorReport) -> bool {
        &&& before.errors@.len() <= self.errors@.len()
        &&& self.errors@.subrange(0, before.errors@.len() as int) == before.errors@
        &&& before.poisoned ==> self.poisoned
    }

    /// Adds a diagnostic; the poison flag stays as it is.
    pub fn push_error(&mut self, e: Error)
        ensures
            final(self).errors@ == old(self).errors@.push(e),
            final(self).poisoned == old(self).poisoned,
            final(self).extends(*old(self)),
    {
        self.errors.push(e);
        assert(self.errors@.subrange(0, old(self).errors@.len() as int) =~= old(self).errors@);
    }

    /// Adds a fatal diagnostic: later passes skip what depends on the
    /// context.
    pub fn fatal(&mut self, e: Error)
        ensures
            final(self).errors@ == old(self).errors@.push(e),
            final(self).poisoned,
            final(self).extends(*old(self)),
    {
        self.errors.push(e);
        self.poisoned = true;
        assert(self.errors@.subrange(0, old(self).errors@.len() as int) =~= old(self).errors@);
    }

    /// Sets the flag that marks the context as not to be trusted.
    pub fn poisoned(&mut self, p: bool)
        ensures
            final(self).errors == old(self).errors,
            final(self).poisoned == p,
    {
        self.poisoned = p;
    }

    /// `true` when a fatal diagnostic was found.
    pub fn is_poisoned(&self) -> (r: bool)
        ensures
            r == self.poisoned,
    {
        self.poisoned
    }

    /// `true` when a diagnostic of severity `Error` was found.
    pub open spec fn spec_has_errors(self) -> bool {
        exists|i: int| 0 <= i < self.errors@.len() && (#[trigger] self.errors@[i]).severity
            == Severity::Error
    }

    /// `true` when a diagnostic of severity `Error` was found.
    pub fn has_errors(&self) -> (r: bool)
        ensures
            r == self.spec_has_errors(),
    {
        let mut i: usize = 0;
        while i < self.errors.len()
            invariant
                i <= self.errors.len(),
                forall|j: int| 0 <= j < i ==> (#[trigger] self.errors@[j]).severity
                    != Severity::Error,
            decreases self.errors.len() - i,
        {
            if self.errors[i].severity == Severity::Error {
                return true;
            }
            i += 1;
        }
        false
    }
}

/// A report extends itself.
pub proof fn lemma_extends_refl(a: ErrorReport)
    ensures
        a.extends(a),
{
    assert(a.errors@.subrange(0, a.errors@.len() as int) =~= a.errors@);
}

/// What extends an extension of a report extends the report.
pub proof fn lemma_extends_trans(a: ErrorReport, b: ErrorReport, c: ErrorReport)
    requires
        b.extends(a),
        c.extends(b),
    ensures
        c.extends(a),
{
    assert(c.errors@.subrange(0, a.errors@.len() as int) =~= b.errors@.subrange(
        0,
        a.errors@.len() as int,
    ));
}

} // verus!
