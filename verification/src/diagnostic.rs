//! The error taxonomy of the expander and the checker, and the records
//! handed to the diagnostic sink.  The core never touches an output
//! stream: it returns one of these values and the caller renders it.

use vstd::prelude::*;
use vstd::string::StringExecFns;
use crate::ast::ReportSpan;
use crate::ast::SpecSpan;
use crate::ast::typ::SpecTyp;
use crate::ast::typ::Typ;
use crate::ast::typ::spec_typ_text;

verus! {

/// Mathematical model of a compile error.
#[verifier::ext_equal]
pub ghost enum SpecError {
    /// A `define` whose operand shape matches no accepted pattern.
    BadDefine { span: SpecSpan },
    /// A `(: ...)` claim whose operand shape matches no accepted pattern,
    /// or whose type tail cannot be read as a type.
    BadClaim { span: SpecSpan },
    /// A `require` operand that is not a plain identifier.
    BadRequire { span: SpecSpan },
    /// Any other recognized form with a wrong operand shape.
    BadForm { span: SpecSpan },
    /// An identifier in type position that names no known type.
    UnknownType { span: SpecSpan, name: Seq<char> },
    /// A reference with no visible binding in the rename table.
    UnresolvedIdentifier { span: SpecSpan, name: Seq<char> },
    /// A type-environment lookup that reached the root with no entry.
    NoTypeForIdentifier { span: SpecSpan, name: Seq<char> },
    /// Unification failed; both types keep their spans for the labels.
    TypeMismatch { span: SpecSpan, expected: SpecTyp, actual: SpecTyp },
    /// A function definition whose claimed type is not a function type.
    ExpectedFunctionType { span: SpecSpan, name: Seq<char>, typ: SpecTyp },
    /// A top-level identifier defined twice.
    Redefinition { span: SpecSpan, name: Seq<char> },
    /// A construct that only checking, not inference, can handle.
    CannotInfer { span: SpecSpan },
}

/// A compile error, carrying everything its diagnostic needs.
#[derive(Debug)]
pub enum CompileError {
    BadDefine { span: ReportSpan },
    BadClaim { span: ReportSpan },
    BadRequire { span: ReportSpan },
    BadForm { span: ReportSpan },
    UnknownType { span: ReportSpan, name: String },
    UnresolvedIdentifier { span: ReportSpan, name: String },
    NoTypeForIdentifier { span: ReportSpan, name: String },
    TypeMismatch { span: ReportSpan, expected: Typ, actual: Typ },
    ExpectedFunctionType { span: ReportSpan, name: String, typ: Typ },
    Redefinition { span: ReportSpan, name: String },
    CannotInfer { span: ReportSpan },
}

impl View for CompileError {
    type V = SpecError;

    open spec fn view(&self) -> SpecError {
        match self {
            CompileError::BadDefine { span } => SpecError::BadDefine { span: span@ },
            CompileError::BadClaim { span } => SpecError::BadClaim { span: span@ },
            CompileError::BadRequire { span } => SpecError::BadRequire { span: span@ },
            CompileError::BadForm { span } => SpecError::BadForm { span: span@ },
            CompileError::UnknownType { span, name } => SpecError::UnknownType {
                span: span@,
                name: name@,
            },
            CompileError::UnresolvedIdentifier { span, name } => SpecError::UnresolvedIdentifier {
                span: span@,
                name: name@,
            },
            CompileError::NoTypeForIdentifier { span, name } => SpecError::NoTypeForIdentifier {
                span: span@,
                name: name@,
            },
            CompileError::TypeMismatch { span, expected, actual } => SpecError::TypeMismatch {
                span: span@,
                expected: expected@,
                actual: actual@,
            },
            CompileError::ExpectedFunctionType { span, name, typ } => {
                SpecError::ExpectedFunctionType { span: span@, name: name@, typ: typ@ }
            },
            CompileError::Redefinition { span, name } => SpecError::Redefinition {
                span: span@,
                name: name@,
            },
            CompileError::CannotInfer { span } => SpecError::CannotInfer { span: span@ },
        }
    }
}

/// Mathematical model of one record for the diagnostic sink.
#[verifier::ext_equal]
pub ghost struct SpecDiagnostic {
    pub code: nat,
    pub message: Seq<char>,
    pub span: SpecSpan,
    pub labels: Seq<(SpecSpan, Seq<char>)>,
    pub notes: Seq<Seq<char>>,
}

/// One record for the diagnostic sink: severity is always an error, so
/// only the code, message, primary span, labeled secondary spans and
/// notes remain.
#[derive(Debug)]
pub struct Diagnostic {
    pub code: u32,
    pub message: String,
    pub span: ReportSpan,
    pub labels: Vec<(ReportSpan, String)>,
    pub notes: Vec<String>,
}

impl View for Diagnostic {
    type V = SpecDiagnostic;

    open spec fn view(&self) -> SpecDiagnostic {
        SpecDiagnostic {
            code: self.code as nat,
            message: self.message@,
            span: self.span@,
            labels: self.labels@.map_values(|l: (ReportSpan, String)| (l.0@, l.1@)),
            notes: self.notes@.map_values(|n: String| n@),
        }
    }
}

/// The exact diagnostic that each error renders to.
pub open spec fn spec_diag_of(e: SpecError) -> SpecDiagnostic {
    match e {
        SpecError::BadDefine { span } => SpecDiagnostic {
            code: 3,
            message: "bad define"@,
            span: span,
            labels: seq![(span, Seq::<char>::empty())],
            notes: Seq::empty(),
        },
        SpecError::BadClaim { span } => SpecDiagnostic {
            code: 3,
            message: "bad claim"@,
            span: span,
            labels: Seq::empty(),
            notes: Seq::empty(),
        },
        SpecError::BadRequire { span } => SpecDiagnostic {
            code: 3,
            message: "bad require"@,
            span: span,
            labels: seq![(span, "Not an identifier"@)],
            notes: Seq::empty(),
        },
        SpecError::BadForm { span } => SpecDiagnostic {
            code: 3,
            message: "bad form"@,
            span: span,
            labels: Seq::empty(),
            notes: seq!["match form must ..."@],
        },
        SpecError::UnknownType { span, name } => SpecDiagnostic {
            code: 3,
            message: "unknown type `"@ + name + "`"@,
            span: span,
            labels: Seq::empty(),
            notes: Seq::empty(),
        },
        SpecError::UnresolvedIdentifier { span, name } => SpecDiagnostic {
            code: 3,
            message: "failed to find any proper name `"@ + name + "`"@,
            span: span,
            labels: Seq::empty(),
            notes: Seq::empty(),
        },
        SpecError::NoTypeForIdentifier { span, name } => SpecDiagnostic {
            code: 3,
            message: "`"@ + name + "` has no type"@,
            span: span,
            labels: Seq::empty(),
            notes: Seq::empty(),
        },
        SpecError::TypeMismatch { span, expected, actual } => SpecDiagnostic {
            code: 3,
            message: "type mismatch"@,
            span: span,
            labels: seq![
                (expected.span, "expected type"@),
                (actual.span, "actual type"@),
            ],
            notes: seq![
                "expected `"@ + spec_typ_text(expected) + "`, found `"@ + spec_typ_text(actual)
                    + "`"@,
            ],
        },
        SpecError::ExpectedFunctionType { span, name, typ } => SpecDiagnostic {
            code: 3,
            message: "expected `"@ + name + "` has a function type, but got: `"@ + spec_typ_text(
                typ,
            ) + "`"@,
            span: span,
            labels: Seq::empty(),
            notes: Seq::empty(),
        },
        SpecError::Redefinition { span, name } => SpecDiagnostic {
            code: 1,
            message: "`"@ + name + "` is redefined"@,
            span: span,
            labels: Seq::empty(),
            notes: Seq::empty(),
        },
        SpecError::CannotInfer { span } => SpecDiagnostic {
            code: 3,
            message: "cannot infer the type of this form"@,
            span: span,
            labels: Seq::empty(),
            notes: Seq::empty(),
        },
    }
}

impl CompileError {
    /// The span the error points at.
    pub fn span(&self) -> (r: &ReportSpan)
        ensures
            r@ == spec_diag_of(self@).span,
    {
        match self {
            CompileError::BadDefine { span } => span,
            CompileError::BadClaim { span } => span,
            CompileError::BadRequire { span } => span,
            CompileError::BadForm { span } => span,
            CompileError::UnknownType { span, .. } => span,
            CompileError::UnresolvedIdentifier { span, .. } => span,
            CompileError::NoTypeForIdentifier { span, .. } => span,
            CompileError::TypeMismatch { span, .. } => span,
            CompileError::ExpectedFunctionType { span, .. } => span,
            CompileError::Redefinition { span, .. } => span,
            CompileError::CannotInfer { span } => span,
        }
    }

    /// Renders the error into the record the diagnostic sink accepts.
    pub fn to_diagnostic(&self) -> (r: Diagnostic)
        ensures
            r@ == spec_diag_of(self@),
    {
        match self {
            CompileError::BadDefine { span } => {
                let mut labels: Vec<(ReportSpan, String)> = Vec::new();
                labels.push((span.duplicate(), String::new()));
                let r = Diagnostic {
                    code: 3,
                    message: "bad define".to_owned(),
                    span: span.duplicate(),
                    labels,
                    notes: Vec::new(),
                };
                proof {
                    assert(r@.labels =~= spec_diag_of(self@).labels);
                    assert(r@.notes =~= spec_diag_of(self@).notes);
                }
                r
            },
            CompileError::BadClaim { span } => {
                let r = Diagnostic {
                    code: 3,
                    message: "bad claim".to_owned(),
                    span: span.duplicate(),
                    labels: Vec::new(),
                    notes: Vec::new(),
                };
                proof {
                    assert(r@.labels =~= spec_diag_of(self@).labels);
                    assert(r@.notes =~= spec_diag_of(self@).notes);
                }
                r
            },
            CompileError::BadRequire { span } => {
                let mut labels: Vec<(ReportSpan, String)> = Vec::new();
                labels.push((span.duplicate(), "Not an identifier".to_owned()));
                let r = Diagnostic {
                    code: 3,
                    message: "bad require".to_owned(),
                    span: span.duplicate(),
                    labels,
                    notes: Vec::new(),
                };
                proof {
                    assert(r@.labels =~= spec_diag_of(self@).labels);
                    assert(r@.notes =~= spec_diag_of(self@).notes);
                }
                r
            },
            CompileError::BadForm { span } => {
                let mut notes: Vec<String> = Vec::new();
                notes.push("match form must ...".to_owned());
                let r = Diagnostic {
                    code: 3,
                    message: "bad form".to_owned(),
                    span: span.duplicate(),
                    labels: Vec::new(),
                    notes,
                };
                proof {
                    assert(r@.labels =~= spec_diag_of(self@).labels);
                    assert(r@.notes =~= spec_diag_of(self@).notes);
                }
                r
            },
            CompileError::UnknownType { span, name } => {
                let mut message = "unknown type `".to_owned();
                message.append(name.as_str());
                message.append("`");
                let r = Diagnostic {
                    code: 3,
                    message,
                    span: span.duplicate(),
                    labels: Vec::new(),
                    notes: Vec::new(),
                };
                proof {
                    assert(r@.labels =~= spec_diag_of(self@).labels);
                    assert(r@.notes =~= spec_diag_of(self@).notes);
                }
                r
            },
            CompileError::UnresolvedIdentifier { span, name } => {
                let mut message = "failed to find any proper name `".to_owned();
                message.append(name.as_str());
                message.append("`");
                let r = Diagnostic {
                    code: 3,
                    message,
                    span: span.duplicate(),
                    labels: Vec::new(),
                    notes: Vec::new(),
                };
                proof {
                    assert(r@.labels =~= spec_diag_of(self@).labels);
                    assert(r@.notes =~= spec_diag_of(self@).notes);
                }
                r
            },
            CompileError::NoTypeForIdentifier { span, name } => {
                let mut message = "`".to_owned();
                message.append(name.as_str());
                message.append("` has no type");
                let r = Diagnostic {
                    code: 3,
                    message,
                    span: span.duplicate(),
                    labels: Vec::new(),
                    notes: Vec::new(),
                };
                proof {
                    assert(r@.labels =~= spec_diag_of(self@).labels);
                    assert(r@.notes =~= spec_diag_of(self@).notes);
                }
                r
            },
            CompileError::TypeMismatch { span, expected, actual } => {
                let mut labels: Vec<(ReportSpan, String)> = Vec::new();
                labels.push((expected.span.duplicate(), "expected type".to_owned()));
                labels.push((actual.span.duplicate(), "actual type".to_owned()));
                let mut note = "expected `".to_owned();
                let te = expected.to_text();
                note.append(te.as_str());
                note.append("`, found `");
                let ta = actual.to_text();
                note.append(ta.as_str());
                note.append("`");
                let mut notes: Vec<String> = Vec::new();
                notes.push(note);
                let r = Diagnostic {
                    code: 3,
                    message: "type mismatch".to_owned(),
                    span: span.duplicate(),
                    labels,
                    notes,
                };
                proof {
                    assert(r@.labels =~= spec_diag_of(self@).labels);
                    assert(r@.notes =~= spec_diag_of(self@).notes);
                }
                r
            },
            CompileError::ExpectedFunctionType { span, name, typ } => {
                let mut message = "expected `".to_owned();
                message.append(name.as_str());
                message.append("` has a function type, but got: `");
                let tt = typ.to_text();
                message.append(tt.as_str());
                message.append("`");
                let r = Diagnostic {
                    code: 3,
                    message,
                    span: span.duplicate(),
                    labels: Vec::new(),
                    notes: Vec::new(),
                };
                proof {
                    assert(r@.labels =~= spec_diag_of(self@).labels);
                    assert(r@.notes =~= spec_diag_of(self@).notes);
                }
                r
            },
            CompileError::Redefinition { span, name } => {
                let mut message = "`".to_owned();
                message.append(name.as_str());
                message.append("` is redefined");
                let r = Diagnostic {
                    code: 1,
                    message,
                    span: span.duplicate(),
                    labels: Vec::new(),
                    notes: Vec::new(),
                };
                proof {
                    assert(r@.labels =~= spec_diag_of(self@).labels);
                    assert(r@.notes =~= spec_diag_of(self@).notes);
                }
                r
            },
            CompileError::CannotInfer { span } => {
                let r = Diagnostic {
                    code: 3,
                    message: "cannot infer the type of this form".to_owned(),
                    span: span.duplicate(),
                    labels: Vec::new(),
                    notes: Vec::new(),
                };
                proof {
                    assert(r@.labels =~= spec_diag_of(self@).labels);
                    assert(r@.notes =~= spec_diag_of(self@).notes);
                }
                r
            },
        }
    }
}

} // verus!
