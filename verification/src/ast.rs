//! Shared abstract-syntax items: source spans and, further down the file,
//! the module aggregate that expansion fills in.

use vstd::prelude::*;

pub mod expr;
pub mod typ;

use crate::ast::expr::Identifier;
use crate::ast::expr::SpecExpr;
use crate::ast::expr::SpecIdent;
use crate::ast::expr::Expr;
use crate::ast::expr::expr_view;
use crate::ast::expr::idents_view;
use crate::ast::typ::SpecTyp;
use crate::ast::typ::Typ;
use crate::ast::typ::typ_view;
use crate::notation::Notation;
use crate::notation::SpecNotation;
use crate::notation::notation_view;

verus! {

/// Mathematical model of a source span: the file it points into and the
/// byte offsets that delimit it.
#[verifier::ext_equal]
pub ghost struct SpecSpan {
    pub source: Seq<char>,
    pub start_offset: nat,
    pub end_offset: nat,
}

/// A span of the original source text, attached to every node the
/// expander produces so that diagnostics can point at real code.
#[derive(Debug, Clone, PartialEq)]
pub struct ReportSpan {
    pub source: String,
    pub start_offset: usize,
    pub end_offset: usize,
}

impl View for ReportSpan {
    type V = SpecSpan;

    open spec fn view(&self) -> SpecSpan {
        SpecSpan {
            source: self.source@,
            start_offset: self.start_offset as nat,
            end_offset: self.end_offset as nat,
        }
    }
}

impl ReportSpan {
    /// Builds a span over the file named `source`, from byte offset
    /// `start_offset` (inclusive) to `end_offset` (exclusive).
    pub fn new(source: String, start_offset: usize, end_offset: usize) -> (r: ReportSpan)
        ensures
            r@ == (SpecSpan { source: source@, start_offset: start_offset as nat, end_offset: end_offset as nat }),
    {
        ReportSpan { source, start_offset, end_offset }
    }

    /// The file this span points into.
    pub fn source(&self) -> (r: &String)
        ensures
            r@ == self@.source,
    {
        &self.source
    }

    /// The inclusive start offset.
    pub fn start(&self) -> (r: usize)
        ensures
            r as nat == self@.start_offset,
    {
        self.start_offset
    }

    /// The exclusive end offset.
    pub fn end(&self) -> (r: usize)
        ensures
            r as nat == self@.end_offset,
    {
        self.end_offset
    }

    /// A deep copy whose model is the same span.
    pub fn duplicate(&self) -> (r: ReportSpan)
        ensures
            r@ == self@,
    {
        ReportSpan {
            source: self.source.clone(),
            start_offset: self.start_offset,
            end_offset: self.end_offset,
        }
    }
}

/// Mathematical model of a `require` entry.
#[verifier::ext_equal]
pub ghost struct SpecRequire {
    pub module: Seq<char>,
}

/// Mathematical model of a type-claim form.
#[verifier::ext_equal]
pub ghost struct SpecClaim {
    pub id: SpecIdent,
    pub typ: SpecTyp,
}

/// Mathematical model of a define form.
#[verifier::ext_equal]
pub ghost enum SpecDefine {
    Constant { span: SpecSpan, id: SpecIdent, expr: SpecExpr },
    Function { span: SpecSpan, id: SpecIdent, params: Seq<SpecIdent>, body: SpecExpr },
}

/// Mathematical model of a module under construction.
#[verifier::ext_equal]
pub ghost struct SpecModule {
    pub source: (Seq<char>, Seq<char>),
    pub requires: Seq<SpecRequire>,
    pub claim_forms: Seq<SpecClaim>,
    pub define_forms: Seq<SpecDefine>,
    pub other_forms: Seq<SpecNotation>,
}

/// One `(require mod)` entry: the name of a required module.
#[derive(Debug, Clone, PartialEq)]
pub struct Require {
    pub module: String,
}

/// A standalone ascription `(: name : type)`, claiming that `name` has
/// the given type.
#[derive(Debug)]
pub struct ClaimForm {
    pub id: Identifier,
    pub typ: Typ,
}

/// A top-level definition.  `(define x : <type> <expr>)` is understood
/// as the claim `(: x : <type>)` followed by `(define x <expr>)`.
#[derive(Debug)]
pub enum DefineForm {
    /// `(define x <expr>)`
    DefineConstant { span: ReportSpan, id: Identifier, expr: Expr },
    /// `(define (f x y ...) <body_1> ... <body_k>)`
    DefineFunction { span: ReportSpan, id: Identifier, params: Vec<Identifier>, body: Expr },
}

/// The top-level aggregate that one pass of the expander fills in and
/// the type checker then consumes.  `source` pairs the file name with
/// its text, for the diagnostic renderer.
#[derive(Debug)]
pub struct Module {
    pub source: (String, String),
    pub requires: Vec<Require>,
    pub claim_forms: Vec<ClaimForm>,
    pub define_forms: Vec<DefineForm>,
    pub other_forms: Vec<Notation>,
}

impl View for Require {
    type V = SpecRequire;

    open spec fn view(&self) -> SpecRequire {
        SpecRequire { module: self.module@ }
    }
}

impl View for ClaimForm {
    type V = SpecClaim;

    open spec fn view(&self) -> SpecClaim {
        SpecClaim { id: self.id@, typ: self.typ@ }
    }
}

pub open spec fn define_view(d: DefineForm) -> SpecDefine {
    match d {
        DefineForm::DefineConstant { span, id, expr } => SpecDefine::Constant {
            span: span@,
            id: id@,
            expr: expr_view(expr),
        },
        DefineForm::DefineFunction { span, id, params, body } => SpecDefine::Function {
            span: span@,
            id: id@,
            params: idents_view(params@),
            body: expr_view(body),
        },
    }
}

impl View for DefineForm {
    type V = SpecDefine;

    open spec fn view(&self) -> SpecDefine {
        define_view(*self)
    }
}

impl View for Module {
    type V = SpecModule;

    open spec fn view(&self) -> SpecModule {
        SpecModule {
            source: (self.source.0@, self.source.1@),
            requires: self.requires@.map_values(|r: Require| r@),
            claim_forms: self.claim_forms@.map_values(|c: ClaimForm| c@),
            define_forms: self.define_forms@.map_values(|d: DefineForm| d@),
            other_forms: self.other_forms@.map_values(|n: Notation| n@),
        }
    }
}

impl Module {
    /// A fresh module over the named source with nothing recorded yet.
    pub fn new(source: (String, String)) -> (r: Module)
        ensures
            r@.source == (source.0@, source.1@),
            r@.requires == Seq::<SpecRequire>::empty(),
            r@.claim_forms == Seq::<SpecClaim>::empty(),
            r@.define_forms == Seq::<SpecDefine>::empty(),
            r@.other_forms == Seq::<SpecNotation>::empty(),
    {
        let r = Module {
            source,
            requires: Vec::new(),
            claim_forms: Vec::new(),
            define_forms: Vec::new(),
            other_forms: Vec::new(),
        };
        proof {
            assert(r@.requires =~= Seq::<SpecRequire>::empty());
            assert(r@.claim_forms =~= Seq::<SpecClaim>::empty());
            assert(r@.define_forms =~= Seq::<SpecDefine>::empty());
            assert(r@.other_forms =~= Seq::<SpecNotation>::empty());
        }
        r
    }
}

} // verus!
