//! Identifiers as the expander produces them: either a stable top-level
//! name, or a written name together with the scope set that
//! disambiguates it.

use vstd::prelude::*;
use vstd::string::StringExecFns;
use crate::ast::ReportSpan;
use crate::ast::SpecSpan;
use crate::ast::typ::SpecTyp;
use crate::ast::typ::Typ;
use crate::expander::scope::Scope;
use crate::expander::scope::ScopeSet;
use crate::expander::scope::SpecScope;
use crate::expander::scope::spec_scope_text;

verus! {

/// Mathematical model of an identifier.
pub ghost enum SpecIdent {
    Simple(Seq<char>),
    Normal { written_name: Seq<char>, scopes: Seq<SpecScope> },
}

/// A name occurring in the internal AST.
///
/// `Simple` names are top-level definitions; they are never renamed and
/// serve as the stable external symbol.  `Normal` names carry the scope
/// set that was current when the binding was recorded.
#[derive(Debug, Clone, PartialEq)]
pub enum Identifier {
    Simple(String),
    Normal { written_name: String, scopes: ScopeSet },
}

impl View for Identifier {
    type V = SpecIdent;

    open spec fn view(&self) -> SpecIdent {
        match self {
            Identifier::Simple(n) => SpecIdent::Simple(n@),
            Identifier::Normal { written_name, scopes } => SpecIdent::Normal {
                written_name: written_name@,
                scopes: scopes@,
            },
        }
    }
}

/// The concatenated renderings of a scope sequence, in insertion order.
pub open spec fn spec_scopes_text(ss: Seq<SpecScope>) -> Seq<char>
    decreases ss.len(),
{
    if ss.len() == 0 {
        Seq::empty()
    } else {
        spec_scopes_text(ss.drop_last()) + spec_scope_text(ss.last())
    }
}

/// Extending a scope sequence extends its rendering on the right.
pub proof fn lemma_scopes_text_prefix(ss: Seq<SpecScope>, i: int)
    requires
        0 <= i < ss.len(),
    ensures
        spec_scopes_text(ss.subrange(0, i + 1)) == spec_scopes_text(ss.subrange(0, i))
            + spec_scope_text(ss[i]),
{
    assert(ss.subrange(0, i + 1).drop_last() =~= ss.subrange(0, i));
    assert(ss.subrange(0, i + 1).last() == ss[i]);
}

/// The disambiguation key of an identifier: the written name alone when
/// no scopes are attached, otherwise an uninterned spelling that folds
/// in every scope token.
pub open spec fn spec_lookup_name(id: SpecIdent) -> Seq<char> {
    match id {
        SpecIdent::Simple(n) => n,
        SpecIdent::Normal { written_name, scopes } => if scopes.len() == 0 {
            written_name
        } else {
            "#:"@ + spec_scopes_text(scopes) + "-"@ + written_name
        },
    }
}

/// The name the programmer wrote, for human-facing diagnostics.
pub open spec fn spec_info_name(id: SpecIdent) -> Seq<char> {
    match id {
        SpecIdent::Simple(n) => n,
        SpecIdent::Normal { written_name, scopes } => written_name,
    }
}

/// Two identifiers are the same binding exactly when their lookup names
/// agree.
pub open spec fn ident_key_eq(a: SpecIdent, b: SpecIdent) -> bool {
    spec_lookup_name(a) == spec_lookup_name(b)
}

impl Identifier {
    /// Constructs a name that is never renamed: a top-level definition.
    pub fn simple(name: String) -> (r: Identifier)
        ensures
            r@ == SpecIdent::Simple(name@),
    {
        Identifier::Simple(name)
    }

    /// Constructs a lexically-bound name carrying its scope set.
    pub fn normal(written_name: String, scopes: ScopeSet) -> (r: Identifier)
        ensures
            r@ == (SpecIdent::Normal { written_name: written_name@, scopes: scopes@ }),
    {
        Identifier::Normal { written_name, scopes }
    }

    /// The name as the programmer wrote it, for diagnostics.
    pub fn info_name(&self) -> (r: String)
        ensures
            r@ == spec_info_name(self@),
    {
        match self {
            Identifier::Simple(n) => n.clone(),
            Identifier::Normal { written_name, .. } => written_name.clone(),
        }
    }

    /// The key used for rename-table and type-environment lookups: a
    /// pure function of the written name and the scope set.
    pub fn lookup_name(&self) -> (r: String)
        ensures
            r@ == spec_lookup_name(self@),
    {
        match self {
            Identifier::Simple(n) => n.clone(),
            Identifier::Normal { written_name, scopes } => {
                if scopes.is_empty() {
                    written_name.clone()
                } else {
                    let mut res = "#:".to_owned();
                    let n = scopes.len();
                    let mut i: usize = 0;
                    while i < n
                        invariant
                            n == scopes@.len(),
                            0 <= i <= n,
                            res@ == "#:"@ + spec_scopes_text(scopes@.subrange(0, i as int)),
                        decreases n - i,
                    {
                        let t = scopes.get(i).to_text();
                        res.append(t.as_str());
                        proof {
                            lemma_scopes_text_prefix(scopes@, i as int);
                        }
                        i += 1;
                    }
                    proof {
                        assert(scopes@.subrange(0, n as int) =~= scopes@);
                    }
                    res.append("-");
                    res.append(written_name.as_str());
                    res
                }
            },
        }
    }

    /// Whether two identifiers denote the same binding, i.e. have equal
    /// lookup names.
    pub fn key_eq(&self, other: &Identifier) -> (r: bool)
        ensures
            r == ident_key_eq(self@, other@),
    {
        let a = self.lookup_name();
        let b = other.lookup_name();
        a == b
    }

    /// Renders the identifier for a reader: the written name alone, or
    /// the written name with its scopes in braces, innermost first.
    pub fn to_text(&self) -> (r: String)
        ensures
            r@ == spec_ident_text(self@),
    {
        match self {
            Identifier::Simple(n) => n.clone(),
            Identifier::Normal { written_name, scopes } => {
                if scopes.is_empty() {
                    written_name.clone()
                } else {
                    let mut res = written_name.clone();
                    res.append("{");
                    let n = scopes.len();
                    let inner = scopes_rev_text(scopes, n);
                    proof {
                        assert(scopes@.take(n as int) =~= scopes@);
                    }
                    res.append(inner.as_str());
                    res.append("}");
                    res
                }
            },
        }
    }

    /// A deep copy whose model is the same identifier.
    pub fn duplicate(&self) -> (r: Identifier)
        ensures
            r@ == self@,
    {
        match self {
            Identifier::Simple(n) => Identifier::Simple(n.clone()),
            Identifier::Normal { written_name, scopes } => Identifier::Normal {
                written_name: written_name.clone(),
                scopes: scopes.duplicate(),
            },
        }
    }
}

/// Mathematical model of an expression body.
#[verifier::ext_equal]
pub ghost enum SpecExprBody {
    Bool(bool),
    Char(char),
    String(Seq<char>),
    Rational(int, int),
    Float(nat),
    Int(int),
    Identifier(SpecIdent),
    Symbol(Seq<char>),
    Begin(Seq<SpecExpr>, Box<SpecExpr>),
    Let(Seq<SpecBinding>, Box<SpecExpr>),
    If(Box<SpecExpr>, Box<SpecExpr>, Box<SpecExpr>),
    Lambda(Seq<SpecIdent>, Box<SpecExpr>),
    App(Box<SpecExpr>, Seq<SpecExpr>),
    List(Seq<SpecExpr>),
    Pair(Box<SpecExpr>, Box<SpecExpr>),
    Object(Seq<(Seq<char>, SpecExpr)>),
    Syntax(Box<SpecExpr>),
    Closure(Box<SpecExpr>, Seq<SpecIdent>),
    ClosureEnvGet(nat),
}

/// Mathematical model of an expression with its span.
#[verifier::ext_equal]
pub ghost struct SpecExpr {
    pub span: SpecSpan,
    pub body: SpecExprBody,
}

/// Mathematical model of one `let` binding.
#[verifier::ext_equal]
pub ghost struct SpecBinding {
    pub name: SpecIdent,
    pub typ: SpecTyp,
    pub expr: SpecExpr,
}

/// The body of an internal-AST expression.  Every identifier in here
/// has already been resolved by the expander.  The `Closure` and
/// `ClosureEnvGet` forms never come out of the expander; only the
/// closure-conversion pass produces them.
#[derive(Debug)]
pub enum ExprBody {
    Bool(bool),
    Char(char),
    String(String),
    Rational(i64, i64),
    /// A float literal, carried as its raw bit pattern.
    Float(u64),
    Int(i64),
    Identifier(Identifier),
    Symbol(String),
    Begin(Vec<Expr>, Box<Expr>),
    Let(Vec<Binding>, Box<Expr>),
    If(Box<Expr>, Box<Expr>, Box<Expr>),
    Lambda(Vec<Identifier>, Box<Expr>),
    App(Box<Expr>, Vec<Expr>),
    List(Vec<Expr>),
    Pair(Box<Expr>, Box<Expr>),
    Object(Vec<(String, Expr)>),
    Syntax(Box<Expr>),
    Closure(Box<Expr>, Vec<Identifier>),
    ClosureEnvGet(usize),
}

/// An expression together with its source span.
#[derive(Debug)]
pub struct Expr {
    pub span: ReportSpan,
    pub body: ExprBody,
}

/// One clause of a `let` form.
#[derive(Debug)]
pub struct Binding {
    pub name: Identifier,
    pub typ: Typ,
    pub expr: Expr,
}

pub open spec fn idents_view(s: Seq<Identifier>) -> Seq<SpecIdent> {
    s.map_values(|i: Identifier| i@)
}

pub open spec fn expr_view(e: Expr) -> SpecExpr
    decreases e,
{
    SpecExpr { span: e.span@, body: expr_body_view(e.body) }
}

pub open spec fn exprs_view(s: Seq<Expr>) -> Seq<SpecExpr>
    decreases s,
{
    if s.len() == 0 {
        Seq::empty()
    } else {
        exprs_view(s.drop_last()).push(expr_view(s.last()))
    }
}

pub open spec fn bindings_view(s: Seq<Binding>) -> Seq<SpecBinding>
    decreases s,
{
    if s.len() == 0 {
        Seq::empty()
    } else {
        bindings_view(s.drop_last()).push(binding_view(s.last()))
    }
}

pub open spec fn binding_view(b: Binding) -> SpecBinding
    decreases b,
{
    SpecBinding { name: b.name@, typ: b.typ@, expr: expr_view(b.expr) }
}

pub open spec fn object_exprs_view(s: Seq<(String, Expr)>) -> Seq<(Seq<char>, SpecExpr)>
    decreases s,
{
    if s.len() == 0 {
        Seq::empty()
    } else {
        object_exprs_view(s.drop_last()).push((s.last().0@, expr_view(s.last().1)))
    }
}

pub open spec fn expr_body_view(b: ExprBody) -> SpecExprBody
    decreases b,
{
    match b {
        ExprBody::Bool(v) => SpecExprBody::Bool(v),
        ExprBody::Char(v) => SpecExprBody::Char(v),
        ExprBody::String(s) => SpecExprBody::String(s@),
        ExprBody::Rational(p, q) => SpecExprBody::Rational(p as int, q as int),
        ExprBody::Float(bits) => SpecExprBody::Float(bits as nat),
        ExprBody::Int(v) => SpecExprBody::Int(v as int),
        ExprBody::Identifier(id) => SpecExprBody::Identifier(id@),
        ExprBody::Symbol(s) => SpecExprBody::Symbol(s@),
        ExprBody::Begin(mids, last) => SpecExprBody::Begin(
            exprs_view(mids@),
            Box::new(expr_view(*last)),
        ),
        ExprBody::Let(bindings, body) => SpecExprBody::Let(
            bindings_view(bindings@),
            Box::new(expr_view(*body)),
        ),
        ExprBody::If(c, t, e) => SpecExprBody::If(
            Box::new(expr_view(*c)),
            Box::new(expr_view(*t)),
            Box::new(expr_view(*e)),
        ),
        ExprBody::Lambda(params, body) => SpecExprBody::Lambda(
            idents_view(params@),
            Box::new(expr_view(*body)),
        ),
        ExprBody::App(f, args) => SpecExprBody::App(
            Box::new(expr_view(*f)),
            exprs_view(args@),
        ),
        ExprBody::List(items) => SpecExprBody::List(exprs_view(items@)),
        ExprBody::Pair(a, b2) => SpecExprBody::Pair(
            Box::new(expr_view(*a)),
            Box::new(expr_view(*b2)),
        ),
        ExprBody::Object(fields) => SpecExprBody::Object(object_exprs_view(fields@)),
        ExprBody::Syntax(inner) => SpecExprBody::Syntax(Box::new(expr_view(*inner))),
        ExprBody::Closure(f, captured) => SpecExprBody::Closure(
            Box::new(expr_view(*f)),
            idents_view(captured@),
        ),
        ExprBody::ClosureEnvGet(i) => SpecExprBody::ClosureEnvGet(i as nat),
    }
}

impl View for Expr {
    type V = SpecExpr;

    open spec fn view(&self) -> SpecExpr {
        expr_view(*self)
    }
}

impl View for ExprBody {
    type V = SpecExprBody;

    open spec fn view(&self) -> SpecExprBody {
        expr_body_view(*self)
    }
}

impl View for Binding {
    type V = SpecBinding;

    open spec fn view(&self) -> SpecBinding {
        binding_view(*self)
    }
}

/// `exprs_view` maps the sequence elementwise.
pub proof fn lemma_exprs_view_index(s: Seq<Expr>)
    ensures
        exprs_view(s).len() == s.len(),
        forall|i: int| 0 <= i < s.len() ==> exprs_view(s)[i] == expr_view(s[i]),
    decreases s,
{
    if s.len() > 0 {
        lemma_exprs_view_index(s.drop_last());
    }
}

/// `bindings_view` maps the sequence elementwise.
pub proof fn lemma_bindings_view_index(s: Seq<Binding>)
    ensures
        bindings_view(s).len() == s.len(),
        forall|i: int| 0 <= i < s.len() ==> bindings_view(s)[i] == binding_view(s[i]),
    decreases s,
{
    if s.len() > 0 {
        lemma_bindings_view_index(s.drop_last());
    }
}

/// `object_exprs_view` maps the sequence elementwise.
pub proof fn lemma_object_exprs_view_index(s: Seq<(String, Expr)>)
    ensures
        object_exprs_view(s).len() == s.len(),
        forall|i: int| 0 <= i < s.len() ==> object_exprs_view(s)[i] == (
            s[i].0@,
            expr_view(s[i].1),
        ),
    decreases s,
{
    if s.len() > 0 {
        lemma_object_exprs_view_index(s.drop_last());
    }
}

impl Expr {
    /// The span this expression was read from.
    pub fn span(&self) -> (r: ReportSpan)
        ensures
            r@ == self@.span,
    {
        self.span.duplicate()
    }

    /// A deep copy whose model is the same expression.
    pub fn duplicate(&self) -> (r: Expr)
        ensures
            r@ == self@,
        decreases *self, 0int,
    {
        Expr { span: self.span.duplicate(), body: expr_body_duplicate(&self.body) }
    }
}

impl ExprBody {
    /// Attaches a span, turning a body into a full expression.
    pub fn with_span(self, span: ReportSpan) -> (r: Expr)
        ensures
            r@ == (SpecExpr { span: span@, body: self@ }),
    {
        Expr { span, body: self }
    }
}

/// Deep copy of an identifier list.
pub fn idents_duplicate(v: &Vec<Identifier>) -> (r: Vec<Identifier>)
    ensures
        idents_view(r@) == idents_view(v@),
        r@.len() == v@.len(),
{
    let n = v.len();
    let mut r: Vec<Identifier> = Vec::new();
    let mut i: usize = 0;
    while i < n
        invariant
            n == v@.len(),
            0 <= i <= n,
            r@.len() == i,
            forall|k: int| 0 <= k < i ==> r@[k]@ == v@[k]@,
        decreases n - i,
    {
        let d = v[i].duplicate();
        r.push(d);
        i += 1;
    }
    proof {
        assert(idents_view(r@) =~= idents_view(v@));
    }
    r
}

pub fn exprs_duplicate(v: &Vec<Expr>) -> (r: Vec<Expr>)
    ensures
        exprs_view(r@) == exprs_view(v@),
        r@.len() == v@.len(),
    decreases *v, 0int,
{
    let n = v.len();
    let mut r: Vec<Expr> = Vec::new();
    let mut i: usize = 0;
    while i < n
        invariant
            n == v@.len(),
            0 <= i <= n,
            r@.len() == i,
            forall|k: int| 0 <= k < i ==> r@[k]@ == v@[k]@,
        decreases n - i,
    {
        let d = v[i].duplicate();
        r.push(d);
        i += 1;
    }
    proof {
        lemma_exprs_view_index(r@);
        lemma_exprs_view_index(v@);
        assert(exprs_view(r@) =~= exprs_view(v@));
    }
    r
}

pub fn bindings_duplicate(v: &Vec<Binding>) -> (r: Vec<Binding>)
    ensures
        bindings_view(r@) == bindings_view(v@),
        r@.len() == v@.len(),
    decreases *v, 0int,
{
    let n = v.len();
    let mut r: Vec<Binding> = Vec::new();
    let mut i: usize = 0;
    while i < n
        invariant
            n == v@.len(),
            0 <= i <= n,
            r@.len() == i,
            forall|k: int| 0 <= k < i ==> r@[k]@ == v@[k]@,
        decreases n - i,
    {
        let b = &v[i];
        let d = Binding {
            name: b.name.duplicate(),
            typ: b.typ.duplicate(),
            expr: b.expr.duplicate(),
        };
        r.push(d);
        i += 1;
    }
    proof {
        lemma_bindings_view_index(r@);
        lemma_bindings_view_index(v@);
        assert(bindings_view(r@) =~= bindings_view(v@));
    }
    r
}

fn object_exprs_duplicate(v: &Vec<(String, Expr)>) -> (r: Vec<(String, Expr)>)
    ensures
        object_exprs_view(r@) == object_exprs_view(v@),
        r@.len() == v@.len(),
    decreases *v, 0int,
{
    let n = v.len();
    let mut r: Vec<(String, Expr)> = Vec::new();
    let mut i: usize = 0;
    while i < n
        invariant
            n == v@.len(),
            0 <= i <= n,
            r@.len() == i,
            forall|k: int| 0 <= k < i ==> r@[k].0@ == v@[k].0@ && r@[k].1@ == v@[k].1@,
        decreases n - i,
    {
        let name = v[i].0.clone();
        let d = v[i].1.duplicate();
        r.push((name, d));
        i += 1;
    }
    proof {
        lemma_object_exprs_view_index(r@);
        lemma_object_exprs_view_index(v@);
        assert(object_exprs_view(r@) =~= object_exprs_view(v@));
    }
    r
}

fn expr_body_duplicate(b: &ExprBody) -> (r: ExprBody)
    ensures
        r@ == b@,
    decreases *b, 0int,
{
    match b {
        ExprBody::Bool(v) => ExprBody::Bool(*v),
        ExprBody::Char(v) => ExprBody::Char(*v),
        ExprBody::String(s) => ExprBody::String(s.clone()),
        ExprBody::Rational(p, q) => ExprBody::Rational(*p, *q),
        ExprBody::Float(bits) => ExprBody::Float(*bits),
        ExprBody::Int(v) => ExprBody::Int(*v),
        ExprBody::Identifier(id) => ExprBody::Identifier(id.duplicate()),
        ExprBody::Symbol(s) => ExprBody::Symbol(s.clone()),
        ExprBody::Begin(mids, last) => ExprBody::Begin(
            exprs_duplicate(mids),
            Box::new(last.duplicate()),
        ),
        ExprBody::Let(bindings, body) => ExprBody::Let(
            bindings_duplicate(bindings),
            Box::new(body.duplicate()),
        ),
        ExprBody::If(c, t, e) => ExprBody::If(
            Box::new(c.duplicate()),
            Box::new(t.duplicate()),
            Box::new(e.duplicate()),
        ),
        ExprBody::Lambda(params, body) => ExprBody::Lambda(
            idents_duplicate(params),
            Box::new(body.duplicate()),
        ),
        ExprBody::App(f, args) => ExprBody::App(Box::new(f.duplicate()), exprs_duplicate(args)),
        ExprBody::List(items) => ExprBody::List(exprs_duplicate(items)),
        ExprBody::Pair(a, b2) => ExprBody::Pair(Box::new(a.duplicate()), Box::new(b2.duplicate())),
        ExprBody::Object(fields) => ExprBody::Object(object_exprs_duplicate(fields)),
        ExprBody::Syntax(inner) => ExprBody::Syntax(Box::new(inner.duplicate())),
        ExprBody::Closure(f, captured) => ExprBody::Closure(
            Box::new(f.duplicate()),
            idents_duplicate(captured),
        ),
        ExprBody::ClosureEnvGet(i) => ExprBody::ClosureEnvGet(*i),
    }
}

/// The scopes of a set rendered innermost first, comma separated.
pub open spec fn spec_scopes_rev_text(ss: Seq<SpecScope>) -> Seq<char>
    decreases ss.len(),
{
    if ss.len() == 0 {
        Seq::empty()
    } else if ss.len() == 1 {
        spec_scope_text(ss[0])
    } else {
        spec_scope_text(ss.last()) + ", "@ + spec_scopes_rev_text(ss.drop_last())
    }
}

/// How an identifier renders for a reader.
pub open spec fn spec_ident_text(id: SpecIdent) -> Seq<char> {
    match id {
        SpecIdent::Simple(n) => n,
        SpecIdent::Normal { written_name, scopes } => if scopes.len() == 0 {
            written_name
        } else {
            written_name + "{"@ + spec_scopes_rev_text(scopes) + "}"@
        },
    }
}

fn scopes_rev_text(scopes: &ScopeSet, j: usize) -> (r: String)
    requires
        j <= scopes@.len(),
    ensures
        r@ == spec_scopes_rev_text(scopes@.take(j as int)),
    decreases j,
{
    if j == 0 {
        let r = String::new();
        proof {
            assert(scopes@.take(0) =~= Seq::<SpecScope>::empty());
        }
        r
    } else if j == 1 {
        proof {
            assert(scopes@.take(1)[0] == scopes@[0]);
        }
        scopes.get(0).to_text()
    } else {
        let mut r = scopes.get(j - 1).to_text();
        r.append(", ");
        let rest = scopes_rev_text(scopes, j - 1);
        r.append(rest.as_str());
        proof {
            assert(scopes@.take(j as int).last() == scopes@[j - 1]);
            assert(scopes@.take(j as int).drop_last() =~= scopes@.take(j as int - 1));
        }
        r
    }
}

} // verus!
