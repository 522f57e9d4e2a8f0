//! The type environment: a chain of scopes mapping identifiers (by
//! their lookup names) to types, with bidirectional checking on top.

use vstd::prelude::*;
use crate::ast::ReportSpan;
use crate::ast::SpecSpan;
use crate::ast::expr::Binding;
use crate::ast::expr::Expr;
use crate::ast::expr::ExprBody;
use crate::ast::expr::Identifier;
use crate::ast::expr::SpecBinding;
use crate::ast::expr::SpecExpr;
use crate::ast::expr::SpecExprBody;
use crate::ast::expr::SpecIdent;
use crate::ast::expr::spec_info_name;
use crate::ast::expr::spec_lookup_name;
use crate::ast::typ::SpecTyp;
use crate::ast::typ::SpecTypBody;
use crate::ast::typ::Typ;
use crate::ast::typ::TypBody;
use crate::ast::typ::spec_typ_eq;
use crate::diagnostic::CompileError;
use crate::diagnostic::SpecError;

verus! {

/// Mathematical model of one scope: identifier/type pairs in insertion
/// order; a later pair for the same lookup name shadows an earlier one.
pub type SpecFrame = Seq<(SpecIdent, SpecTyp)>;

/// Mathematical model of the environment: scopes from the root up to
/// the current one.
pub type SpecEnv = Seq<SpecFrame>;

/// The lookup of one scope: the most recently inserted pair whose
/// identifier has the given lookup name.
pub open spec fn frame_lookup(f: SpecFrame, key: Seq<char>) -> Option<SpecTyp>
    decreases f.len(),
{
    if f.len() == 0 {
        None
    } else if spec_lookup_name(f.last().0) == key {
        Some(f.last().1)
    } else {
        frame_lookup(f.drop_last(), key)
    }
}

/// The lookup of the whole chain: the current scope first, then the
/// parents, outwards to the root.
pub open spec fn env_lookup(env: SpecEnv, key: Seq<char>) -> Option<SpecTyp>
    decreases env.len(),
{
    if env.len() == 0 {
        None
    } else {
        match frame_lookup(env.last(), key) {
            Some(t) => Some(t),
            None => env_lookup(env.drop_last(), key),
        }
    }
}

/// `frame_view` maps the sequence elementwise.
pub proof fn lemma_frame_view_index(f: Seq<(Identifier, Typ)>)
    ensures
        frame_view(f).len() == f.len(),
        forall|k: int| 0 <= k < f.len() ==> frame_view(f)[k] == (f[k].0@, f[k].1@),
{
}

/// A parent-linked chain of name-to-type scopes.  The root scope is
/// seeded from a module's claims; derived scopes hold the bindings of
/// one function or `let` body.
#[derive(Debug)]
pub struct Environment {
    frames: Vec<Vec<(Identifier, Typ)>>,
}

pub open spec fn frame_view(f: Seq<(Identifier, Typ)>) -> SpecFrame {
    f.map_values(|p: (Identifier, Typ)| (p.0@, p.1@))
}

impl View for Environment {
    type V = SpecEnv;

    closed spec fn view(&self) -> SpecEnv {
        self.frames@.map_values(|f: Vec<(Identifier, Typ)>| frame_view(f@))
    }
}

/// Mirror of `unify`: pure equality on the types' structure, spans
/// aside; a mismatch is a type error carrying both types.
pub open spec fn s_unify(span: SpecSpan, expected: SpecTyp, actual: SpecTyp) -> Result<
    (),
    SpecError,
> {
    if spec_typ_eq(expected, actual) {
        Ok(())
    } else {
        Err(SpecError::TypeMismatch { span: span, expected: expected, actual: actual })
    }
}

/// Mirror of `infer`: bottom-up synthesis for literals, identifiers and
/// pairs; any construct that needs top-down context cannot be inferred.
pub open spec fn s_infer(env: SpecEnv, span: SpecSpan, e: SpecExpr) -> Result<SpecTyp, SpecError>
    decreases e, 0int,
{
    match e.body {
        SpecExprBody::Bool(v) => Ok(SpecTyp { span: e.span, body: SpecTypBody::Bool }),
        SpecExprBody::Char(c) => Ok(SpecTyp { span: e.span, body: SpecTypBody::Char }),
        SpecExprBody::String(s) => Ok(SpecTyp { span: e.span, body: SpecTypBody::String }),
        SpecExprBody::Rational(p, q) => Ok(SpecTyp { span: e.span, body: SpecTypBody::Rational }),
        SpecExprBody::Float(bits) => Ok(SpecTyp { span: e.span, body: SpecTypBody::Float }),
        SpecExprBody::Int(v) => Ok(SpecTyp { span: e.span, body: SpecTypBody::Int }),
        SpecExprBody::Symbol(s) => Ok(SpecTyp { span: e.span, body: SpecTypBody::Symbol }),
        SpecExprBody::Syntax(inner) => Ok(SpecTyp { span: e.span, body: SpecTypBody::Syntax }),
        SpecExprBody::Identifier(id) => match env_lookup(env, spec_lookup_name(id)) {
            Some(t) => Ok(t),
            None => Err(SpecError::NoTypeForIdentifier { span: span, name: spec_info_name(id) }),
        },
        SpecExprBody::Pair(a, b) => match s_infer(env, a.span, *a) {
            Err(err) => Err(err),
            Ok(ta) => match s_infer(env, b.span, *b) {
                Err(err) => Err(err),
                Ok(tb) => Ok(
                    SpecTyp {
                        span: e.span,
                        body: SpecTypBody::Pair(Box::new(ta), Box::new(tb)),
                    },
                ),
            },
        },
        _ => Err(SpecError::CannotInfer { span: span }),
    }
}

/// Mirror of checking the intermediate statements of a `begin` against
/// `void`, left to right.
pub open spec fn s_check_mids(env: SpecEnv, span: SpecSpan, mids: Seq<SpecExpr>, i: int) -> Result<
    (),
    SpecError,
>
    decreases mids, 2int, mids.len() - i,
{
    if i < 0 || i >= mids.len() {
        Ok(())
    } else {
        match s_check(env, span, mids[i], SpecTyp { span: span, body: SpecTypBody::Void }) {
            Err(e) => Err(e),
            Ok(u) => s_check_mids(env, span, mids, i + 1),
        }
    }
}

/// Mirror of building the scope of a `let` body: each clause's
/// right-hand side is inferred in the outer environment.
pub open spec fn s_let_frame(
    env: SpecEnv,
    span: SpecSpan,
    bindings: Seq<SpecBinding>,
    i: int,
) -> Result<SpecFrame, SpecError>
    decreases bindings, 2int, bindings.len() - i,
{
    if i < 0 || i >= bindings.len() {
        Ok(Seq::empty())
    } else {
        match s_infer(env, span, bindings[i].expr) {
            Err(e) => Err(e),
            Ok(t) => match s_let_frame(env, span, bindings, i + 1) {
                Err(e) => Err(e),
                Ok(rest) => Ok(seq![(bindings[i].name, t)] + rest),
            },
        }
    }
}

/// Mirror of `check`: literal shapes satisfy the matching primitive
/// types directly (an integer literal satisfies every integer type);
/// `begin` checks its middle statements against `void` and its last
/// expression against the expected type; `let` checks its body in a
/// derived scope; everything else is inferred and unified.
pub open spec fn s_check(env: SpecEnv, span: SpecSpan, e: SpecExpr, t: SpecTyp) -> Result<
    (),
    SpecError,
>
    decreases e, 1int,
{
    match (t.body, e.body) {
        (SpecTypBody::Int, SpecExprBody::Int(v)) => Ok(()),
        (SpecTypBody::I8, SpecExprBody::Int(v)) => Ok(()),
        (SpecTypBody::I16, SpecExprBody::Int(v)) => Ok(()),
        (SpecTypBody::I32, SpecExprBody::Int(v)) => Ok(()),
        (SpecTypBody::I64, SpecExprBody::Int(v)) => Ok(()),
        (SpecTypBody::U8, SpecExprBody::Int(v)) => Ok(()),
        (SpecTypBody::U16, SpecExprBody::Int(v)) => Ok(()),
        (SpecTypBody::U32, SpecExprBody::Int(v)) => Ok(()),
        (SpecTypBody::U64, SpecExprBody::Int(v)) => Ok(()),
        (SpecTypBody::Rational, SpecExprBody::Rational(p, q)) => Ok(()),
        (SpecTypBody::Float, SpecExprBody::Float(bits)) => Ok(()),
        (SpecTypBody::Bool, SpecExprBody::Bool(v)) => Ok(()),
        (SpecTypBody::Char, SpecExprBody::Char(c)) => Ok(()),
        (SpecTypBody::String, SpecExprBody::String(s)) => Ok(()),
        (tb, SpecExprBody::Begin(mids, last)) => match s_check_mids(env, span, mids, 0) {
            Err(err) => Err(err),
            Ok(u) => s_check(env, span, *last, t),
        },
        (tb, SpecExprBody::Let(bindings, body)) => match s_let_frame(env, span, bindings, 0) {
            Err(err) => Err(err),
            Ok(frame) => s_check(env.push(frame), span, *body, t),
        },
        (tb, eb) => match s_infer(env, span, e) {
            Err(err) => Err(err),
            Ok(actual) => s_unify(span, t, actual),
        },
    }
}

impl Environment {
    /// A fresh environment with one empty root scope.
    pub fn new() -> (r: Environment)
        ensures
            r@ == seq![Seq::<(SpecIdent, SpecTyp)>::empty()],
    {
        let mut frames: Vec<Vec<(Identifier, Typ)>> = Vec::new();
        frames.push(Vec::new());
        let r = Environment { frames };
        proof {
            assert(frame_view(Seq::<(Identifier, Typ)>::empty()) =~= Seq::<(
                SpecIdent,
                SpecTyp,
            )>::empty());
            assert(r@ =~= seq![Seq::<(SpecIdent, SpecTyp)>::empty()]);
        }
        r
    }

    /// A child environment: the same chain with a fresh empty scope on
    /// top, for a function or `let` body.
    pub fn derive(&self) -> (r: Environment)
        ensures
            r@ == self@.push(Seq::<(SpecIdent, SpecTyp)>::empty()),
    {
        let mut frames = duplicate_frames(&self.frames);
        frames.push(Vec::new());
        let r = Environment { frames };
        proof {
            assert(frame_view(Seq::<(Identifier, Typ)>::empty()) =~= Seq::<(
                SpecIdent,
                SpecTyp,
            )>::empty());
            assert(r@ =~= self@.push(Seq::<(SpecIdent, SpecTyp)>::empty()));
        }
        r
    }

    /// Records that `id` has type `typ` in the current scope, shadowing
    /// any earlier entry for the same lookup name.
    pub fn insert(&mut self, id: Identifier, typ: Typ)
        requires
            old(self)@.len() > 0,
        ensures
            final(self)@ == old(self)@.update(
                old(self)@.len() - 1,
                old(self)@.last().push((id@, typ@)),
            ),
    {
        let ghost env0 = self@;
        let n = self.frames.len();
        proof {
            assert(env0.len() == n);
        }
        let ghost id_v = id@;
        let ghost typ_v = typ@;
        self.frames[n - 1].push((id, typ));
        proof {
            lemma_frame_view_index(self.frames@[n - 1]@);
            lemma_frame_view_index(old(self).frames@[n - 1]@);
            assert(self.frames@[n - 1]@.drop_last() =~= old(self).frames@[n - 1]@);
            assert(frame_view(self.frames@[n - 1]@) =~= frame_view(old(self).frames@[n - 1]@).push(
                (id_v, typ_v),
            ));
            assert(self@ =~= env0.update(env0.len() - 1, env0.last().push((id_v, typ_v))));
        }
    }

    /// Looks the identifier up by its lookup name, innermost scope
    /// first; failure names the identifier as the programmer wrote it.
    pub fn lookup(&self, id: &Identifier, span: &ReportSpan) -> (r: Result<Typ, CompileError>)
        ensures
            match (r, env_lookup(self@, spec_lookup_name(id@))) {
                (Ok(t), Some(st)) => t@ == st,
                (Err(e), None) => e@ == (SpecError::NoTypeForIdentifier {
                    span: span@,
                    name: spec_info_name(id@),
                }),
                _ => false,
            },
    {
        let key = id.lookup_name();
        let ghost env = self@;
        let fn_count = self.frames.len();
        proof {
            assert(env.len() == fn_count);
            assert(env.take(fn_count as int) =~= env);
        }
        let mut fi: usize = fn_count;
        while fi > 0
            invariant
                0 <= fi <= fn_count,
                fn_count == self.frames@.len(),
                env == self@,
                env.len() == fn_count,
                key@ == spec_lookup_name(id@),
                env_lookup(env, key@) == env_lookup(env.take(fi as int), key@),
            decreases fi,
        {
            proof {
                assert(env[fi - 1] == frame_view(self.frames@[fi - 1]@));
                assert(env.take(fi as int).last() == env[fi - 1]);
                assert(env.take(fi as int).drop_last() =~= env.take(fi as int - 1));
            }
            let frame = &self.frames[fi - 1];
            let ghost fv = frame_view(frame@);
            let m = frame.len();
            proof {
                assert(fv.len() == m);
                assert(fv.take(m as int) =~= fv);
            }
            let mut j: usize = m;
            while j > 0
                invariant
                    0 <= j <= m,
                    m == frame@.len(),
                    fv == frame_view(frame@),
                    fv.len() == m,
                    key@ == spec_lookup_name(id@),
                    frame_lookup(fv, key@) == frame_lookup(fv.take(j as int), key@),
                    env == self@,
                    env.len() == fn_count,
                    0 < fi <= fn_count,
                    fv == env[fi - 1],
                    env_lookup(env, key@) == env_lookup(env.take(fi as int), key@),
                decreases j,
            {
                proof {
                    assert(fv[j - 1] == (frame@[j - 1].0@, frame@[j - 1].1@));
                    assert(fv.take(j as int).last() == fv[j - 1]);
                    assert(fv.take(j as int).drop_last() =~= fv.take(j as int - 1));
                }
                let entry_key = frame[j - 1].0.lookup_name();
                if entry_key == key {
                    let t = frame[j - 1].1.duplicate();
                    proof {
                        assert(frame_lookup(fv.take(j as int), key@) == Some(fv[j - 1].1));
                        assert(env.take(fi as int).last() == env[fi - 1]);
                        assert(env_lookup(env.take(fi as int), key@) == Some(fv[j - 1].1));
                        assert(env_lookup(env, key@) == Some(fv[j - 1].1));
                    }
                    return Ok(t);
                }
                j -= 1;
            }
            proof {
                assert(fv.take(0) =~= Seq::<(SpecIdent, SpecTyp)>::empty());
                assert(frame_lookup(fv, key@) is None);
            }
            fi -= 1;
        }
        proof {
            assert(env.take(0) =~= Seq::<SpecFrame>::empty());
        }
        Err(
            CompileError::NoTypeForIdentifier {
                span: span.duplicate(),
                name: id.info_name(),
            },
        )
    }

    /// Unifies two types: success exactly when their shapes agree,
    /// spans aside; a mismatch labels both types' spans.
    pub fn unify(&self, span: &ReportSpan, expected: &Typ, actual: &Typ) -> (r: Result<
        (),
        CompileError,
    >)
        ensures
            match (r, s_unify(span@, expected@, actual@)) {
                (Ok(u), Ok(su)) => true,
                (Err(e), Err(se)) => e@ == se,
                _ => false,
            },
    {
        if expected.equals(actual) {
            Ok(())
        } else {
            Err(
                CompileError::TypeMismatch {
                    span: span.duplicate(),
                    expected: expected.duplicate(),
                    actual: actual.duplicate(),
                },
            )
        }
    }

    /// Infers the type of an expression bottom-up.
    pub fn infer(&self, span: &ReportSpan, exp: &Expr) -> (r: Result<Typ, CompileError>)
        ensures
            match (r, s_infer(self@, span@, exp@)) {
                (Ok(t), Ok(st)) => t@ == st,
                (Err(e), Err(se)) => e@ == se,
                _ => false,
            },
        decreases *exp, 0int,
    {
        match &exp.body {
            ExprBody::Bool(v) => Ok(TypBody::Bool.with_span(exp.span.duplicate())),
            ExprBody::Char(c) => Ok(TypBody::Char.with_span(exp.span.duplicate())),
            ExprBody::String(s) => Ok(TypBody::String.with_span(exp.span.duplicate())),
            ExprBody::Rational(p, q) => Ok(TypBody::Rational.with_span(exp.span.duplicate())),
            ExprBody::Float(bits) => Ok(TypBody::Float.with_span(exp.span.duplicate())),
            ExprBody::Int(v) => Ok(TypBody::Int.with_span(exp.span.duplicate())),
            ExprBody::Symbol(s) => Ok(TypBody::Symbol.with_span(exp.span.duplicate())),
            ExprBody::Syntax(inner) => Ok(TypBody::Syntax.with_span(exp.span.duplicate())),
            ExprBody::Identifier(id) => self.lookup(id, span),
            ExprBody::Pair(a, b) => {
                let a_span = a.span.duplicate();
                match self.infer(&a_span, a) {
                    Err(e) => Err(e),
                    Ok(ta) => {
                        let b_span = b.span.duplicate();
                        match self.infer(&b_span, b) {
                            Err(e) => Err(e),
                            Ok(tb) => Ok(
                                TypBody::Pair(Box::new(ta), Box::new(tb)).with_span(
                                    exp.span.duplicate(),
                                ),
                            ),
                        }
                    },
                }
            },
            _ => Err(CompileError::CannotInfer { span: span.duplicate() }),
        }
    }

    /// Checks an expression against an expected type.
    pub fn check(&self, span: &ReportSpan, exp: &Expr, typ: &Typ) -> (r: Result<(), CompileError>)
        ensures
            match (r, s_check(self@, span@, exp@, typ@)) {
                (Ok(u), Ok(su)) => true,
                (Err(e), Err(se)) => e@ == se,
                _ => false,
            },
        decreases *exp, 1int,
    {
        match (&typ.body, &exp.body) {
            (TypBody::Int, ExprBody::Int(_)) => Ok(()),
            (TypBody::I8, ExprBody::Int(_)) => Ok(()),
            (TypBody::I16, ExprBody::Int(_)) => Ok(()),
            (TypBody::I32, ExprBody::Int(_)) => Ok(()),
            (TypBody::I64, ExprBody::Int(_)) => Ok(()),
            (TypBody::U8, ExprBody::Int(_)) => Ok(()),
            (TypBody::U16, ExprBody::Int(_)) => Ok(()),
            (TypBody::U32, ExprBody::Int(_)) => Ok(()),
            (TypBody::U64, ExprBody::Int(_)) => Ok(()),
            (TypBody::Rational, ExprBody::Rational(_, _)) => Ok(()),
            (TypBody::Float, ExprBody::Float(_)) => Ok(()),
            (TypBody::Bool, ExprBody::Bool(_)) => Ok(()),
            (TypBody::Char, ExprBody::Char(_)) => Ok(()),
            (TypBody::String, ExprBody::String(_)) => Ok(()),
            (_, ExprBody::Begin(mids, last)) => {
                match self.check_mids(span, mids, 0) {
                    Err(e) => Err(e),
                    Ok(u) => self.check(span, last, typ),
                }
            },
            (_, ExprBody::Let(bindings, body)) => {
                match self.let_frame(span, bindings, 0) {
                    Err(e) => Err(e),
                    Ok(frame) => {
                        let mut frames = duplicate_frames(&self.frames);
                        frames.push(frame);
                        let env2 = Environment { frames };
                        let ghost target = self@.push(
                            s_let_frame(
                                self@,
                                span@,
                                crate::ast::expr::bindings_view(bindings@),
                                0,
                            )->Ok_0,
                        );
                        proof {
                            assert(env2@ =~= target);
                        }
                        env2.check(span, body, typ)
                    },
                }
            },
            (_, _) => {
                match self.infer(span, exp) {
                    Err(e) => Err(e),
                    Ok(actual) => self.unify(span, typ, &actual),
                }
            },
        }
    }

    fn check_mids(&self, span: &ReportSpan, mids: &Vec<Expr>, i: usize) -> (r: Result<
        (),
        CompileError,
    >)
        requires
            i <= mids@.len(),
        ensures
            match (r, s_check_mids(
                self@,
                span@,
                crate::ast::expr::exprs_view(mids@),
                i as int,
            )) {
                (Ok(u), Ok(su)) => true,
                (Err(e), Err(se)) => e@ == se,
                _ => false,
            },
        decreases *mids, 2int, mids@.len() - i,
    {
        proof {
            crate::ast::expr::lemma_exprs_view_index(mids@);
        }
        if i == mids.len() {
            Ok(())
        } else {
            let void_typ = TypBody::Void.with_span(span.duplicate());
            match self.check(span, &mids[i], &void_typ) {
                Err(e) => Err(e),
                Ok(u) => self.check_mids(span, mids, i + 1),
            }
        }
    }

    fn let_frame(&self, span: &ReportSpan, bindings: &Vec<Binding>, i: usize) -> (r: Result<
        Vec<(Identifier, Typ)>,
        CompileError,
    >)
        requires
            i <= bindings@.len(),
        ensures
            match (r, s_let_frame(
                self@,
                span@,
                crate::ast::expr::bindings_view(bindings@),
                i as int,
            )) {
                (Ok(f), Ok(sf)) => frame_view(f@) == sf,
                (Err(e), Err(se)) => e@ == se,
                _ => false,
            },
        decreases *bindings, 2int, bindings@.len() - i,
    {
        proof {
            crate::ast::expr::lemma_bindings_view_index(bindings@);
        }
        let ghost bv = crate::ast::expr::bindings_view(bindings@);
        if i == bindings.len() {
            let f: Vec<(Identifier, Typ)> = Vec::new();
            proof {
                assert(frame_view(f@) =~= Seq::<(SpecIdent, SpecTyp)>::empty());
            }
            Ok(f)
        } else {
            match self.infer(span, &bindings[i].expr) {
                Err(e) => Err(e),
                Ok(t) => {
                    match self.let_frame(span, bindings, i + 1) {
                        Err(e) => Err(e),
                        Ok(rest) => {
                            let name = bindings[i].name.duplicate();
                            let ghost pair_v = (name@, t@);
                            let ghost rest_seq = rest@;
                            let ghost rest_v = frame_view(rest@);
                            let mut f = rest;
                            f.insert(0, (name, t));
                            proof {
                                assert(f@ =~= seq![(f@[0].0, f@[0].1)] + rest_seq) by {
                                    assert(f@.len() == rest_seq.len() + 1);
                                }
                                assert(frame_view(f@) =~= seq![pair_v] + rest_v) by {
                                    assert forall|k: int|
                                        0 <= k < f@.len() implies frame_view(f@)[k] == (
                                    seq![pair_v] + rest_v)[k] by {
                                        if k > 0 {
                                            assert(f@[k] == rest_seq[k - 1]);
                                        }
                                    }
                                }
                            }
                            Ok(f)
                        },
                    }
                },
            }
        }
    }
}

/// A deep copy of an environment's scopes.
fn duplicate_frames(frames: &Vec<Vec<(Identifier, Typ)>>) -> (r: Vec<Vec<(Identifier, Typ)>>)
    ensures
        r@.len() == frames@.len(),
        forall|k: int| 0 <= k < r@.len() ==> frame_view(r@[k]@) == frame_view(frames@[k]@),
        r@.map_values(|f: Vec<(Identifier, Typ)>| frame_view(f@)) == frames@.map_values(
            |f: Vec<(Identifier, Typ)>| frame_view(f@),
        ),
{
    let n = frames.len();
    let mut r: Vec<Vec<(Identifier, Typ)>> = Vec::new();
    let mut i: usize = 0;
    while i < n
        invariant
            0 <= i <= n,
            n == frames@.len(),
            r@.len() == i,
            forall|k: int| 0 <= k < i ==> frame_view(r@[k]@) == frame_view(frames@[k]@),
        decreases n - i,
    {
        let f = duplicate_frame(&frames[i]);
        r.push(f);
        i += 1;
    }
    proof {
        assert(r@.map_values(|f: Vec<(Identifier, Typ)>| frame_view(f@)) =~= frames@.map_values(
            |f: Vec<(Identifier, Typ)>| frame_view(f@),
        ));
    }
    r
}

fn duplicate_frame(frame: &Vec<(Identifier, Typ)>) -> (r: Vec<(Identifier, Typ)>)
    ensures
        frame_view(r@) == frame_view(frame@),
{
    let n = frame.len();
    let mut r: Vec<(Identifier, Typ)> = Vec::new();
    let mut i: usize = 0;
    while i < n
        invariant
            0 <= i <= n,
            n == frame@.len(),
            r@.len() == i,
            forall|k: int| 0 <= k < i ==> r@[k].0@ == frame@[k].0@ && r@[k].1@ == frame@[k].1@,
        decreases n - i,
    {
        let id = frame[i].0.duplicate();
        let t = frame[i].1.duplicate();
        r.push((id, t));
        i += 1;
    }
    proof {
        assert(frame_view(r@) =~= frame_view(frame@));
    }
    r
}

} // verus!

verus! {

impl Environment {
    /// The current scope in a serializable form: each binding keyed by
    /// its identifier's lookup name, in insertion order.
    pub fn current_scope(&self) -> (r: Vec<(String, Typ)>)
        ensures
            self@.len() > 0 ==> r@.len() == self@.last().len() && forall|k: int|
                0 <= k < r@.len() ==> r@[k].0@ == spec_lookup_name(self@.last()[k].0)
                    && r@[k].1@ == self@.last()[k].1,
            self@.len() == 0 ==> r@.len() == 0,
    {
        let mut r: Vec<(String, Typ)> = Vec::new();
        let fcount = self.frames.len();
        proof {
            assert(self@.len() == fcount);
        }
        if fcount == 0 {
            return r;
        }
        let frame = &self.frames[fcount - 1];
        let ghost fv = frame_view(frame@);
        proof {
            lemma_frame_view_index(frame@);
            assert(self@.last() == fv);
        }
        let n = frame.len();
        let mut i: usize = 0;
        while i < n
            invariant
                0 <= i <= n,
                n == frame@.len(),
                fv == frame_view(frame@),
                fv.len() == n,
                r@.len() == i,
                forall|k: int| 0 <= k < i ==> r@[k].0@ == spec_lookup_name(fv[k].0) && r@[k].1@
                    == fv[k].1,
            decreases n - i,
        {
            proof {
                assert(fv[i as int] == (frame@[i as int].0@, frame@[i as int].1@));
            }
            let key = frame[i].0.lookup_name();
            let t = frame[i].1.duplicate();
            r.push((key, t));
            i += 1;
        }
        r
    }
}

} // verus!
