//! Laws of the scope model, the rename table and the checker, proved
//! once and for all over the same specifications that the executable
//! functions' contracts use.

use vstd::prelude::*;
use crate::ast::expr::SpecIdent;
use crate::ast::expr::spec_lookup_name;
use crate::ast::expr::spec_scopes_text;
use crate::ast::SpecDefine;
use crate::diagnostic::SpecError;
use crate::expander::SpecExpander;
use crate::expander::SpecRename;
use crate::expander::s_bind_params;
use crate::expander::s_expand_expr;
use crate::expander::s_expand_expr_form;
use crate::expander::s_expand_many;
use crate::expander::s_initial_expander;
use crate::expander::lemma_bind_params_state;
use crate::expander::lemma_growth_many;
use crate::expander::spec_as_set;
use crate::expander::spec_insert_binding;
use crate::expander::spec_lookup_newname;
use crate::expander::spec_rename_find;
use crate::expander::spec_first_covered;
use crate::expander::spec_scopes_subset;
use crate::expander::scope::SpecScope;
use crate::expander::scope::spec_scope_text;
use crate::matcher::is_id_notation;
use crate::notation::SpecNotation;
use crate::render::lemma_decimal_nonempty;
use crate::type_system::environment::SpecEnv;
use crate::type_system::s_check_defines;
use crate::type_system::s_seen;

verus! {

/// The disambiguation key is a pure function of the written name and
/// the scope set: equal inputs always give equal keys, in any run.
pub proof fn lemma_lookup_name_deterministic(a: SpecIdent, b: SpecIdent)
    requires
        a == b,
    ensures
        spec_lookup_name(a) == spec_lookup_name(b),
{
}

/// Every scope token renders to at least four characters.
pub proof fn lemma_scope_text_nonempty(s: SpecScope)
    ensures
        spec_scope_text(s).len() >= 4,
{
    reveal_strlit("mod_");
    reveal_strlit("let_");
    reveal_strlit("lam_");
    reveal_strlit("intro_");
    match s {
        SpecScope::Let(c) => {
            lemma_decimal_nonempty(c);
        },
        SpecScope::Lambda(c) => {
            lemma_decimal_nonempty(c);
        },
        _ => {},
    }
}

/// Concatenating scope runs concatenates their renderings.
pub proof fn lemma_scopes_text_concat(s1: Seq<SpecScope>, s2: Seq<SpecScope>)
    ensures
        spec_scopes_text(s1 + s2) == spec_scopes_text(s1) + spec_scopes_text(s2),
    decreases s2.len(),
{
    if s2.len() == 0 {
        assert(s1 + s2 =~= s1);
        assert(spec_scopes_text(s1) + spec_scopes_text(s2) =~= spec_scopes_text(s1));
    } else {
        lemma_scopes_text_concat(s1, s2.drop_last());
        assert((s1 + s2).drop_last() =~= s1 + s2.drop_last());
        assert((s1 + s2).last() == s2.last());
        assert(spec_scopes_text(s1) + spec_scopes_text(s2.drop_last()) + spec_scope_text(
            s2.last(),
        ) =~= spec_scopes_text(s1) + (spec_scopes_text(s2.drop_last()) + spec_scope_text(
            s2.last(),
        )));
    }
}

/// Two binders of the same written name get distinct lookup names
/// whenever one's scope set strictly extends the other's, as happens
/// when a nested construct shadows an outer one.
pub proof fn lemma_nested_binders_distinct(
    name: Seq<char>,
    outer: Seq<SpecScope>,
    ext: Seq<SpecScope>,
)
    requires
        ext.len() >= 1,
    ensures
        spec_lookup_name(SpecIdent::Normal { written_name: name, scopes: outer })
            != spec_lookup_name(SpecIdent::Normal { written_name: name, scopes: outer + ext }),
{
    reveal_strlit("#:");
    reveal_strlit("-");
    lemma_scopes_text_concat(outer, ext);
    lemma_scopes_text_ge(ext);
    assert((outer + ext).len() > 0);
    let short = spec_lookup_name(SpecIdent::Normal { written_name: name, scopes: outer });
    let long = spec_lookup_name(SpecIdent::Normal { written_name: name, scopes: outer + ext });
    if outer.len() == 0 {
        assert(spec_scopes_text(outer) =~= Seq::<char>::empty());
        assert(long.len() >= 2 + 4 + 1 + name.len());
        assert(short.len() == name.len());
    } else {
        assert(long.len() == short.len() + spec_scopes_text(ext).len());
    }
}

/// A nonempty scope run renders to at least four characters.
pub proof fn lemma_scopes_text_ge(s: Seq<SpecScope>)
    requires
        s.len() >= 1,
    ensures
        spec_scopes_text(s).len() >= 4,
    decreases s.len(),
{
    lemma_scope_text_nonempty(s.last());
    if s.len() > 1 {
        lemma_scopes_text_ge(s.drop_last());
    }
}

/// The hygiene tie-break: right after a binding is recorded, any
/// reference whose current scopes cover the recorded set resolves to
/// exactly that most recently recorded set, whatever was there before.
pub proof fn lemma_insert_then_lookup(
    m: SpecRename,
    name: Seq<char>,
    scopes: Seq<SpecScope>,
    current: Seq<SpecScope>,
)
    requires
        spec_scopes_subset(scopes, current),
    ensures
        spec_lookup_newname(spec_insert_binding(m, name, scopes), name, current) == Some(scopes),
    decreases m.len(),
{
    if m.len() == 0 {
        let m2 = spec_insert_binding(m, name, scopes);
        assert(spec_rename_find(m2, name) == Some(seq![scopes]));
        assert(spec_first_covered(seq![scopes], current) == Some(scopes));
    } else if m[0].0 == name {
        let m2 = spec_insert_binding(m, name, scopes);
        assert(m2[0].0 == name);
        assert(m2[0].1 == seq![scopes] + m[0].1);
        assert(spec_rename_find(m2, name) == Some(seq![scopes] + m[0].1));
        assert((seq![scopes] + m[0].1)[0] == scopes);
        assert(spec_first_covered(seq![scopes] + m[0].1, current) == Some(scopes));
    } else {
        lemma_insert_then_lookup(m.skip(1), name, scopes, current);
        let m2 = spec_insert_binding(m, name, scopes);
        assert(m2 == seq![m[0]] + spec_insert_binding(m.skip(1), name, scopes));
        assert(m2[0] == m[0]);
        assert(m2.skip(1) =~= spec_insert_binding(m.skip(1), name, scopes));
        assert(spec_rename_find(m2, name) == spec_rename_find(m2.skip(1), name));
    }
}

/// Whether a notation is a well-shaped `lambda` form.
pub open spec fn is_lambda_form(n: SpecNotation) -> bool {
    &&& n.body is List
    &&& n.body->List_0.len() >= 2
    &&& is_id_notation(n.body->List_0[0], "lambda"@)
    &&& n.body->List_0[1].body is List
}

/// Scope uniqueness: a lambda form takes the scope numbered with the
/// counter at its moment and leaves the counter strictly larger, so the
/// scope a sibling lambda form allocates next is a different one.
pub proof fn lemma_sibling_lambda_scopes(
    st: SpecExpander,
    stack: Seq<SpecScope>,
    n1: SpecNotation,
    n2: SpecNotation,
)
    requires
        is_lambda_form(n1),
        is_lambda_form(n2),
    ensures
        ({
            let st1 = s_expand_expr_form(st, stack, n1).0;
            st.lambda_count < st1.lambda_count && SpecScope::Lambda(st.lambda_count)
                != SpecScope::Lambda(st1.lambda_count)
        }),
{
    reveal_strlit("lambda");
    reveal_strlit("let");
    assert("lambda"@ != "let"@) by {
        assert("lambda"@.len() == 6);
        assert("let"@.len() == 3);
    }
    let elems = n1.body->List_0;
    let scope = SpecScope::Lambda(st.lambda_count);
    let st1 = SpecExpander { lambda_count: st.lambda_count + 1, ..st };
    let ext = stack.push(scope);
    let params_n = n1.body->List_0[1].body->List_0;
    lemma_bind_params_state(st1, spec_as_set(ext), params_n, 0);
    let r1 = s_bind_params(st1, spec_as_set(ext), params_n, 0);
    match r1.1 {
        Err(e) => {},
        Ok(params) => {
            lemma_growth_many(r1.0, ext, elems.skip(2), 0);
        },
    }
}

/// A fresh expansion run starts both scope counters at zero, so
/// re-expanding a module from scratch numbers its scopes from zero
/// again.
pub proof fn lemma_fresh_run_counters(source: (Seq<char>, Seq<char>))
    ensures
        s_initial_expander(source).let_count == 0,
        s_initial_expander(source).lambda_count == 0,
{
}

/// An identifier reference expands to an error exactly when the rename
/// table records no binding of that name whose scope set the current
/// scopes cover; it never resolves to a default.
pub proof fn lemma_unresolved_reference(st: SpecExpander, stack: Seq<SpecScope>, n: SpecNotation)
    requires
        n.body is Identifier,
    ensures
        ({
            let r = s_expand_expr(st, stack, n);
            let name = n.body->Identifier_0;
            &&& r.0 == st
            &&& (r.1 is Err <==> spec_lookup_newname(st.rename, name, spec_as_set(stack)) is None)
            &&& (r.1 is Err ==> r.1->Err_0 == (SpecError::UnresolvedIdentifier {
                span: n.span,
                name: name,
            }))
        }),
{
}

/// A top-level definition whose lookup name was already defined is
/// rejected with a redefinition error naming the written name.
pub proof fn lemma_redefinition_rejected(
    env: SpecEnv,
    seen: Seq<Seq<char>>,
    defs: Seq<SpecDefine>,
    i: int,
)
    requires
        0 <= i < defs.len(),
        s_seen(seen, spec_lookup_name(defs[i]->Constant_id)) && defs[i] is Constant || s_seen(
            seen,
            spec_lookup_name(defs[i]->Function_id),
        ) && defs[i] is Function,
    ensures
        s_check_defines(env, seen, defs, i) == Err::<(), SpecError>(
            SpecError::Redefinition {
                span: if defs[i] is Constant {
                    defs[i]->Constant_span
                } else {
                    defs[i]->Function_span
                },
                name: if defs[i] is Constant {
                    crate::ast::expr::spec_info_name(defs[i]->Constant_id)
                } else {
                    crate::ast::expr::spec_info_name(defs[i]->Function_id)
                },
            },
        ),
{
}

} // verus!

verus! {

/// Whether `n` is `(define name (lambda (params...) body...))`.
pub open spec fn is_define_via_lambda(n: SpecNotation) -> bool {
    &&& n.body is List
    &&& n.body->List_0.len() == 3
    &&& is_id_notation(n.body->List_0[0], "define"@)
    &&& n.body->List_0[1].body is Identifier
    &&& is_lambda_form(n.body->List_0[2])
}

/// Whether `n` is the shorthand `(define (name params...) body...)`.
pub open spec fn is_define_shorthand(n: SpecNotation) -> bool {
    &&& n.body is List
    &&& n.body->List_0.len() >= 2
    &&& is_id_notation(n.body->List_0[0], "define"@)
    &&& n.body->List_0[1].body is List
    &&& n.body->List_0[1].body->List_0.len() >= 1
    &&& n.body->List_0[1].body->List_0[0].body is Identifier
}

/// The two spellings of a function definition agree: expanding
/// `(define g (lambda (x...) body...))` and `(define (g x...) body...)`
/// from the same state either both fail or both produce a function
/// definition with the same name, the same parameters and the same
/// body, the spans of the whole form and of the body wrapper aside;
/// the rename table and the counters end up identical either way.
pub proof fn lemma_define_spellings_agree(
    st: SpecExpander,
    stack: Seq<SpecScope>,
    d1: SpecNotation,
    d2: SpecNotation,
)
    requires
        is_define_via_lambda(d1),
        is_define_shorthand(d2),
        d1.body->List_0[1].body->Identifier_0
            == d2.body->List_0[1].body->List_0[0].body->Identifier_0,
        d1.body->List_0[2].body->List_0[1].body->List_0
            == d2.body->List_0[1].body->List_0.skip(1),
        d1.body->List_0[2].body->List_0.skip(2) == d2.body->List_0.skip(2),
    ensures
        ({
            let r1 = crate::expander::s_expand_define(st, stack, d1);
            let r2 = crate::expander::s_expand_define(st, stack, d2);
            &&& (r1.1 is Ok <==> r2.1 is Ok)
            &&& (r1.1 is Ok ==> {
                let f1 = r1.0.module.define_forms.last();
                let f2 = r2.0.module.define_forms.last();
                &&& f1 is Function
                &&& f2 is Function
                &&& f1->Function_id == f2->Function_id
                &&& f1->Function_params == f2->Function_params
                &&& f1->Function_body.body is Begin
                &&& f2->Function_body.body is Begin
                &&& f1->Function_body.body->Begin_0 == f2->Function_body.body->Begin_0
                &&& *f1->Function_body.body->Begin_1 == *f2->Function_body.body->Begin_1
                &&& r1.0.rename == r2.0.rename
                &&& r1.0.let_count == r2.0.let_count
                &&& r1.0.lambda_count == r2.0.lambda_count
            })
        }),
{
    reveal_strlit("define");
    reveal_strlit("lambda");
    reveal_strlit("let");
    reveal_strlit("if");
    assert("lambda"@ != "let"@ && "lambda"@ != "if"@) by {
        assert("lambda"@.len() == 6);
        assert("let"@.len() == 3);
        assert("if"@.len() == 2);
    }
    let elems1 = d1.body->List_0;
    let lam = elems1[2];
    let lam_elems = lam.body->List_0;
    let params_n = lam_elems[1].body->List_0;
    let body_n = lam_elems.skip(2);
    let elems2 = d2.body->List_0;

    // The constant form expands its right-hand side, which is the
    // lambda form, under the unextended stack.
    let scope = SpecScope::Lambda(st.lambda_count);
    let st1 = SpecExpander { lambda_count: st.lambda_count + 1, ..st };
    let ext = stack.push(scope);
    let rp = s_bind_params(st1, spec_as_set(ext), params_n, 0);
    let r_lam = crate::expander::s_expand_expr(st, stack, lam);
    assert(r_lam == s_expand_expr_form(st, stack, lam));
    match rp.1 {
        Err(e) => {
            assert(crate::expander::s_expand_define(st, stack, d1).1 is Err);
            assert(crate::expander::s_expand_define(st, stack, d2).1 is Err);
        },
        Ok(params) => {
            let rb = s_expand_many(rp.0, ext, body_n, 0);
            match rb.1 {
                Err(e) => {
                    assert(crate::expander::s_expand_define(st, stack, d1).1 is Err);
                    assert(crate::expander::s_expand_define(st, stack, d2).1 is Err);
                },
                Ok(exprs) => {
                    if exprs.len() == 0 {
                        assert(crate::expander::s_expand_define(st, stack, d1).1 is Err);
                        assert(crate::expander::s_expand_define(st, stack, d2).1 is Err);
                    } else {
                        let r1 = crate::expander::s_expand_define(st, stack, d1);
                        let r2 = crate::expander::s_expand_define(st, stack, d2);
                        assert(r1.1 is Ok);
                        assert(r2.1 is Ok);
                        assert(r1.0.module.define_forms.last() is Function);
                        assert(r2.0.module.define_forms.last() is Function);
                    }
                },
            }
        },
    }
}

} // verus!
