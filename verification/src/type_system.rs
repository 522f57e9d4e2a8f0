//! The top-level type checker: seeds the root environment from a
//! module's claims, then checks every definition against its claimed
//! type, rejecting redefinitions.

use vstd::prelude::*;

pub mod environment;

use crate::ast::DefineForm;
use crate::ast::Module;
use crate::ast::ReportSpan;
use crate::ast::SpecClaim;
use crate::ast::SpecDefine;
use crate::ast::SpecModule;
use crate::ast::expr::Identifier;
use crate::ast::expr::SpecIdent;
use crate::ast::expr::spec_info_name;
use crate::ast::expr::spec_lookup_name;
use crate::ast::typ::SpecTyp;
use crate::ast::typ::SpecTypBody;
use crate::ast::typ::Typ;
use crate::ast::typ::TypBody;
use crate::diagnostic::CompileError;
use crate::diagnostic::SpecError;
use crate::type_system::environment::Environment;
use crate::type_system::environment::SpecEnv;
use crate::type_system::environment::SpecFrame;
use crate::type_system::environment::env_lookup;
use crate::type_system::environment::s_check;

verus! {

/// Mirror of seeding the root scope from the claim forms, in order.
pub open spec fn s_claims_frame(claims: Seq<SpecClaim>, i: int) -> SpecFrame
    decreases claims.len() - i,
{
    if i < 0 || i >= claims.len() {
        Seq::empty()
    } else {
        seq![(claims[i].id, claims[i].typ)] + s_claims_frame(claims, i + 1)
    }
}

/// Mirror of pairing a function's parameters with its claimed
/// parameter types, up to the shorter of the two lists.
pub open spec fn s_param_frame(params: Seq<SpecIdent>, typs: Seq<SpecTyp>, i: int) -> SpecFrame
    decreases params.len() - i,
{
    if i < 0 || i >= params.len() || i >= typs.len() {
        Seq::empty()
    } else {
        seq![(params[i], typs[i])] + s_param_frame(params, typs, i + 1)
    }
}

/// Mirror of the redefinition check: a definition whose lookup name was
/// already defined at top level is rejected.
pub open spec fn s_seen(seen: Seq<Seq<char>>, key: Seq<char>) -> bool {
    exists|k: int| 0 <= k < seen.len() && seen[k] == key
}

/// Mirror of checking every definition in order: each is first checked
/// against redefinition, then against its claimed type.  A function
/// definition needs a claimed function type; its body is checked
/// against the claimed result type in a scope binding each parameter.
pub open spec fn s_check_defines(
    env: SpecEnv,
    seen: Seq<Seq<char>>,
    defs: Seq<SpecDefine>,
    i: int,
) -> Result<(), SpecError>
    decreases defs.len() - i,
{
    if i < 0 || i >= defs.len() {
        Ok(())
    } else {
        match defs[i] {
            SpecDefine::Constant { span, id, expr } => {
                if s_seen(seen, spec_lookup_name(id)) {
                    Err(SpecError::Redefinition { span: span, name: spec_info_name(id) })
                } else {
                    let seen2 = seen.push(spec_lookup_name(id));
                    match env_lookup(env, spec_lookup_name(id)) {
                        None => Err(
                            SpecError::NoTypeForIdentifier { span: span, name: spec_info_name(id) },
                        ),
                        Some(ty) => match s_check(env, span, expr, ty) {
                            Err(e) => Err(e),
                            Ok(u) => s_check_defines(env, seen2, defs, i + 1),
                        },
                    }
                }
            },
            SpecDefine::Function { span, id, params, body } => {
                if s_seen(seen, spec_lookup_name(id)) {
                    Err(SpecError::Redefinition { span: span, name: spec_info_name(id) })
                } else {
                    let seen2 = seen.push(spec_lookup_name(id));
                    match env_lookup(env, spec_lookup_name(id)) {
                        None => Err(
                            SpecError::NoTypeForIdentifier { span: span, name: spec_info_name(id) },
                        ),
                        Some(ty) => match ty.body {
                            SpecTypBody::Func { params: typs, result } => {
                                let frame = s_param_frame(params, typs, 0);
                                match s_check(env.push(frame), span, body, *result) {
                                    Err(e) => Err(e),
                                    Ok(u) => s_check_defines(env, seen2, defs, i + 1),
                                }
                            },
                            _ => Err(
                                SpecError::ExpectedFunctionType {
                                    span: span,
                                    name: spec_info_name(id),
                                    typ: ty,
                                },
                            ),
                        },
                    }
                }
            },
        }
    }
}

/// Mirror of the whole pass: the root environment holds the claims;
/// success hands it back for export.
pub open spec fn s_check_module(m: SpecModule) -> Result<SpecEnv, SpecError> {
    let env = seq![s_claims_frame(m.claim_forms, 0)];
    match s_check_defines(env, Seq::empty(), m.define_forms, 0) {
        Err(e) => Err(e),
        Ok(u) => Ok(env),
    }
}

/// Rejects a second top-level definition of the same lookup name and
/// otherwise records the name as defined.
pub fn check_redefine(
    top_definitions: &mut Vec<String>,
    id: &Identifier,
    span: &ReportSpan,
) -> (r: Result<(), CompileError>)
    ensures
        match r {
            Ok(u) => !s_seen(
                old(top_definitions)@.map_values(|s: String| s@),
                spec_lookup_name(id@),
            ) && final(top_definitions)@.map_values(|s: String| s@) == old(
                top_definitions,
            )@.map_values(|s: String| s@).push(spec_lookup_name(id@)),
            Err(e) => s_seen(
                old(top_definitions)@.map_values(|s: String| s@),
                spec_lookup_name(id@),
            ) && e@ == (SpecError::Redefinition { span: span@, name: spec_info_name(id@) })
                && final(top_definitions)@ == old(top_definitions)@,
        },
{
    let ghost seen0 = top_definitions@.map_values(|s: String| s@);
    let key = id.lookup_name();
    let n = top_definitions.len();
    proof {
        assert(seen0.len() == n);
    }
    let mut k: usize = 0;
    while k < n
        invariant
            0 <= k <= n,
            n == top_definitions@.len(),
            seen0 == top_definitions@.map_values(|s: String| s@),
            seen0.len() == n,
            key@ == spec_lookup_name(id@),
            forall|j: int| 0 <= j < k ==> seen0[j] != key@,
        decreases n - k,
    {
        proof {
            assert(seen0[k as int] == top_definitions@[k as int]@);
        }
        if top_definitions[k] == key {
            return Err(
                CompileError::Redefinition { span: span.duplicate(), name: id.info_name() },
            );
        }
        k += 1;
    }
    proof {
        assert(!s_seen(seen0, key@));
    }
    top_definitions.push(key);
    proof {
        assert(top_definitions@.map_values(|s: String| s@) =~= seen0.push(spec_lookup_name(id@)));
    }
    Ok(())
}

fn param_frame(params: &Vec<Identifier>, typs: &Vec<Typ>, i: usize) -> (r: Vec<(Identifier, Typ)>)
    requires
        i <= params@.len(),
    ensures
        crate::type_system::environment::frame_view(r@) == s_param_frame(
            crate::ast::expr::idents_view(params@),
            crate::ast::typ::typs_view(typs@),
            i as int,
        ),
    decreases params@.len() - i,
{
    proof {
        crate::ast::typ::lemma_typs_view_index(typs@);
    }
    let ghost ps = crate::ast::expr::idents_view(params@);
    let ghost ts = crate::ast::typ::typs_view(typs@);
    if i == params.len() || i >= typs.len() {
        let r: Vec<(Identifier, Typ)> = Vec::new();
        proof {
            assert(crate::type_system::environment::frame_view(r@) =~= Seq::<(
                SpecIdent,
                SpecTyp,
            )>::empty());
        }
        r
    } else {
        let id = params[i].duplicate();
        let t = typs[i].duplicate();
        let rest = param_frame(params, typs, i + 1);
        let ghost pair_v = (id@, t@);
        let ghost rest_seq = rest@;
        let ghost rest_v = crate::type_system::environment::frame_view(rest@);
        let mut r = rest;
        r.insert(0, (id, t));
        proof {
            assert(crate::type_system::environment::frame_view(r@) =~= seq![pair_v] + rest_v) by {
                assert forall|k: int|
                    0 <= k < r@.len() implies crate::type_system::environment::frame_view(
                    r@,
                )[k] == (seq![pair_v] + rest_v)[k] by {
                    if k > 0 {
                        assert(r@[k] == rest_seq[k - 1]);
                    }
                }
            }
        }
        r
    }
}

fn check_defines(
    env: &Environment,
    top_definitions: &mut Vec<String>,
    defs: &Vec<DefineForm>,
    i: usize,
) -> (r: Result<(), CompileError>)
    requires
        i <= defs@.len(),
    ensures
        match (r, s_check_defines(
            env@,
            old(top_definitions)@.map_values(|s: String| s@),
            defs@.map_values(|d: DefineForm| d@),
            i as int,
        )) {
            (Ok(u), Ok(su)) => true,
            (Err(e), Err(se)) => e@ == se,
            _ => false,
        },
    decreases defs@.len() - i,
{
    let ghost dv = defs@.map_values(|d: DefineForm| d@);
    let ghost seen0 = top_definitions@.map_values(|s: String| s@);
    if i == defs.len() {
        Ok(())
    } else {
        proof {
            assert(dv[i as int] == defs@[i as int]@);
        }
        match &defs[i] {
            DefineForm::DefineConstant { span, id, expr } => {
                match check_redefine(top_definitions, id, span) {
                    Err(e) => Err(e),
                    Ok(u) => {
                        match env.lookup(id, span) {
                            Err(e) => Err(e),
                            Ok(ty) => {
                                match env.check(span, expr, &ty) {
                                    Err(e) => Err(e),
                                    Ok(u2) => check_defines(env, top_definitions, defs, i + 1),
                                }
                            },
                        }
                    },
                }
            },
            DefineForm::DefineFunction { span, id, params, body } => {
                match check_redefine(top_definitions, id, span) {
                    Err(e) => Err(e),
                    Ok(u) => {
                        match env.lookup(id, span) {
                            Err(e) => Err(e),
                            Ok(ty) => {
                                match ty.body {
                                    TypBody::Func { params: typs, result } => {
                                        proof {
                                            assert(dv[i as int] == defs@[i as int]@);
                                            assert(ty@ == env_lookup(
                                                env@,
                                                spec_lookup_name(dv[i as int]->Function_id),
                                            )->Some_0);
                                            assert(ty@.body is Func);
                                            assert(ty@.body->Func_params
                                                == crate::ast::typ::typs_view(typs@));
                                            assert(top_definitions@.map_values(
                                                |s: String| s@,
                                            ).drop_last() =~= seen0);
                                        }
                                        let frame = param_frame(params, &typs, 0);
                                        let env2 = env.derive_with(frame);
                                        env2_check_then(
                                            env,
                                            &env2,
                                            top_definitions,
                                            defs,
                                            i,
                                            span,
                                            body,
                                            &result,
                                        )
                                    },
                                    other => {
                                        let ty2 = Typ { span: ty.span, body: other };
                                        proof {
                                            assert(!(ty2@.body is Func));
                                        }
                                        Err(
                                            CompileError::ExpectedFunctionType {
                                                span: span.duplicate(),
                                                name: id.info_name(),
                                                typ: ty2,
                                            },
                                        )
                                    },
                                }
                            },
                        }
                    },
                }
            },
        }
    }
}

/// Checks a function body in its parameter scope, then goes on with the
/// remaining definitions.
fn env2_check_then(
    env: &Environment,
    env2: &Environment,
    top_definitions: &mut Vec<String>,
    defs: &Vec<DefineForm>,
    i: usize,
    span: &ReportSpan,
    body: &crate::ast::expr::Expr,
    result: &Typ,
) -> (r: Result<(), CompileError>)
    requires
        i < defs@.len(),
        i + 1 <= defs@.len(),
        env2@ == env@.push(
            s_param_frame(
                defs@.map_values(|d: DefineForm| d@)[i as int]->Function_params,
                env_lookup(
                    env@,
                    spec_lookup_name(defs@.map_values(|d: DefineForm| d@)[i as int]->Function_id),
                )->Some_0.body->Func_params,
                0,
            ),
        ),
        result@ == *env_lookup(
            env@,
            spec_lookup_name(defs@.map_values(|d: DefineForm| d@)[i as int]->Function_id),
        )->Some_0.body->Func_result,
        body@ == defs@.map_values(|d: DefineForm| d@)[i as int]->Function_body,
        span@ == defs@.map_values(|d: DefineForm| d@)[i as int]->Function_span,
        defs@.map_values(|d: DefineForm| d@)[i as int] is Function,
        env_lookup(
            env@,
            spec_lookup_name(defs@.map_values(|d: DefineForm| d@)[i as int]->Function_id),
        ) is Some,
        env_lookup(
            env@,
            spec_lookup_name(defs@.map_values(|d: DefineForm| d@)[i as int]->Function_id),
        )->Some_0.body is Func,
        !s_seen(
            old(top_definitions)@.map_values(|s: String| s@).drop_last(),
            spec_lookup_name(defs@.map_values(|d: DefineForm| d@)[i as int]->Function_id),
        ),
        old(top_definitions)@.map_values(|s: String| s@).len() > 0,
        old(top_definitions)@.map_values(|s: String| s@).last() == spec_lookup_name(
            defs@.map_values(|d: DefineForm| d@)[i as int]->Function_id,
        ),
    ensures
        ({
            let dv = defs@.map_values(|d: DefineForm| d@);
            let seen_before = old(top_definitions)@.map_values(|s: String| s@).drop_last();
            match (r, s_check_defines(env@, seen_before, dv, i as int)) {
                (Ok(u), Ok(su)) => true,
                (Err(e), Err(se)) => e@ == se,
                _ => false,
            }
        }),
    decreases defs@.len() - i, 0int,
{
    let ghost dv = defs@.map_values(|d: DefineForm| d@);
    let ghost seen_before = old(top_definitions)@.map_values(|s: String| s@).drop_last();
    let total = defs.len();
    proof {
        assert(i < total);
        assert(old(top_definitions)@.map_values(|s: String| s@) =~= seen_before.push(
            spec_lookup_name(dv[i as int]->Function_id),
        ));
    }
    match env2.check(span, body, result) {
        Err(e) => Err(e),
        Ok(u) => check_defines(env, top_definitions, defs, i + 1),
    }
}

impl Environment {
    /// A child environment whose fresh scope already holds the given
    /// bindings.
    pub fn derive_with(&self, frame: Vec<(Identifier, Typ)>) -> (r: Environment)
        ensures
            r@ == self@.push(crate::type_system::environment::frame_view(frame@)),
    {
        let ghost fv = crate::type_system::environment::frame_view(frame@);
        let mut env2 = self.derive();
        let ghost base = env2@;
        let n = frame.len();
        let mut frame = frame;
        let mut j: usize = 0;
        proof {
            assert(fv.len() == n);
            assert(base.last() =~= fv.take(0));
        }
        while j < n
            invariant
                0 <= j <= n,
                n == frame@.len(),
                fv == crate::type_system::environment::frame_view(frame@),
                fv.len() == n,
                env2@.len() == base.len(),
                base.len() > 0,
                env2@ == base.update(base.len() - 1, fv.take(j as int)),
            decreases n - j,
        {
            proof {
                assert(fv[j as int] == (frame@[j as int].0@, frame@[j as int].1@));
                assert(fv.take(j as int + 1).drop_last() =~= fv.take(j as int));
                assert(fv.take(j as int + 1).last() == fv[j as int]);
            }
            let id = frame[j].0.duplicate();
            let t = frame[j].1.duplicate();
            env2.insert(id, t);
            proof {
                assert(fv.take(j as int + 1) =~= fv.take(j as int).push(fv[j as int]));
                assert(env2@ =~= base.update(base.len() - 1, fv.take(j as int + 1)));
            }
            j += 1;
        }
        proof {
            assert(fv.take(n as int) =~= fv);
            assert(env2@ =~= self@.push(fv));
        }
        env2
    }
}

/// Type-checks a whole module: the root environment is seeded from its
/// claim forms, every definition is checked against redefinition and
/// against its claimed type, and on success the root environment comes
/// back for symbol export.
pub fn check(module: &Module) -> (r: Result<Environment, CompileError>)
    ensures
        match (r, s_check_module(module@)) {
            (Ok(env), Ok(senv)) => env@ == senv,
            (Err(e), Err(se)) => e@ == se,
            _ => false,
        },
{
    let ghost m = module@;
    let mut env = Environment::new();
    let ghost claims_v = m.claim_forms;
    let n = module.claim_forms.len();
    proof {
        assert(claims_v.len() == n);
        assert(s_claims_frame(claims_v, 0).take(0) =~= Seq::<(SpecIdent, SpecTyp)>::empty());
        lemma_claims_frame_len(claims_v, 0);
    }
    let mut i: usize = 0;
    while i < n
        invariant
            0 <= i <= n,
            n == module.claim_forms@.len(),
            claims_v == module@.claim_forms,
            claims_v.len() == n,
            env@.len() == 1,
            env@ == seq![s_claims_frame(claims_v, 0).take(i as int)],
            s_claims_frame(claims_v, 0).len() >= i,
        decreases n - i,
    {
        proof {
            assert(claims_v[i as int] == module.claim_forms@[i as int]@);
            lemma_claims_frame_take(claims_v, i as int);
        }
        let id = module.claim_forms[i].id.duplicate();
        let t = module.claim_forms[i].typ.duplicate();
        env.insert(id, t);
        proof {
            assert(env@ =~= seq![s_claims_frame(claims_v, 0).take(i as int + 1)]);
        }
        i += 1;
    }
    proof {
        lemma_claims_frame_len(claims_v, 0);
        assert(s_claims_frame(claims_v, 0).take(n as int) =~= s_claims_frame(claims_v, 0));
        assert(env@ =~= seq![s_claims_frame(claims_v, 0)]);
    }
    let mut top_definitions: Vec<String> = Vec::new();
    proof {
        assert(top_definitions@.map_values(|s: String| s@) =~= Seq::<Seq<char>>::empty());
        assert(m.define_forms =~= module.define_forms@.map_values(|d: DefineForm| d@));
    }
    match check_defines(&env, &mut top_definitions, &module.define_forms, 0) {
        Err(e) => Err(e),
        Ok(u) => Ok(env),
    }
}

/// The seeded frame has one pair per claim, in order.
proof fn lemma_claims_frame_len(claims: Seq<SpecClaim>, i: int)
    ensures
        i >= 0 ==> s_claims_frame(claims, i).len() == if i <= claims.len() {
            claims.len() - i
        } else {
            0
        },
    decreases claims.len() - i,
{
    if 0 <= i < claims.len() {
        lemma_claims_frame_len(claims, i + 1);
    }
}

/// Taking one more of the seeded frame appends the next claim's pair.
proof fn lemma_claims_frame_take(claims: Seq<SpecClaim>, i: int)
    requires
        0 <= i < claims.len(),
    ensures
        s_claims_frame(claims, 0).take(i + 1) == s_claims_frame(claims, 0).take(i).push(
            (claims[i].id, claims[i].typ),
        ),
        s_claims_frame(claims, 0).len() == claims.len(),
{
    lemma_claims_frame_len(claims, 0);
    lemma_claims_frame_index(claims, 0, i);
    assert(s_claims_frame(claims, 0).take(i + 1) =~= s_claims_frame(claims, 0).take(i).push(
        (claims[i].id, claims[i].typ),
    ));
}

proof fn lemma_claims_frame_index(claims: Seq<SpecClaim>, start: int, i: int)
    requires
        0 <= start <= i < claims.len(),
    ensures
        s_claims_frame(claims, start).len() == claims.len() - start,
        s_claims_frame(claims, start)[i - start] == (claims[i].id, claims[i].typ),
    decreases claims.len() - start,
{
    lemma_claims_frame_len(claims, start);
    if start < i {
        lemma_claims_frame_index(claims, start + 1, i);
    }
}

} // verus!
