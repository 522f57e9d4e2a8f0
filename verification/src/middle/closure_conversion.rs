//! Closure conversion: a lambda with free variables becomes a closure
//! that captures them, and each captured reference becomes an indexed
//! read out of the closure environment.

use vstd::prelude::*;
use vstd::string::StringExecFns;
use crate::ast::expr::Binding;
use crate::ast::expr::Expr;
use crate::ast::expr::ExprBody;
use crate::ast::expr::Identifier;
use crate::ast::expr::SpecBinding;
use crate::ast::expr::SpecExpr;
use crate::ast::expr::SpecExprBody;
use crate::ast::expr::SpecIdent;
use crate::ast::expr::idents_view;
use crate::ast::expr::spec_lookup_name;
use crate::render::spec_chars_lt;
use crate::render::str_chars_lt;
use crate::render::str_eq;

verus! {

/// The order of identifiers in a variable set: by their lookup names.
pub open spec fn s_key_lt(a: SpecIdent, b: SpecIdent) -> bool {
    spec_chars_lt(spec_lookup_name(a), spec_lookup_name(b))
}

/// Insertion into a variable set kept sorted by lookup name; an
/// identifier whose key is already present is not inserted again.
pub open spec fn s_set_insert(s: Seq<SpecIdent>, x: SpecIdent) -> Seq<SpecIdent>
    decreases s.len(),
{
    if s.len() == 0 {
        seq![x]
    } else if spec_lookup_name(x) == spec_lookup_name(s[0]) {
        s
    } else if s_key_lt(x, s[0]) {
        seq![x] + s
    } else {
        seq![s[0]] + s_set_insert(s.skip(1), x)
    }
}

/// The union of two variable sets: every element of `b` inserted.
pub open spec fn s_set_union(a: Seq<SpecIdent>, b: Seq<SpecIdent>, i: int) -> Seq<SpecIdent>
    decreases b.len() - i,
{
    if i < 0 || i >= b.len() {
        a
    } else {
        s_set_union(s_set_insert(a, b[i]), b, i + 1)
    }
}

/// Whether the set holds an identifier with this lookup name.
pub open spec fn s_set_member(s: Seq<SpecIdent>, key: Seq<char>) -> bool
    decreases s.len(),
{
    if s.len() == 0 {
        false
    } else if spec_lookup_name(s[0]) == key {
        true
    } else {
        s_set_member(s.skip(1), key)
    }
}

/// The elements of `a` whose lookup names do not occur in `b`.
pub open spec fn s_set_diff(a: Seq<SpecIdent>, b: Seq<SpecIdent>) -> Seq<SpecIdent>
    decreases a.len(),
{
    if a.len() == 0 {
        Seq::empty()
    } else if s_set_member(b, spec_lookup_name(a[0])) {
        s_set_diff(a.skip(1), b)
    } else {
        seq![a[0]] + s_set_diff(a.skip(1), b)
    }
}

/// The position of the first element with this lookup name.
pub open spec fn s_set_position(s: Seq<SpecIdent>, key: Seq<char>) -> int
    decreases s.len(),
{
    if s.len() == 0 {
        0
    } else if spec_lookup_name(s[0]) == key {
        0
    } else {
        1 + s_set_position(s.skip(1), key)
    }
}

/// The set of a parameter list's identifiers.
pub open spec fn s_params_set(params: Seq<SpecIdent>, i: int, acc: Seq<SpecIdent>) -> Seq<
    SpecIdent,
>
    decreases params.len() - i,
{
    if i < 0 || i >= params.len() {
        acc
    } else {
        s_params_set(params, i + 1, s_set_insert(acc, params[i]))
    }
}

/// Mirror of `free_variables`: the set of identifiers an expression
/// reads that no construct inside it binds.  `let` clauses hide their
/// binders from the body; a lambda hides its parameters.
pub open spec fn s_free_vars(e: SpecExpr) -> Seq<SpecIdent>
    decreases e, 0int,
{
    match e.body {
        SpecExprBody::Identifier(id) => seq![id],
        SpecExprBody::If(c, t, e2) => s_set_union(
            s_set_union(s_free_vars(*c), s_free_vars(*t), 0),
            s_free_vars(*e2),
            0,
        ),
        SpecExprBody::Let(binds, body) => {
            let names = s_binding_names(binds, 0, Seq::empty());
            let a = s_bindings_free(binds, 0, Seq::empty());
            let b = s_free_vars(*body);
            s_set_union(a, s_set_diff(b, names), 0)
        },
        SpecExprBody::Lambda(params, body) => s_set_diff(
            s_free_vars(*body),
            s_params_set(params, 0, Seq::empty()),
        ),
        SpecExprBody::Begin(mids, last) => s_set_union(
            s_exprs_free(mids, 0, Seq::empty()),
            s_free_vars(*last),
            0,
        ),
        SpecExprBody::App(f, args) => s_exprs_free(args, 0, s_free_vars(*f)),
        SpecExprBody::List(items) => s_exprs_free(items, 0, Seq::empty()),
        SpecExprBody::Pair(a, b) => s_set_union(s_free_vars(*a), s_free_vars(*b), 0),
        SpecExprBody::Object(fields) => s_fields_free(fields, 0, Seq::empty()),
        SpecExprBody::Syntax(inner) => s_free_vars(*inner),
        _ => Seq::empty(),
    }
}

pub open spec fn s_exprs_free(s: Seq<SpecExpr>, i: int, acc: Seq<SpecIdent>) -> Seq<SpecIdent>
    decreases s, 1int, s.len() - i,
{
    if i < 0 || i >= s.len() {
        acc
    } else {
        s_exprs_free(s, i + 1, s_set_union(acc, s_free_vars(s[i]), 0))
    }
}

pub open spec fn s_bindings_free(s: Seq<SpecBinding>, i: int, acc: Seq<SpecIdent>) -> Seq<
    SpecIdent,
>
    decreases s, 1int, s.len() - i,
{
    if i < 0 || i >= s.len() {
        acc
    } else {
        s_bindings_free(s, i + 1, s_set_union(acc, s_free_vars(s[i].expr), 0))
    }
}

pub open spec fn s_binding_names(s: Seq<SpecBinding>, i: int, acc: Seq<SpecIdent>) -> Seq<
    SpecIdent,
>
    decreases s.len() - i,
{
    if i < 0 || i >= s.len() {
        acc
    } else {
        s_binding_names(s, i + 1, s_set_insert(acc, s[i].name))
    }
}

pub open spec fn s_fields_free(
    s: Seq<(Seq<char>, SpecExpr)>,
    i: int,
    acc: Seq<SpecIdent>,
) -> Seq<SpecIdent>
    decreases s, 1int, s.len() - i,
{
    if i < 0 || i >= s.len() {
        acc
    } else {
        s_fields_free(s, i + 1, s_set_union(acc, s_free_vars(s[i].1), 0))
    }
}

fn suffix_copy(v: &Vec<Identifier>, i: usize) -> (r: Vec<Identifier>)
    requires
        i <= v@.len(),
    ensures
        idents_view(r@) == idents_view(v@).skip(i as int),
{
    let n = v.len();
    let mut r: Vec<Identifier> = Vec::new();
    let mut j: usize = i;
    while j < n
        invariant
            i <= j <= n,
            n == v@.len(),
            r@.len() == j - i,
            forall|k: int| 0 <= k < j - i ==> r@[k]@ == v@[i + k]@,
        decreases n - j,
    {
        let d = v[j].duplicate();
        r.push(d);
        j += 1;
    }
    proof {
        assert(idents_view(r@) =~= idents_view(v@).skip(i as int));
    }
    r
}

fn set_insert_from(v: &Vec<Identifier>, x: &Identifier, i: usize) -> (r: Vec<Identifier>)
    requires
        i <= v@.len(),
    ensures
        idents_view(r@) == s_set_insert(idents_view(v@).skip(i as int), x@),
    decreases v@.len() - i,
{
    let ghost sv = idents_view(v@).skip(i as int);
    if i == v.len() {
        let mut r: Vec<Identifier> = Vec::new();
        r.push(x.duplicate());
        proof {
            assert(idents_view(r@) =~= seq![x@]);
        }
        r
    } else {
        proof {
            assert(sv[0] == v@[i as int]@);
            assert(sv.skip(1) =~= idents_view(v@).skip(i as int + 1));
        }
        let kx = x.lookup_name();
        let kv = v[i].lookup_name();
        if str_eq(kx.as_str(), kv.as_str()) {
            let r = suffix_copy(v, i);
            r
        } else if str_chars_lt(kx.as_str(), kv.as_str()) {
            let rest = suffix_copy(v, i);
            let ghost rest_seq = rest@;
            let mut r = rest;
            let d = x.duplicate();
            r.insert(0, d);
            proof {
                assert(idents_view(r@) =~= seq![x@] + idents_view(rest_seq));
            }
            r
        } else {
            let rest = set_insert_from(v, x, i + 1);
            let ghost rest_seq = rest@;
            let mut r = rest;
            let d = v[i].duplicate();
            r.insert(0, d);
            proof {
                assert(idents_view(r@) =~= seq![v@[i as int]@] + idents_view(rest_seq));
            }
            r
        }
    }
}

fn set_union_from(a: Vec<Identifier>, b: &Vec<Identifier>, i: usize) -> (r: Vec<Identifier>)
    requires
        i <= b@.len(),
    ensures
        idents_view(r@) == s_set_union(idents_view(a@), idents_view(b@), i as int),
    decreases b@.len() - i,
{
    proof {
        assert(idents_view(b@)[i as int] == b@[i as int]@ || i as int >= b@.len()) by {
            if (i as int) < b@.len() {
                assert(idents_view(b@)[i as int] == b@[i as int]@);
            }
        }
    }
    if i == b.len() {
        a
    } else {
        let a2 = set_insert_from(&a, &b[i], 0);
        proof {
            assert(idents_view(a@).skip(0) =~= idents_view(a@));
        }
        set_union_from(a2, b, i + 1)
    }
}

fn set_member(v: &Vec<Identifier>, key: &String, i: usize) -> (r: bool)
    requires
        i <= v@.len(),
    ensures
        r == s_set_member(idents_view(v@).skip(i as int), key@),
    decreases v@.len() - i,
{
    let ghost sv = idents_view(v@).skip(i as int);
    if i == v.len() {
        false
    } else {
        proof {
            assert(sv[0] == v@[i as int]@);
            assert(sv.skip(1) =~= idents_view(v@).skip(i as int + 1));
        }
        let k = v[i].lookup_name();
        if k == *key {
            true
        } else {
            set_member(v, key, i + 1)
        }
    }
}

fn set_diff_from(a: &Vec<Identifier>, b: &Vec<Identifier>, i: usize) -> (r: Vec<Identifier>)
    requires
        i <= a@.len(),
    ensures
        idents_view(r@) == s_set_diff(idents_view(a@).skip(i as int), idents_view(b@)),
    decreases a@.len() - i,
{
    let ghost sv = idents_view(a@).skip(i as int);
    if i == a.len() {
        let r: Vec<Identifier> = Vec::new();
        proof {
            assert(idents_view(r@) =~= Seq::<SpecIdent>::empty());
        }
        r
    } else {
        proof {
            assert(sv[0] == a@[i as int]@);
            assert(sv.skip(1) =~= idents_view(a@).skip(i as int + 1));
        }
        let key = a[i].lookup_name();
        proof {
            assert(idents_view(b@).skip(0) =~= idents_view(b@));
        }
        if set_member(b, &key, 0) {
            set_diff_from(a, b, i + 1)
        } else {
            let rest = set_diff_from(a, b, i + 1);
            let ghost rest_seq = rest@;
            let mut r = rest;
            let d = a[i].duplicate();
            r.insert(0, d);
            proof {
                assert(idents_view(r@) =~= seq![a@[i as int]@] + idents_view(rest_seq));
            }
            r
        }
    }
}

fn set_position(v: &Vec<Identifier>, key: &String, i: usize) -> (r: usize)
    requires
        i <= v@.len(),
        s_set_member(idents_view(v@).skip(i as int), key@),
    ensures
        r as int == s_set_position(idents_view(v@).skip(i as int), key@),
        r < v@.len() - i,
    decreases v@.len() - i,
{
    let ghost sv = idents_view(v@).skip(i as int);
    let n = v.len();
    proof {
        assert(sv.len() > 0);
        assert(i < n);
        assert(sv[0] == v@[i as int]@);
        assert(sv.skip(1) =~= idents_view(v@).skip(i as int + 1));
    }
    let k = v[i].lookup_name();
    if k == *key {
        0
    } else {
        let rest = set_position(v, key, i + 1);
        rest + 1
    }
}

/// An empty variable set.
fn empty_set() -> (r: Vec<Identifier>)
    ensures
        idents_view(r@) == Seq::<SpecIdent>::empty(),
{
    let r: Vec<Identifier> = Vec::new();
    proof {
        assert(idents_view(r@) =~= Seq::<SpecIdent>::empty());
    }
    r
}

/// The set of identifiers an expression reads that nothing inside it
/// binds, ordered by lookup name.
pub fn free_variables(e: &Expr) -> (r: Vec<Identifier>)
    ensures
        idents_view(r@) == s_free_vars(e@),
    decreases *e, 0int,
{
    match &e.body {
        ExprBody::Identifier(id) => {
            let mut r: Vec<Identifier> = Vec::new();
            r.push(id.duplicate());
            proof {
                assert(idents_view(r@) =~= seq![id@]);
            }
            r
        },
        ExprBody::If(c, t, e2) => {
            let fc = free_variables(c);
            let ft = free_variables(t);
            let fe = free_variables(e2);
            proof {
                assert(idents_view(ft@).skip(0) =~= idents_view(ft@));
                assert(idents_view(fe@).skip(0) =~= idents_view(fe@));
            }
            let a = set_union_from(fc, &ft, 0);
            set_union_from(a, &fe, 0)
        },
        ExprBody::Let(binds, body) => {
            let names = binding_names(binds, 0, empty_set());
            let a = bindings_free(binds, 0, empty_set());
            let b = free_variables(body);
            proof {
                assert(idents_view(b@).skip(0) =~= idents_view(b@));
            }
            let hidden = set_diff_from(&b, &names, 0);
            proof {
                assert(idents_view(hidden@).skip(0) =~= idents_view(hidden@));
            }
            set_union_from(a, &hidden, 0)
        },
        ExprBody::Lambda(params, body) => {
            let fb = free_variables(body);
            let pset = params_set(params, 0, empty_set());
            proof {
                assert(idents_view(fb@).skip(0) =~= idents_view(fb@));
            }
            set_diff_from(&fb, &pset, 0)
        },
        ExprBody::Begin(mids, last) => {
            let a = exprs_free(mids, 0, empty_set());
            let fl = free_variables(last);
            proof {
                assert(idents_view(fl@).skip(0) =~= idents_view(fl@));
            }
            set_union_from(a, &fl, 0)
        },
        ExprBody::App(f, args) => {
            let ff = free_variables(f);
            exprs_free(args, 0, ff)
        },
        ExprBody::List(items) => exprs_free(items, 0, empty_set()),
        ExprBody::Pair(a, b) => {
            let fa = free_variables(a);
            let fb = free_variables(b);
            proof {
                assert(idents_view(fb@).skip(0) =~= idents_view(fb@));
            }
            set_union_from(fa, &fb, 0)
        },
        ExprBody::Object(fields) => fields_free(fields, 0, empty_set()),
        ExprBody::Syntax(inner) => free_variables(inner),
        _ => {
            let r: Vec<Identifier> = Vec::new();
            proof {
                assert(idents_view(r@) =~= Seq::<SpecIdent>::empty());
            }
            r
        },
    }
}

fn exprs_free(s: &Vec<Expr>, i: usize, acc: Vec<Identifier>) -> (r: Vec<Identifier>)
    requires
        i <= s@.len(),
    ensures
        idents_view(r@) == s_exprs_free(
            crate::ast::expr::exprs_view(s@),
            i as int,
            idents_view(acc@),
        ),
    decreases *s, 1int, s@.len() - i,
{
    proof {
        crate::ast::expr::lemma_exprs_view_index(s@);
    }
    if i == s.len() {
        acc
    } else {
        let fe = free_variables(&s[i]);
        proof {
            assert(idents_view(fe@).skip(0) =~= idents_view(fe@));
        }
        let acc2 = set_union_from(acc, &fe, 0);
        exprs_free(s, i + 1, acc2)
    }
}

fn bindings_free(s: &Vec<Binding>, i: usize, acc: Vec<Identifier>) -> (r: Vec<Identifier>)
    requires
        i <= s@.len(),
    ensures
        idents_view(r@) == s_bindings_free(
            crate::ast::expr::bindings_view(s@),
            i as int,
            idents_view(acc@),
        ),
    decreases *s, 1int, s@.len() - i,
{
    proof {
        crate::ast::expr::lemma_bindings_view_index(s@);
    }
    if i == s.len() {
        acc
    } else {
        let fe = free_variables(&s[i].expr);
        proof {
            assert(idents_view(fe@).skip(0) =~= idents_view(fe@));
        }
        let acc2 = set_union_from(acc, &fe, 0);
        bindings_free(s, i + 1, acc2)
    }
}

fn binding_names(s: &Vec<Binding>, i: usize, acc: Vec<Identifier>) -> (r: Vec<Identifier>)
    requires
        i <= s@.len(),
    ensures
        idents_view(r@) == s_binding_names(
            crate::ast::expr::bindings_view(s@),
            i as int,
            idents_view(acc@),
        ),
    decreases s@.len() - i,
{
    proof {
        crate::ast::expr::lemma_bindings_view_index(s@);
    }
    if i == s.len() {
        acc
    } else {
        proof {
            assert(idents_view(acc@).skip(0) =~= idents_view(acc@));
        }
        let acc2 = set_insert_from(&acc, &s[i].name, 0);
        binding_names(s, i + 1, acc2)
    }
}

fn params_set(s: &Vec<Identifier>, i: usize, acc: Vec<Identifier>) -> (r: Vec<Identifier>)
    requires
        i <= s@.len(),
    ensures
        idents_view(r@) == s_params_set(idents_view(s@), i as int, idents_view(acc@)),
    decreases s@.len() - i,
{
    if i == s.len() {
        acc
    } else {
        proof {
            assert(idents_view(acc@).skip(0) =~= idents_view(acc@));
            assert(idents_view(s@)[i as int] == s@[i as int]@);
        }
        let acc2 = set_insert_from(&acc, &s[i], 0);
        params_set(s, i + 1, acc2)
    }
}

fn fields_free(s: &Vec<(String, Expr)>, i: usize, acc: Vec<Identifier>) -> (r: Vec<Identifier>)
    requires
        i <= s@.len(),
    ensures
        idents_view(r@) == s_fields_free(
            crate::ast::expr::object_exprs_view(s@),
            i as int,
            idents_view(acc@),
        ),
    decreases *s, 1int, s@.len() - i,
{
    proof {
        crate::ast::expr::lemma_object_exprs_view_index(s@);
    }
    if i == s.len() {
        acc
    } else {
        let fe = free_variables(&s[i].1);
        proof {
            assert(idents_view(fe@).skip(0) =~= idents_view(fe@));
        }
        let acc2 = set_union_from(acc, &fe, 0);
        fields_free(s, i + 1, acc2)
    }
}

} // verus!

verus! {

/// Mirror of `closure_conversion`: a lambda whose body reads free
/// variables becomes a closure capturing exactly those variables, with
/// the captured references replaced by indexed environment reads;
/// every other construct is rebuilt with converted children.
pub open spec fn s_closure_conversion(e: SpecExpr) -> SpecExpr
    decreases e, 0int,
{
    match e.body {
        SpecExprBody::Lambda(params, body) => {
            let freevars = s_free_vars(*body);
            if freevars.len() == 0 {
                SpecExpr {
                    span: e.span,
                    body: SpecExprBody::Lambda(params, Box::new(s_closure_conversion(*body))),
                }
            } else {
                SpecExpr {
                    span: e.span,
                    body: SpecExprBody::Closure(
                        Box::new(
                            SpecExpr {
                                span: e.span,
                                body: SpecExprBody::Lambda(
                                    params,
                                    Box::new(s_replace_free(*body, freevars)),
                                ),
                            },
                        ),
                        freevars,
                    ),
                }
            }
        },
        SpecExprBody::If(c, t, e2) => SpecExpr {
            span: e.span,
            body: SpecExprBody::If(
                Box::new(s_closure_conversion(*c)),
                Box::new(s_closure_conversion(*t)),
                Box::new(s_closure_conversion(*e2)),
            ),
        },
        SpecExprBody::Begin(mids, last) => SpecExpr {
            span: e.span,
            body: SpecExprBody::Begin(s_cc_list(mids, 0), Box::new(s_closure_conversion(*last))),
        },
        SpecExprBody::Let(binds, body) => SpecExpr {
            span: e.span,
            body: SpecExprBody::Let(s_cc_bindings(binds, 0), Box::new(s_closure_conversion(*body))),
        },
        SpecExprBody::App(f, args) => SpecExpr {
            span: e.span,
            body: SpecExprBody::App(Box::new(s_closure_conversion(*f)), s_cc_list(args, 0)),
        },
        SpecExprBody::List(items) => SpecExpr {
            span: e.span,
            body: SpecExprBody::List(s_cc_list(items, 0)),
        },
        SpecExprBody::Pair(a, b) => SpecExpr {
            span: e.span,
            body: SpecExprBody::Pair(
                Box::new(s_closure_conversion(*a)),
                Box::new(s_closure_conversion(*b)),
            ),
        },
        SpecExprBody::Object(fields) => SpecExpr {
            span: e.span,
            body: SpecExprBody::Object(s_cc_fields(fields, 0)),
        },
        SpecExprBody::Syntax(inner) => SpecExpr {
            span: e.span,
            body: SpecExprBody::Syntax(Box::new(s_closure_conversion(*inner))),
        },
        _ => e,
    }
}

/// Mirror of `replace_free`: a reference to one of the captured
/// variables becomes an indexed environment read; a nested lambda goes
/// back through closure conversion for its own captures.
pub open spec fn s_replace_free(e: SpecExpr, fvs: Seq<SpecIdent>) -> SpecExpr
    decreases e, 1int,
{
    match e.body {
        SpecExprBody::Lambda(params, body) => s_closure_conversion(e),
        SpecExprBody::Identifier(id) => if s_set_member(fvs, spec_lookup_name(id)) {
            SpecExpr {
                span: e.span,
                body: SpecExprBody::ClosureEnvGet(
                    s_set_position(fvs, spec_lookup_name(id)) as nat,
                ),
            }
        } else {
            e
        },
        SpecExprBody::If(c, t, e2) => SpecExpr {
            span: e.span,
            body: SpecExprBody::If(
                Box::new(s_replace_free(*c, fvs)),
                Box::new(s_replace_free(*t, fvs)),
                Box::new(s_replace_free(*e2, fvs)),
            ),
        },
        SpecExprBody::Begin(mids, last) => SpecExpr {
            span: e.span,
            body: SpecExprBody::Begin(
                s_replace_list(mids, fvs, 0),
                Box::new(s_replace_free(*last, fvs)),
            ),
        },
        SpecExprBody::Let(binds, body) => SpecExpr {
            span: e.span,
            body: SpecExprBody::Let(
                s_replace_bindings(binds, fvs, 0),
                Box::new(s_replace_free(*body, fvs)),
            ),
        },
        SpecExprBody::App(f, args) => SpecExpr {
            span: e.span,
            body: SpecExprBody::App(
                Box::new(s_replace_free(*f, fvs)),
                s_replace_list(args, fvs, 0),
            ),
        },
        SpecExprBody::List(items) => SpecExpr {
            span: e.span,
            body: SpecExprBody::List(s_replace_list(items, fvs, 0)),
        },
        SpecExprBody::Pair(a, b) => SpecExpr {
            span: e.span,
            body: SpecExprBody::Pair(
                Box::new(s_replace_free(*a, fvs)),
                Box::new(s_replace_free(*b, fvs)),
            ),
        },
        SpecExprBody::Object(fields) => SpecExpr {
            span: e.span,
            body: SpecExprBody::Object(s_replace_fields(fields, fvs, 0)),
        },
        SpecExprBody::Syntax(inner) => SpecExpr {
            span: e.span,
            body: SpecExprBody::Syntax(Box::new(s_replace_free(*inner, fvs))),
        },
        _ => e,
    }
}

pub open spec fn s_cc_list(s: Seq<SpecExpr>, i: int) -> Seq<SpecExpr>
    decreases s, 2int, s.len() - i,
{
    if i < 0 || i >= s.len() {
        Seq::empty()
    } else {
        seq![s_closure_conversion(s[i])] + s_cc_list(s, i + 1)
    }
}

pub open spec fn s_cc_bindings(s: Seq<SpecBinding>, i: int) -> Seq<SpecBinding>
    decreases s, 2int, s.len() - i,
{
    if i < 0 || i >= s.len() {
        Seq::empty()
    } else {
        seq![
            SpecBinding {
                name: s[i].name,
                typ: s[i].typ,
                expr: s_closure_conversion(s[i].expr),
            },
        ] + s_cc_bindings(s, i + 1)
    }
}

pub open spec fn s_cc_fields(s: Seq<(Seq<char>, SpecExpr)>, i: int) -> Seq<(Seq<char>, SpecExpr)>
    decreases s, 2int, s.len() - i,
{
    if i < 0 || i >= s.len() {
        Seq::empty()
    } else {
        seq![(s[i].0, s_closure_conversion(s[i].1))] + s_cc_fields(s, i + 1)
    }
}

pub open spec fn s_replace_list(s: Seq<SpecExpr>, fvs: Seq<SpecIdent>, i: int) -> Seq<SpecExpr>
    decreases s, 2int, s.len() - i,
{
    if i < 0 || i >= s.len() {
        Seq::empty()
    } else {
        seq![s_replace_free(s[i], fvs)] + s_replace_list(s, fvs, i + 1)
    }
}

pub open spec fn s_replace_bindings(
    s: Seq<SpecBinding>,
    fvs: Seq<SpecIdent>,
    i: int,
) -> Seq<SpecBinding>
    decreases s, 2int, s.len() - i,
{
    if i < 0 || i >= s.len() {
        Seq::empty()
    } else {
        seq![
            SpecBinding {
                name: s[i].name,
                typ: s[i].typ,
                expr: s_replace_free(s[i].expr, fvs),
            },
        ] + s_replace_bindings(s, fvs, i + 1)
    }
}

pub open spec fn s_replace_fields(
    s: Seq<(Seq<char>, SpecExpr)>,
    fvs: Seq<SpecIdent>,
    i: int,
) -> Seq<(Seq<char>, SpecExpr)>
    decreases s, 2int, s.len() - i,
{
    if i < 0 || i >= s.len() {
        Seq::empty()
    } else {
        seq![(s[i].0, s_replace_free(s[i].1, fvs))] + s_replace_fields(s, fvs, i + 1)
    }
}

} // verus!

verus! {

/// Converts one expression: a lambda whose body reads free variables
/// becomes a closure capturing them, with the captured references
/// replaced by indexed environment reads.
pub fn closure_conversion(e: &Expr) -> (r: Expr)
    ensures
        r@ == s_closure_conversion(e@),
    decreases *e, 0int,
{
    match &e.body {
        ExprBody::Lambda(params, body) => {
            let freevars = free_variables(body);
            if freevars.len() == 0 {
                proof {
                    assert(s_free_vars(body@).len() == 0);
                }
                let converted = closure_conversion(body);
                Expr {
                    span: e.span.duplicate(),
                    body: ExprBody::Lambda(
                        crate::ast::expr::idents_duplicate(params),
                        Box::new(converted),
                    ),
                }
            } else {
                proof {
                    assert(s_free_vars(body@).len() != 0);
                    assert(s_closure_conversion(e@).body is Closure);
                }
                let replaced = replace_free(body, &freevars);
                let lam = Expr {
                    span: e.span.duplicate(),
                    body: ExprBody::Lambda(
                        crate::ast::expr::idents_duplicate(params),
                        Box::new(replaced),
                    ),
                };
                proof {
                    assert(lam@.span == e@.span);
                    assert(lam@.body == s_closure_conversion(e@).body->Closure_0.body);
                    assert(lam@ == *s_closure_conversion(e@).body->Closure_0);
                }
                Expr {
                    span: e.span.duplicate(),
                    body: ExprBody::Closure(Box::new(lam), freevars),
                }
            }
        },
        ExprBody::If(c, t, e2) => {
            let rc = closure_conversion(c);
            let rt = closure_conversion(t);
            let re = closure_conversion(e2);
            Expr {
                span: e.span.duplicate(),
                body: ExprBody::If(Box::new(rc), Box::new(rt), Box::new(re)),
            }
        },
        ExprBody::Begin(mids, last) => {
            let rm = cc_list(mids, 0);
            let rl = closure_conversion(last);
            Expr { span: e.span.duplicate(), body: ExprBody::Begin(rm, Box::new(rl)) }
        },
        ExprBody::Let(binds, body) => {
            let rb = cc_bindings(binds, 0);
            let rbody = closure_conversion(body);
            Expr { span: e.span.duplicate(), body: ExprBody::Let(rb, Box::new(rbody)) }
        },
        ExprBody::App(f, args) => {
            let rf = closure_conversion(f);
            let ra = cc_list(args, 0);
            Expr { span: e.span.duplicate(), body: ExprBody::App(Box::new(rf), ra) }
        },
        ExprBody::List(items) => {
            let ri = cc_list(items, 0);
            Expr { span: e.span.duplicate(), body: ExprBody::List(ri) }
        },
        ExprBody::Pair(a, b) => {
            let ra = closure_conversion(a);
            let rb = closure_conversion(b);
            Expr { span: e.span.duplicate(), body: ExprBody::Pair(Box::new(ra), Box::new(rb)) }
        },
        ExprBody::Object(fields) => {
            let rf = cc_fields(fields, 0);
            Expr { span: e.span.duplicate(), body: ExprBody::Object(rf) }
        },
        ExprBody::Syntax(inner) => {
            let ri = closure_conversion(inner);
            Expr { span: e.span.duplicate(), body: ExprBody::Syntax(Box::new(ri)) }
        },
        _ => e.duplicate(),
    }
}

/// Rewrites references to the captured variables into indexed
/// environment reads; a nested lambda goes back through closure
/// conversion.
pub fn replace_free(e: &Expr, freevars: &Vec<Identifier>) -> (r: Expr)
    ensures
        r@ == s_replace_free(e@, idents_view(freevars@)),
    decreases *e, 1int,
{
    let ghost fvs = idents_view(freevars@);
    match &e.body {
        ExprBody::Lambda(params, body) => closure_conversion(e),
        ExprBody::Identifier(id) => {
            let key = id.lookup_name();
            proof {
                assert(idents_view(freevars@).skip(0) =~= idents_view(freevars@));
            }
            if set_member(freevars, &key, 0) {
                let index = set_position(freevars, &key, 0);
                Expr { span: e.span.duplicate(), body: ExprBody::ClosureEnvGet(index) }
            } else {
                e.duplicate()
            }
        },
        ExprBody::If(c, t, e2) => {
            let rc = replace_free(c, freevars);
            let rt = replace_free(t, freevars);
            let re = replace_free(e2, freevars);
            Expr {
                span: e.span.duplicate(),
                body: ExprBody::If(Box::new(rc), Box::new(rt), Box::new(re)),
            }
        },
        ExprBody::Begin(mids, last) => {
            let rm = replace_list(mids, freevars, 0);
            let rl = replace_free(last, freevars);
            Expr { span: e.span.duplicate(), body: ExprBody::Begin(rm, Box::new(rl)) }
        },
        ExprBody::Let(binds, body) => {
            let rb = replace_bindings(binds, freevars, 0);
            let rbody = replace_free(body, freevars);
            Expr { span: e.span.duplicate(), body: ExprBody::Let(rb, Box::new(rbody)) }
        },
        ExprBody::App(f, args) => {
            let rf = replace_free(f, freevars);
            let ra = replace_list(args, freevars, 0);
            Expr { span: e.span.duplicate(), body: ExprBody::App(Box::new(rf), ra) }
        },
        ExprBody::List(items) => {
            let ri = replace_list(items, freevars, 0);
            Expr { span: e.span.duplicate(), body: ExprBody::List(ri) }
        },
        ExprBody::Pair(a, b) => {
            let ra = replace_free(a, freevars);
            let rb = replace_free(b, freevars);
            Expr { span: e.span.duplicate(), body: ExprBody::Pair(Box::new(ra), Box::new(rb)) }
        },
        ExprBody::Object(fields) => {
            let rf = replace_fields(fields, freevars, 0);
            Expr { span: e.span.duplicate(), body: ExprBody::Object(rf) }
        },
        ExprBody::Syntax(inner) => {
            let ri = replace_free(inner, freevars);
            Expr { span: e.span.duplicate(), body: ExprBody::Syntax(Box::new(ri)) }
        },
        _ => e.duplicate(),
    }
}

fn cc_list(v: &Vec<Expr>, i: usize) -> (r: Vec<Expr>)
    requires
        i <= v@.len(),
    ensures
        crate::ast::expr::exprs_view(r@) == s_cc_list(crate::ast::expr::exprs_view(v@), i as int),
    decreases *v, 2int, v@.len() - i,
{
    proof {
        crate::ast::expr::lemma_exprs_view_index(v@);
    }
    if i == v.len() {
        let r: Vec<Expr> = Vec::new();
        proof {
            assert(crate::ast::expr::exprs_view(r@) =~= Seq::<SpecExpr>::empty());
        }
        r
    } else {
        let head = closure_conversion(&v[i]);
        let rest = cc_list(v, i + 1);
        let ghost rest_seq = rest@;
        let ghost head_v = head@;
        let mut r = rest;
        r.insert(0, head);
        proof {
            crate::ast::expr::lemma_exprs_view_index(r@);
            crate::ast::expr::lemma_exprs_view_index(rest_seq);
            assert(crate::ast::expr::exprs_view(r@) =~= seq![head_v]
                + crate::ast::expr::exprs_view(rest_seq)) by {
                assert forall|k: int|
                    0 <= k < r@.len() implies crate::ast::expr::exprs_view(r@)[k] == (seq![head_v]
                    + crate::ast::expr::exprs_view(rest_seq))[k] by {
                    if k > 0 {
                        assert(r@[k] == rest_seq[k - 1]);
                    }
                }
            }
        }
        r
    }
}

fn cc_bindings(v: &Vec<Binding>, i: usize) -> (r: Vec<Binding>)
    requires
        i <= v@.len(),
    ensures
        crate::ast::expr::bindings_view(r@) == s_cc_bindings(
            crate::ast::expr::bindings_view(v@),
            i as int,
        ),
    decreases *v, 2int, v@.len() - i,
{
    proof {
        crate::ast::expr::lemma_bindings_view_index(v@);
    }
    if i == v.len() {
        let r: Vec<Binding> = Vec::new();
        proof {
            assert(crate::ast::expr::bindings_view(r@) =~= Seq::<SpecBinding>::empty());
        }
        r
    } else {
        let head = Binding {
            name: v[i].name.duplicate(),
            typ: v[i].typ.duplicate(),
            expr: closure_conversion(&v[i].expr),
        };
        let rest = cc_bindings(v, i + 1);
        let ghost rest_seq = rest@;
        let ghost head_v = head@;
        let mut r = rest;
        r.insert(0, head);
        proof {
            crate::ast::expr::lemma_bindings_view_index(r@);
            crate::ast::expr::lemma_bindings_view_index(rest_seq);
            assert(crate::ast::expr::bindings_view(r@) =~= seq![head_v]
                + crate::ast::expr::bindings_view(rest_seq)) by {
                assert forall|k: int|
                    0 <= k < r@.len() implies crate::ast::expr::bindings_view(r@)[k] == (seq![
                    head_v,
                ] + crate::ast::expr::bindings_view(rest_seq))[k] by {
                    if k > 0 {
                        assert(r@[k] == rest_seq[k - 1]);
                    }
                }
            }
        }
        r
    }
}

fn cc_fields(v: &Vec<(String, Expr)>, i: usize) -> (r: Vec<(String, Expr)>)
    requires
        i <= v@.len(),
    ensures
        crate::ast::expr::object_exprs_view(r@) == s_cc_fields(
            crate::ast::expr::object_exprs_view(v@),
            i as int,
        ),
    decreases *v, 2int, v@.len() - i,
{
    proof {
        crate::ast::expr::lemma_object_exprs_view_index(v@);
    }
    if i == v.len() {
        let r: Vec<(String, Expr)> = Vec::new();
        proof {
            assert(crate::ast::expr::object_exprs_view(r@) =~= Seq::<(Seq<char>, SpecExpr)>::empty());
        }
        r
    } else {
        let head = (v[i].0.clone(), closure_conversion(&v[i].1));
        let rest = cc_fields(v, i + 1);
        let ghost rest_seq = rest@;
        let ghost head_v = (head.0@, crate::ast::expr::expr_view(head.1));
        let mut r = rest;
        r.insert(0, head);
        proof {
            crate::ast::expr::lemma_object_exprs_view_index(r@);
            crate::ast::expr::lemma_object_exprs_view_index(rest_seq);
            assert(crate::ast::expr::object_exprs_view(r@) =~= seq![head_v]
                + crate::ast::expr::object_exprs_view(rest_seq)) by {
                assert forall|k: int|
                    0 <= k < r@.len() implies crate::ast::expr::object_exprs_view(r@)[k] == (seq![
                    head_v,
                ] + crate::ast::expr::object_exprs_view(rest_seq))[k] by {
                    if k > 0 {
                        assert(r@[k] == rest_seq[k - 1]);
                    }
                }
            }
        }
        r
    }
}

fn replace_list(v: &Vec<Expr>, freevars: &Vec<Identifier>, i: usize) -> (r: Vec<Expr>)
    requires
        i <= v@.len(),
    ensures
        crate::ast::expr::exprs_view(r@) == s_replace_list(
            crate::ast::expr::exprs_view(v@),
            idents_view(freevars@),
            i as int,
        ),
    decreases *v, 2int, v@.len() - i,
{
    proof {
        crate::ast::expr::lemma_exprs_view_index(v@);
    }
    if i == v.len() {
        let r: Vec<Expr> = Vec::new();
        proof {
            assert(crate::ast::expr::exprs_view(r@) =~= Seq::<SpecExpr>::empty());
        }
        r
    } else {
        let head = replace_free(&v[i], freevars);
        let rest = replace_list(v, freevars, i + 1);
        let ghost rest_seq = rest@;
        let ghost head_v = head@;
        let mut r = rest;
        r.insert(0, head);
        proof {
            crate::ast::expr::lemma_exprs_view_index(r@);
            crate::ast::expr::lemma_exprs_view_index(rest_seq);
            assert(crate::ast::expr::exprs_view(r@) =~= seq![head_v]
                + crate::ast::expr::exprs_view(rest_seq)) by {
                assert forall|k: int|
                    0 <= k < r@.len() implies crate::ast::expr::exprs_view(r@)[k] == (seq![head_v]
                    + crate::ast::expr::exprs_view(rest_seq))[k] by {
                    if k > 0 {
                        assert(r@[k] == rest_seq[k - 1]);
                    }
                }
            }
        }
        r
    }
}

fn replace_bindings(v: &Vec<Binding>, freevars: &Vec<Identifier>, i: usize) -> (r: Vec<Binding>)
    requires
        i <= v@.len(),
    ensures
        crate::ast::expr::bindings_view(r@) == s_replace_bindings(
            crate::ast::expr::bindings_view(v@),
            idents_view(freevars@),
            i as int,
        ),
    decreases *v, 2int, v@.len() - i,
{
    proof {
        crate::ast::expr::lemma_bindings_view_index(v@);
    }
    if i == v.len() {
        let r: Vec<Binding> = Vec::new();
        proof {
            assert(crate::ast::expr::bindings_view(r@) =~= Seq::<SpecBinding>::empty());
        }
        r
    } else {
        let head = Binding {
            name: v[i].name.duplicate(),
            typ: v[i].typ.duplicate(),
            expr: replace_free(&v[i].expr, freevars),
        };
        let rest = replace_bindings(v, freevars, i + 1);
        let ghost rest_seq = rest@;
        let ghost head_v = head@;
        let mut r = rest;
        r.insert(0, head);
        proof {
            crate::ast::expr::lemma_bindings_view_index(r@);
            crate::ast::expr::lemma_bindings_view_index(rest_seq);
            assert(crate::ast::expr::bindings_view(r@) =~= seq![head_v]
                + crate::ast::expr::bindings_view(rest_seq)) by {
                assert forall|k: int|
                    0 <= k < r@.len() implies crate::ast::expr::bindings_view(r@)[k] == (seq![
                    head_v,
                ] + crate::ast::expr::bindings_view(rest_seq))[k] by {
                    if k > 0 {
                        assert(r@[k] == rest_seq[k - 1]);
                    }
                }
            }
        }
        r
    }
}

fn replace_fields(v: &Vec<(String, Expr)>, freevars: &Vec<Identifier>, i: usize) -> (r: Vec<
    (String, Expr),
>)
    requires
        i <= v@.len(),
    ensures
        crate::ast::expr::object_exprs_view(r@) == s_replace_fields(
            crate::ast::expr::object_exprs_view(v@),
            idents_view(freevars@),
            i as int,
        ),
    decreases *v, 2int, v@.len() - i,
{
    proof {
        crate::ast::expr::lemma_object_exprs_view_index(v@);
    }
    if i == v.len() {
        let r: Vec<(String, Expr)> = Vec::new();
        proof {
            assert(crate::ast::expr::object_exprs_view(r@) =~= Seq::<(Seq<char>, SpecExpr)>::empty());
        }
        r
    } else {
        let head = (v[i].0.clone(), replace_free(&v[i].1, freevars));
        let rest = replace_fields(v, freevars, i + 1);
        let ghost rest_seq = rest@;
        let ghost head_v = (head.0@, crate::ast::expr::expr_view(head.1));
        let mut r = rest;
        r.insert(0, head);
        proof {
            crate::ast::expr::lemma_object_exprs_view_index(r@);
            crate::ast::expr::lemma_object_exprs_view_index(rest_seq);
            assert(crate::ast::expr::object_exprs_view(r@) =~= seq![head_v]
                + crate::ast::expr::object_exprs_view(rest_seq)) by {
                assert forall|k: int|
                    0 <= k < r@.len() implies crate::ast::expr::object_exprs_view(r@)[k] == (seq![
                    head_v,
                ] + crate::ast::expr::object_exprs_view(rest_seq))[k] by {
                    if k > 0 {
                        assert(r@[k] == rest_seq[k - 1]);
                    }
                }
            }
        }
        r
    }
}

} // verus!
