use hygiene::ast::expr::{ExprBody, Identifier};
use hygiene::ast::{DefineForm, Module, ReportSpan};
use hygiene::diagnostic::CompileError;
use hygiene::expander::scope::{Scope, ScopeSet};
use hygiene::expander::{expand_module, Expander, ScopeStack};
use hygiene::notation::{Notation, NotationBody};

fn span(s: usize, e: usize) -> ReportSpan {
    ReportSpan::new("test.ss".to_string(), s, e)
}

fn ident(name: &str, s: usize, e: usize) -> Notation {
    Notation { span: span(s, e), body: NotationBody::Identifier(name.to_string()) }
}

fn int_lit(v: i64, s: usize, e: usize) -> Notation {
    Notation { span: span(s, e), body: NotationBody::Int(v) }
}

fn list(elems: Vec<Notation>, s: usize, e: usize) -> Notation {
    Notation { span: span(s, e), body: NotationBody::List(elems) }
}

fn test_expander() -> Expander {
    Expander::new(Module::new(("test.ss".to_string(), String::new())))
}

fn scope_set(scopes: Vec<Scope>) -> ScopeSet {
    let mut set = ScopeSet::new();
    for s in scopes {
        set.insert(s);
    }
    set
}

#[test]
fn test_scopes_set_1() {
    let mut ex = test_expander();

    let mut scopes = ScopeSet::new();
    ex.insert_binding(&"b".to_string(), scopes.clone());
    let outer_scopes = scopes.clone();
    scopes.insert(Scope::Let(0));
    let name = "a".to_string();
    ex.insert_binding(&name, scopes.clone());
    scopes.insert(Scope::Let(1));
    ex.insert_binding(&name, scopes.clone());
    match ex.lookup_newname(&name, scopes.clone()) {
        Some(ExprBody::Identifier(id)) => assert_eq!(id.to_text(), "a{let_1, let_0}"),
        _ => panic!("expected a resolved identifier"),
    }
    match ex.lookup_newname(&"b".to_string(), outer_scopes.clone()) {
        Some(ExprBody::Identifier(id)) => assert_eq!(id.to_text(), "b"),
        _ => panic!("expected a resolved identifier"),
    }
}

#[test]
fn test_scopes_set_2() {
    let mut ex = test_expander();

    let mut scopes = ScopeSet::new();
    scopes.insert(Scope::Let(0));
    let outer_scopes = scopes.clone();
    let name = "a".to_string();
    ex.insert_binding(&name, scopes.clone());
    scopes.insert(Scope::Let(1));
    ex.insert_binding(&name, scopes.clone());
    match ex.lookup_newname(&name, outer_scopes.clone()) {
        Some(ExprBody::Identifier(id)) => assert_eq!(id.to_text(), "a{let_0}"),
        _ => panic!("expected a resolved identifier"),
    }
}

#[test]
fn test_define_forms() {
    // (define g (lambda (x) 1))
    // (define (f x) x)
    let def_g = list(
        vec![
            ident("define", 10, 16),
            ident("g", 17, 18),
            list(
                vec![
                    ident("lambda", 20, 26),
                    list(vec![ident("x", 28, 29)], 27, 30),
                    int_lit(1, 31, 32),
                ],
                19,
                33,
            ),
        ],
        9,
        34,
    );
    let def_f = list(
        vec![
            ident("define", 44, 50),
            list(vec![ident("f", 51, 52), ident("x", 53, 54)], 50, 55),
            ident("x", 57, 58),
        ],
        43,
        59,
    );

    let mut ex = test_expander();
    let stack = ScopeStack::module("test".to_string());
    ex.expand_top_level(&stack, &def_g).unwrap();
    ex.expand_top_level(&stack, &def_f).unwrap();

    let g_scopes = scope_set(vec![Scope::Module("test".to_string()), Scope::Lambda(0)]);
    match &ex.module.define_forms[0] {
        DefineForm::DefineFunction { span, id, params, body } => {
            assert_eq!(span.start(), 9);
            assert_eq!(span.end(), 34);
            assert_eq!(*id, Identifier::Simple("g".to_string()));
            assert_eq!(
                *params,
                vec![Identifier::Normal { written_name: "x".to_string(), scopes: g_scopes }]
            );
            match &body.body {
                ExprBody::Begin(mids, last) => {
                    assert!(mids.is_empty());
                    assert!(matches!(last.body, ExprBody::Int(1)));
                    assert_eq!(last.span.start(), 31);
                    assert_eq!(last.span.end(), 32);
                },
                _ => panic!("expected a begin body"),
            }
        },
        _ => panic!("expected a function definition"),
    }

    // The shorthand allocates its own fresh lambda scope, the next one
    // of the run.
    let f_scopes = scope_set(vec![Scope::Module("test".to_string()), Scope::Lambda(1)]);
    match &ex.module.define_forms[1] {
        DefineForm::DefineFunction { span, id, params, body } => {
            assert_eq!(span.start(), 43);
            assert_eq!(span.end(), 59);
            assert_eq!(*id, Identifier::Simple("f".to_string()));
            assert_eq!(
                *params,
                vec![Identifier::Normal {
                    written_name: "x".to_string(),
                    scopes: f_scopes.clone()
                }]
            );
            match &body.body {
                ExprBody::Begin(mids, last) => {
                    assert!(mids.is_empty());
                    match &last.body {
                        ExprBody::Identifier(id2) => {
                            assert_eq!(
                                *id2,
                                Identifier::Normal {
                                    written_name: "x".to_string(),
                                    scopes: f_scopes,
                                }
                            );
                        },
                        _ => panic!("expected the body to be the parameter reference"),
                    }
                },
                _ => panic!("expected a begin body"),
            }
        },
        _ => panic!("expected a function definition"),
    }
}

#[test]
fn hygiene_shadowing_resolves_rhs_in_parent_scope() {
    // (let ([x 1]) (let ([x x]) x))
    let program = list(
        vec![
            ident("let", 1, 4),
            list(vec![list(vec![ident("x", 7, 8), int_lit(1, 9, 10)], 6, 11)], 5, 12),
            list(
                vec![
                    ident("let", 14, 17),
                    list(vec![list(vec![ident("x", 20, 21), ident("x", 22, 23)], 19, 24)], 18, 25),
                    ident("x", 26, 27),
                ],
                13,
                28,
            ),
        ],
        0,
        29,
    );
    let mut ex = test_expander();
    let stack = ScopeStack::module("test".to_string());
    let expanded = ex.expand_expr(&stack, &program).unwrap();

    let outer_scopes = scope_set(vec![Scope::Module("test".to_string()), Scope::Let(0)]);
    let inner_scopes = scope_set(
        vec![Scope::Module("test".to_string()), Scope::Let(0), Scope::Let(1)],
    );
    let outer_binder = Identifier::Normal { written_name: "x".to_string(), scopes: outer_scopes };
    let inner_binder = Identifier::Normal { written_name: "x".to_string(), scopes: inner_scopes };

    match &expanded.body {
        ExprBody::Let(outer_bindings, outer_body) => {
            assert_eq!(outer_bindings[0].name, outer_binder);
            match &outer_body.body {
                ExprBody::Begin(_, last) => match &last.body {
                    ExprBody::Let(inner_bindings, inner_body) => {
                        assert_eq!(inner_bindings[0].name, inner_binder);
                        // The inner clause's right-hand side saw only the
                        // outer binder.
                        match &inner_bindings[0].expr.body {
                            ExprBody::Identifier(id) => assert_eq!(*id, outer_binder),
                            _ => panic!("expected an identifier right-hand side"),
                        }
                        // The body reference resolves to the inner binder.
                        match &inner_body.body {
                            ExprBody::Begin(_, innermost) => match &innermost.body {
                                ExprBody::Identifier(id) => assert_eq!(*id, inner_binder),
                                _ => panic!("expected an identifier body"),
                            },
                            _ => panic!("expected a begin body"),
                        }
                    },
                    _ => panic!("expected the inner let"),
                },
                _ => panic!("expected a begin body"),
            }
        },
        _ => panic!("expected the outer let"),
    }

    // The two binders carry distinct disambiguation keys.
    assert_ne!(outer_binder.lookup_name(), inner_binder.lookup_name());
}

#[test]
fn sibling_lambdas_get_distinct_increasing_scopes() {
    // ((lambda (x) x) (lambda (y) y))
    let lam = |name: &str, base: usize| -> Notation {
        list(
            vec![
                ident("lambda", base + 1, base + 7),
                list(vec![ident(name, base + 9, base + 10)], base + 8, base + 11),
                ident(name, base + 12, base + 13),
            ],
            base,
            base + 14,
        )
    };
    let program = list(vec![lam("x", 1), lam("y", 16)], 0, 31);
    let mut ex = test_expander();
    let stack = ScopeStack::module("test".to_string());
    let expanded = ex.expand_expr(&stack, &program).unwrap();

    let first = scope_set(vec![Scope::Module("test".to_string()), Scope::Lambda(0)]);
    let second = scope_set(vec![Scope::Module("test".to_string()), Scope::Lambda(1)]);
    match &expanded.body {
        ExprBody::App(f, args) => {
            match &f.body {
                ExprBody::Lambda(params, _) => assert_eq!(
                    params[0],
                    Identifier::Normal { written_name: "x".to_string(), scopes: first }
                ),
                _ => panic!("expected a lambda callee"),
            }
            match &args[0].body {
                ExprBody::Lambda(params, _) => assert_eq!(
                    params[0],
                    Identifier::Normal { written_name: "y".to_string(), scopes: second }
                ),
                _ => panic!("expected a lambda argument"),
            }
        },
        _ => panic!("expected an application"),
    }

    // A fresh run restarts the counters at zero.
    let mut ex2 = test_expander();
    let again = ex2.expand_expr(&stack, &lam("x", 1)).unwrap();
    match &again.body {
        ExprBody::Lambda(params, _) => assert_eq!(
            params[0],
            Identifier::Normal {
                written_name: "x".to_string(),
                scopes: scope_set(vec![Scope::Module("test".to_string()), Scope::Lambda(0)]),
            }
        ),
        _ => panic!("expected a lambda"),
    }
}

#[test]
fn define_and_lambda_shorthand_agree() {
    // (define g (lambda (x) x)) in one fresh run,
    // (define (g x) x) in another: identical definitions, spans aside.
    let def_lambda = list(
        vec![
            ident("define", 1, 7),
            ident("g", 8, 9),
            list(
                vec![
                    ident("lambda", 11, 17),
                    list(vec![ident("x", 19, 20)], 18, 21),
                    ident("x", 22, 23),
                ],
                10,
                24,
            ),
        ],
        0,
        25,
    );
    let def_short = list(
        vec![
            ident("define", 1, 7),
            list(vec![ident("g", 9, 10), ident("x", 11, 12)], 8, 13),
            ident("x", 14, 15),
        ],
        0,
        16,
    );

    let stack = ScopeStack::module("test".to_string());
    let mut ex1 = test_expander();
    ex1.expand_top_level(&stack, &def_lambda).unwrap();
    let mut ex2 = test_expander();
    ex2.expand_top_level(&stack, &def_short).unwrap();

    let (id1, params1, body1) = match &ex1.module.define_forms[0] {
        DefineForm::DefineFunction { id, params, body, .. } => (id, params, body),
        _ => panic!("expected a function definition"),
    };
    let (id2, params2, body2) = match &ex2.module.define_forms[0] {
        DefineForm::DefineFunction { id, params, body, .. } => (id, params, body),
        _ => panic!("expected a function definition"),
    };
    assert_eq!(id1, id2);
    assert_eq!(params1, params2);
    // Both bodies collapse to (begin <the parameter reference>); only
    // the begin node's span differs between the two spellings.
    match (&body1.body, &body2.body) {
        (ExprBody::Begin(m1, l1), ExprBody::Begin(m2, l2)) => {
            assert!(m1.is_empty() && m2.is_empty());
            match (&l1.body, &l2.body) {
                (ExprBody::Identifier(a), ExprBody::Identifier(b)) => assert_eq!(a, b),
                _ => panic!("expected identifier bodies"),
            }
        },
        _ => panic!("expected begin bodies"),
    }
}

#[test]
fn unresolved_reference_fails() {
    // (define f y) with y never bound.
    let def = list(
        vec![ident("define", 1, 7), ident("f", 8, 9), ident("y", 10, 11)],
        0,
        12,
    );
    let mut ex = test_expander();
    let stack = ScopeStack::module("test".to_string());
    match ex.expand_top_level(&stack, &def) {
        Err(CompileError::UnresolvedIdentifier { span, name }) => {
            assert_eq!(name, "y".to_string());
            assert_eq!(span.start(), 10);
            assert_eq!(span.end(), 11);
        },
        other => panic!("expected an unresolved-identifier error, got {:?}", other),
    }
}

#[test]
fn lookup_name_is_deterministic() {
    let sets = vec![
        vec![],
        vec![Scope::Module("m".to_string())],
        vec![Scope::Let(3), Scope::Lambda(7)],
        vec![Scope::Module("m".to_string()), Scope::Let(0), Scope::Lambda(1)],
        vec![Scope::Intro("tag".to_string()), Scope::Let(12345)],
    ];
    for scopes in sets {
        let a = Identifier::Normal {
            written_name: "x".to_string(),
            scopes: scope_set(scopes.clone()),
        };
        let b = Identifier::Normal { written_name: "x".to_string(), scopes: scope_set(scopes) };
        assert_eq!(a.lookup_name(), b.lookup_name());
        assert_eq!(a.lookup_name(), a.lookup_name());
        assert!(a.key_eq(&b));
    }
    // A simple name and a scope-free normal name share a lookup key.
    let simple = Identifier::Simple("x".to_string());
    let bare = Identifier::Normal { written_name: "x".to_string(), scopes: ScopeSet::new() };
    assert!(simple.key_eq(&bare));
}

#[test]
fn expand_module_collects_requires_and_other_forms() {
    let notations = vec![
        list(vec![ident("require", 1, 8), ident("core", 9, 13)], 0, 14),
        int_lit(42, 15, 17),
    ];
    let module = expand_module(
        "demo".to_string(),
        ("demo.ss".to_string(), String::new()),
        &notations,
    )
    .unwrap();
    assert_eq!(module.requires.len(), 1);
    assert_eq!(module.requires[0].module, "core".to_string());
    assert_eq!(module.other_forms.len(), 1);
    assert_eq!(module.other_forms[0].body, NotationBody::Int(42));
}

#[test]
fn bad_require_operand_is_rejected() {
    let form = list(vec![ident("require", 1, 8), int_lit(5, 9, 10)], 0, 11);
    let mut ex = test_expander();
    let stack = ScopeStack::module("test".to_string());
    match ex.expand_top_level(&stack, &form) {
        Err(CompileError::BadRequire { span }) => {
            assert_eq!(span.start(), 9);
            assert_eq!(span.end(), 10);
        },
        other => panic!("expected a bad-require error, got {:?}", other),
    }
    let diag = CompileError::BadRequire { span: span(9, 10) }.to_diagnostic();
    assert_eq!(diag.code, 3);
    assert_eq!(diag.message, "bad require".to_string());
    assert_eq!(diag.labels[0].1, "Not an identifier".to_string());
}

#[test]
fn bad_define_shape_is_rejected() {
    let form = list(vec![ident("define", 1, 7)], 0, 8);
    let mut ex = test_expander();
    let stack = ScopeStack::module("test".to_string());
    match ex.expand_top_level(&stack, &form) {
        Err(CompileError::BadDefine { span }) => {
            assert_eq!(span.start(), 0);
            assert_eq!(span.end(), 8);
        },
        other => panic!("expected a bad-define error, got {:?}", other),
    }
}

#[test]
fn if_form_expands_with_exact_arity() {
    let good = list(
        vec![ident("if", 1, 3), ident("c", 4, 5), int_lit(1, 6, 7), int_lit(2, 8, 9)],
        0,
        10,
    );
    let mut ex = test_expander();
    let stack = ScopeStack::module("test".to_string());
    let module_scope = scope_set(vec![Scope::Module("test".to_string())]);
    ex.insert_binding(&"c".to_string(), module_scope);
    let expanded = ex.expand_expr(&stack, &good).unwrap();
    assert!(matches!(expanded.body, ExprBody::If(_, _, _)));

    let bad = list(vec![ident("if", 1, 3), ident("c", 4, 5), int_lit(1, 6, 7)], 0, 8);
    match ex.expand_expr(&stack, &bad) {
        Err(CompileError::BadForm { span }) => {
            assert_eq!(span.start(), 0);
            assert_eq!(span.end(), 8);
        },
        other => panic!("expected a bad-form error, got {:?}", other),
    }
}
