use hygiene::ast::ReportSpan;
use hygiene::diagnostic::CompileError;
use hygiene::expander::expand_module;
use hygiene::notation::{Notation, NotationBody};
use hygiene::render::{i64_to_string, u64_to_string};
use hygiene::type_system::check;

fn span(s: usize, e: usize) -> ReportSpan {
    ReportSpan::new("test.ss".to_string(), s, e)
}

fn ident(name: &str, s: usize, e: usize) -> Notation {
    Notation { span: span(s, e), body: NotationBody::Identifier(name.to_string()) }
}

fn int_lit(v: i64, s: usize, e: usize) -> Notation {
    Notation { span: span(s, e), body: NotationBody::Int(v) }
}

fn string(v: &str, s: usize, e: usize) -> Notation {
    Notation { span: span(s, e), body: NotationBody::String(v.to_string()) }
}

fn list(elems: Vec<Notation>, s: usize, e: usize) -> Notation {
    Notation { span: span(s, e), body: NotationBody::List(elems) }
}

/// `(: f : int -> int)`
fn claim_f_int_to_int() -> Notation {
    list(
        vec![
            ident(":", 1, 2),
            ident("f", 3, 4),
            ident(":", 5, 6),
            ident("int", 7, 10),
            ident("->", 11, 13),
            ident("int", 14, 17),
        ],
        0,
        18,
    )
}

/// `(define (f x) <body>)`
fn define_f(body: Notation) -> Notation {
    list(
        vec![
            ident("define", 20, 26),
            list(vec![ident("f", 28, 29), ident("x", 30, 31)], 27, 32),
            body,
        ],
        19,
        45,
    )
}

#[test]
fn well_typed_module_checks() {
    let notations = vec![claim_f_int_to_int(), define_f(ident("x", 33, 34))];
    let module = expand_module(
        "test".to_string(),
        ("test.ss".to_string(), String::new()),
        &notations,
    )
    .unwrap();
    let env = check(&module).expect("the module should type-check");
    let exported = env.current_scope();
    assert_eq!(exported.len(), 1);
    assert_eq!(exported[0].0, "f".to_string());
    assert_eq!(exported[0].1.to_text(), "int -> int".to_string());
}

#[test]
fn type_mismatch_points_at_the_literal() {
    let notations = vec![claim_f_int_to_int(), define_f(string("s", 33, 36))];
    let module = expand_module(
        "test".to_string(),
        ("test.ss".to_string(), String::new()),
        &notations,
    )
    .unwrap();
    match check(&module) {
        Err(CompileError::TypeMismatch { expected, actual, .. }) => {
            assert_eq!(expected.to_text(), "int".to_string());
            assert_eq!(actual.to_text(), "string".to_string());
            // The "actual" label points at the string literal's span.
            assert_eq!(actual.span.start(), 33);
            assert_eq!(actual.span.end(), 36);
            let diag = CompileError::TypeMismatch {
                span: span(19, 45),
                expected,
                actual,
            }
            .to_diagnostic();
            assert_eq!(diag.code, 3);
            assert_eq!(diag.message, "type mismatch".to_string());
            assert_eq!(diag.labels[1].0.start(), 33);
            assert_eq!(diag.labels[1].1, "actual type".to_string());
            assert_eq!(diag.notes[0], "expected `int`, found `string`".to_string());
        },
        other => panic!("expected a type mismatch, got {:?}", other),
    }
}

#[test]
fn redefinition_is_rejected() {
    // (: x : int) (define x 1) (define x 2)
    let claim = list(
        vec![ident(":", 1, 2), ident("x", 3, 4), ident(":", 5, 6), ident("int", 7, 10)],
        0,
        11,
    );
    let def1 = list(
        vec![ident("define", 13, 19), ident("x", 20, 21), int_lit(1, 22, 23)],
        12,
        24,
    );
    let def2 = list(
        vec![ident("define", 26, 32), ident("x", 33, 34), int_lit(2, 35, 36)],
        25,
        37,
    );
    let module = expand_module(
        "test".to_string(),
        ("test.ss".to_string(), String::new()),
        &vec![claim, def1, def2],
    )
    .unwrap();
    match check(&module) {
        Err(CompileError::Redefinition { span, name }) => {
            assert_eq!(name, "x".to_string());
            // The diagnostic sits on the second define.
            assert_eq!(span.start(), 25);
            assert_eq!(span.end(), 37);
            let diag = CompileError::Redefinition { span, name }.to_diagnostic();
            assert_eq!(diag.code, 1);
            assert_eq!(diag.message, "`x` is redefined".to_string());
        },
        other => panic!("expected a redefinition error, got {:?}", other),
    }
}

#[test]
fn unclaimed_definition_has_no_type() {
    let notations = vec![define_f(ident("x", 33, 34))];
    let module = expand_module(
        "test".to_string(),
        ("test.ss".to_string(), String::new()),
        &notations,
    )
    .unwrap();
    match check(&module) {
        Err(CompileError::NoTypeForIdentifier { name, .. }) => {
            assert_eq!(name, "f".to_string());
        },
        other => panic!("expected a no-type error, got {:?}", other),
    }
}

#[test]
fn non_function_claim_for_function_definition() {
    let claim = list(
        vec![ident(":", 1, 2), ident("f", 3, 4), ident(":", 5, 6), ident("int", 7, 10)],
        0,
        11,
    );
    let notations = vec![claim, define_f(ident("x", 33, 34))];
    let module = expand_module(
        "test".to_string(),
        ("test.ss".to_string(), String::new()),
        &notations,
    )
    .unwrap();
    match check(&module) {
        Err(CompileError::ExpectedFunctionType { name, typ, .. }) => {
            assert_eq!(name, "f".to_string());
            assert_eq!(typ.to_text(), "int".to_string());
            let diag = CompileError::ExpectedFunctionType { span: span(19, 45), name, typ }
                .to_diagnostic();
            assert_eq!(
                diag.message,
                "expected `f` has a function type, but got: `int`".to_string()
            );
        },
        other => panic!("expected a function-type error, got {:?}", other),
    }
}

#[test]
fn integer_literals_satisfy_every_integer_type() {
    for typ_name in ["int", "i8", "i16", "i32", "i64", "u8", "u16", "u32", "u64"] {
        let claim = list(
            vec![
                ident(":", 1, 2),
                ident("x", 3, 4),
                ident(":", 5, 6),
                ident(typ_name, 7, 10),
            ],
            0,
            11,
        );
        let def = list(
            vec![ident("define", 13, 19), ident("x", 20, 21), int_lit(200, 22, 25)],
            12,
            26,
        );
        let module = expand_module(
            "test".to_string(),
            ("test.ss".to_string(), String::new()),
            &vec![claim, def],
        )
        .unwrap();
        assert!(check(&module).is_ok(), "an integer literal satisfies {}", typ_name);
    }
}

#[test]
fn unknown_type_in_claim_is_rejected() {
    let claim = list(
        vec![ident(":", 1, 2), ident("x", 3, 4), ident(":", 5, 6), ident("number", 7, 13)],
        0,
        14,
    );
    match expand_module(
        "test".to_string(),
        ("test.ss".to_string(), String::new()),
        &vec![claim],
    ) {
        Err(CompileError::UnknownType { name, .. }) => {
            assert_eq!(name, "number".to_string());
            let diag = CompileError::UnknownType { span: span(0, 14), name }.to_diagnostic();
            assert_eq!(diag.message, "unknown type `number`".to_string());
        },
        other => panic!("expected an unknown-type error, got {:?}", other),
    }
}

#[test]
fn constructed_types_render_as_written() {
    // (: p : (pair int (list bool)))
    let claim = list(
        vec![
            ident(":", 1, 2),
            ident("p", 3, 4),
            ident(":", 5, 6),
            list(
                vec![
                    ident("pair", 8, 12),
                    ident("int", 13, 16),
                    list(vec![ident("list", 18, 22), ident("boolean", 23, 30)], 17, 31),
                ],
                7,
                32,
            ),
        ],
        0,
        33,
    );
    let module = expand_module(
        "test".to_string(),
        ("test.ss".to_string(), String::new()),
        &vec![claim],
    )
    .unwrap();
    assert_eq!(module.claim_forms.len(), 1);
    assert_eq!(
        module.claim_forms[0].typ.to_text(),
        "(pair int (list bool))".to_string()
    );
}

#[test]
fn counters_render_in_decimal() {
    assert_eq!(u64_to_string(0), "0".to_string());
    assert_eq!(u64_to_string(42), "42".to_string());
    assert_eq!(u64_to_string(18446744073709551615), "18446744073709551615".to_string());
    assert_eq!(i64_to_string(-7), "-7".to_string());
    assert_eq!(i64_to_string(-9223372036854775808), "-9223372036854775808".to_string());
}
