use hygiene::ast::expr::{Expr, ExprBody, Identifier};
use hygiene::ast::ReportSpan;
use hygiene::middle::closure_conversion::{closure_conversion, free_variables};

fn span(s: usize, e: usize) -> ReportSpan {
    ReportSpan::new("test.ss".to_string(), s, e)
}

fn var(name: &str, s: usize, e: usize) -> Expr {
    Expr { span: span(s, e), body: ExprBody::Identifier(Identifier::Simple(name.to_string())) }
}

#[test]
fn free_variables_of_a_reference() {
    let e = var("y", 0, 1);
    let fvs = free_variables(&e);
    assert_eq!(fvs.len(), 1);
    assert_eq!(fvs[0], Identifier::Simple("y".to_string()));
}

#[test]
fn free_variables_are_sorted_and_deduplicated() {
    // (f y f): the application's callee and arguments contribute f, y, f.
    let e = Expr {
        span: span(0, 7),
        body: ExprBody::App(
            Box::new(var("f", 1, 2)),
            vec![var("y", 3, 4), var("f", 5, 6)],
        ),
    };
    let fvs = free_variables(&e);
    assert_eq!(fvs.len(), 2);
    assert_eq!(fvs[0], Identifier::Simple("f".to_string()));
    assert_eq!(fvs[1], Identifier::Simple("y".to_string()));
}

#[test]
fn lambda_with_a_free_variable_becomes_a_closure() {
    // (lambda (x) y): the body reads y, which the lambda does not bind.
    let lam = Expr {
        span: span(0, 14),
        body: ExprBody::Lambda(
            vec![Identifier::Simple("x".to_string())],
            Box::new(var("y", 12, 13)),
        ),
    };
    let converted = closure_conversion(&lam);
    match converted.body {
        ExprBody::Closure(inner, captured) => {
            assert_eq!(captured, vec![Identifier::Simple("y".to_string())]);
            match inner.body {
                ExprBody::Lambda(params, body) => {
                    assert_eq!(params, vec![Identifier::Simple("x".to_string())]);
                    assert!(matches!(body.body, ExprBody::ClosureEnvGet(0)));
                },
                _ => panic!("expected the converted lambda inside the closure"),
            }
        },
        _ => panic!("expected a closure"),
    }
}

#[test]
fn lambda_without_free_variables_stays_a_lambda() {
    let lam = Expr {
        span: span(0, 14),
        body: ExprBody::Lambda(
            vec![Identifier::Simple("x".to_string())],
            Box::new(Expr { span: span(12, 13), body: ExprBody::Int(1) }),
        ),
    };
    let converted = closure_conversion(&lam);
    match converted.body {
        ExprBody::Lambda(params, body) => {
            assert_eq!(params, vec![Identifier::Simple("x".to_string())]);
            assert!(matches!(body.body, ExprBody::Int(1)));
        },
        _ => panic!("expected the lambda to stay a lambda"),
    }
}
