use hygiene::ast::ReportSpan;
use hygiene::matcher::ematch;
use hygiene::matcher::EPattern::{Hole, Id, List, RestHole};
use hygiene::matcher::MatchedResult;
use hygiene::notation::{Notation, NotationBody};

fn span(s: usize, e: usize) -> ReportSpan {
    ReportSpan::new("test.ss".to_string(), s, e)
}

fn ident(name: &str, s: usize, e: usize) -> Notation {
    Notation { span: span(s, e), body: NotationBody::Identifier(name.to_string()) }
}

fn int_lit(v: i64, s: usize, e: usize) -> Notation {
    Notation { span: span(s, e), body: NotationBody::Int(v) }
}

fn list(elems: Vec<Notation>, s: usize, e: usize) -> Notation {
    Notation { span: span(s, e), body: NotationBody::List(elems) }
}

/// `(define x 1)` as the parser hands it over.
fn define_x_1() -> Notation {
    list(
        vec![ident("define", 1, 7), ident("x", 8, 9), int_lit(1, 10, 11)],
        0,
        12,
    )
}

/// `(define x : i32 1)` as the parser hands it over.
fn define_x_i32_1() -> Notation {
    list(
        vec![
            ident("define", 1, 7),
            ident("x", 8, 9),
            ident(":", 10, 11),
            ident("i32", 12, 15),
            int_lit(1, 16, 17),
        ],
        0,
        18,
    )
}

#[test]
fn match_define_form() {
    let mut binds = MatchedResult::default();
    let res = ematch(
        &mut binds,
        &define_x_1(),
        List(vec![Id("define"), Hole("name"), Hole("expr")]),
    );
    assert_eq!(res, true);
    assert_eq!(binds.show(), "expr = 1\nname = x\n");
}

#[test]
fn match_define_form_2() {
    let mut binds = MatchedResult::default();
    let res = ematch(
        &mut binds,
        &define_x_i32_1(),
        List(vec![
            Id("define"),
            Hole("name"),
            Id(":"),
            Hole("type"),
            Hole("expr"),
        ]),
    );
    assert_eq!(res, true);
    assert_eq!(binds.show(), "expr = 1\nname = x\ntype = i32\n");
}

#[test]
fn match_define_form_3() {
    let mut binds = MatchedResult::default();
    let res = ematch(
        &mut binds,
        &define_x_i32_1(),
        List(vec![Id("define"), RestHole("rest")]),
    );
    assert_eq!(res, true);
    assert_eq!(binds.show(), "rest = (x : i32 1)\n");
}

#[test]
fn tests_match_define_form() {
    let mut binds = MatchedResult::default();
    let res = ematch(
        &mut binds,
        &define_x_1(),
        List(vec![Id("define"), Hole("name"), Hole("expr")]),
    );
    assert_eq!(res, true);
    let name = binds.get_one("name").expect("name captured");
    assert_eq!(name.body, NotationBody::Identifier("x".to_string()));
    assert_eq!(name.span.start(), 8);
    assert_eq!(name.span.end(), 9);
    let expr = binds.get_one("expr").expect("expr captured");
    assert_eq!(expr.body, NotationBody::Int(1));
    assert_eq!(expr.span.start(), 10);
    assert_eq!(expr.span.end(), 11);
}

#[test]
fn tests_match_define_form_2() {
    let mut binds = MatchedResult::default();
    let res = ematch(
        &mut binds,
        &define_x_i32_1(),
        List(vec![
            Id("define"),
            Hole("name"),
            Id(":"),
            Hole("type"),
            Hole("expr"),
        ]),
    );
    assert_eq!(res, true);
    let name = binds.get_one("name").expect("name captured");
    assert_eq!(name.body, NotationBody::Identifier("x".to_string()));
    assert_eq!(name.span.start(), 8);
    assert_eq!(name.span.end(), 9);
    let typ = binds.get_one("type").expect("type captured");
    assert_eq!(typ.body, NotationBody::Identifier("i32".to_string()));
    assert_eq!(typ.span.start(), 12);
    assert_eq!(typ.span.end(), 15);
    let expr = binds.get_one("expr").expect("expr captured");
    assert_eq!(expr.body, NotationBody::Int(1));
    assert_eq!(expr.span.start(), 16);
    assert_eq!(expr.span.end(), 17);
}

#[test]
fn failed_match_keeps_captures_untouched() {
    let mut binds = MatchedResult::default();
    let ok = ematch(
        &mut binds,
        &define_x_1(),
        List(vec![Id("define"), Hole("name"), Hole("expr")]),
    );
    assert!(ok);
    // This pattern captures "first" before failing on the keyword, so a
    // matcher that recorded eagerly would leak the capture.
    let failed = ematch(
        &mut binds,
        &define_x_1(),
        List(vec![Hole("first"), Id("nomatch"), Hole("rest2")]),
    );
    assert!(!failed);
    assert!(binds.get_one("first").is_none());
    assert_eq!(binds.show(), "expr = 1\nname = x\n");
}

#[test]
fn wrong_arity_is_no_match() {
    let mut binds = MatchedResult::default();
    let too_long = ematch(
        &mut binds,
        &define_x_i32_1(),
        List(vec![Id("define"), Hole("name"), Hole("expr")]),
    );
    assert!(!too_long);
    let too_short = ematch(
        &mut binds,
        &define_x_1(),
        List(vec![Id("define"), Hole("a"), Hole("b"), Hole("c")]),
    );
    assert!(!too_short);
}

#[test]
fn rest_hole_captures_empty_tail() {
    let mut binds = MatchedResult::default();
    let ok = ematch(
        &mut binds,
        &list(vec![ident("require", 1, 8)], 0, 9),
        List(vec![Id("require"), RestHole("module")]),
    );
    assert!(ok);
    let mods = binds.get_many("module").expect("module captured");
    assert!(mods.is_empty());
}
