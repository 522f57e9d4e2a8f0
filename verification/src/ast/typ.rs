//! The type language: primitive types, the `vector`/`list`/`pair`
//! constructors, records, and function types, each carrying a span.

use vstd::prelude::*;
use vstd::string::StringExecFns;
use crate::ast::ReportSpan;
use crate::ast::SpecSpan;

verus! {

/// Mathematical model of a type's shape.
#[verifier::ext_equal]
pub ghost enum SpecTypBody {
    Bool,
    Char,
    String,
    Symbol,
    Rational,
    Float,
    Int,
    I8,
    I16,
    I32,
    I64,
    U8,
    U16,
    U32,
    U64,
    Syntax,
    Void,
    Vector(Box<SpecTyp>),
    List(Box<SpecTyp>),
    Pair(Box<SpecTyp>, Box<SpecTyp>),
    Record(Seq<(Seq<char>, SpecTyp)>),
    Func { params: Seq<SpecTyp>, result: Box<SpecTyp> },
    Unknown,
}

/// Mathematical model of a type together with its span.
#[verifier::ext_equal]
pub ghost struct SpecTyp {
    pub span: SpecSpan,
    pub body: SpecTypBody,
}

/// The shape of a type.
#[derive(Debug)]
pub enum TypBody {
    Bool,
    Char,
    String,
    Symbol,
    Rational,
    Float,
    Int,
    I8,
    I16,
    I32,
    I64,
    U8,
    U16,
    U32,
    U64,
    Syntax,
    Void,
    Vector(Box<Typ>),
    /// Homogeneous list: `(list t)`.
    List(Box<Typ>),
    /// `(pair a b)`.
    Pair(Box<Typ>, Box<Typ>),
    Record(Vec<(String, Typ)>),
    Func { params: Vec<Typ>, result: Box<Typ> },
    /// The ascription of a `let` binding that carries none.
    Unknown,
}

/// A type with the span of the syntax it was read from.
#[derive(Debug)]
pub struct Typ {
    pub span: ReportSpan,
    pub body: TypBody,
}

pub open spec fn typ_view(t: Typ) -> SpecTyp
    decreases t,
{
    SpecTyp { span: t.span@, body: typ_body_view(t.body) }
}

pub open spec fn typs_view(s: Seq<Typ>) -> Seq<SpecTyp>
    decreases s,
{
    if s.len() == 0 {
        Seq::empty()
    } else {
        typs_view(s.drop_last()).push(typ_view(s.last()))
    }
}

pub open spec fn record_fields_view(s: Seq<(String, Typ)>) -> Seq<(Seq<char>, SpecTyp)>
    decreases s,
{
    if s.len() == 0 {
        Seq::empty()
    } else {
        record_fields_view(s.drop_last()).push((s.last().0@, typ_view(s.last().1)))
    }
}

pub open spec fn typ_body_view(b: TypBody) -> SpecTypBody
    decreases b,
{
    match b {
        TypBody::Bool => SpecTypBody::Bool,
        TypBody::Char => SpecTypBody::Char,
        TypBody::String => SpecTypBody::String,
        TypBody::Symbol => SpecTypBody::Symbol,
        TypBody::Rational => SpecTypBody::Rational,
        TypBody::Float => SpecTypBody::Float,
        TypBody::Int => SpecTypBody::Int,
        TypBody::I8 => SpecTypBody::I8,
        TypBody::I16 => SpecTypBody::I16,
        TypBody::I32 => SpecTypBody::I32,
        TypBody::I64 => SpecTypBody::I64,
        TypBody::U8 => SpecTypBody::U8,
        TypBody::U16 => SpecTypBody::U16,
        TypBody::U32 => SpecTypBody::U32,
        TypBody::U64 => SpecTypBody::U64,
        TypBody::Syntax => SpecTypBody::Syntax,
        TypBody::Void => SpecTypBody::Void,
        TypBody::Vector(t) => SpecTypBody::Vector(Box::new(typ_view(*t))),
        TypBody::List(t) => SpecTypBody::List(Box::new(typ_view(*t))),
        TypBody::Pair(a, b) => SpecTypBody::Pair(Box::new(typ_view(*a)), Box::new(typ_view(*b))),
        TypBody::Record(fields) => SpecTypBody::Record(record_fields_view(fields@)),
        TypBody::Func { params, result } => SpecTypBody::Func {
            params: typs_view(params@),
            result: Box::new(typ_view(*result)),
        },
        TypBody::Unknown => SpecTypBody::Unknown,
    }
}

impl View for Typ {
    type V = SpecTyp;

    open spec fn view(&self) -> SpecTyp {
        typ_view(*self)
    }
}

impl View for TypBody {
    type V = SpecTypBody;

    open spec fn view(&self) -> SpecTypBody {
        typ_body_view(*self)
    }
}

/// `typs_view` maps the sequence elementwise.
pub proof fn lemma_typs_view_index(s: Seq<Typ>)
    ensures
        typs_view(s).len() == s.len(),
        forall|i: int| 0 <= i < s.len() ==> typs_view(s)[i] == typ_view(s[i]),
    decreases s,
{
    if s.len() > 0 {
        lemma_typs_view_index(s.drop_last());
    }
}

/// `record_fields_view` maps the sequence elementwise.
pub proof fn lemma_record_fields_view_index(s: Seq<(String, Typ)>)
    ensures
        record_fields_view(s).len() == s.len(),
        forall|i: int| 0 <= i < s.len() ==> record_fields_view(s)[i] == (s[i].0@, typ_view(
            s[i].1,
        )),
    decreases s,
{
    if s.len() > 0 {
        lemma_record_fields_view_index(s.drop_last());
    }
}

impl TypBody {
    /// Attaches a span, turning a shape into a full type.
    pub fn with_span(self, span: ReportSpan) -> (r: Typ)
        ensures
            r@ == (SpecTyp { span: span@, body: self@ }),
    {
        Typ { span, body: self }
    }
}

/// Structural equality of two types' shapes; spans are ignored, as they
/// only serve diagnostics.
pub open spec fn spec_typ_eq(a: SpecTyp, b: SpecTyp) -> bool
    decreases a, 0int,
{
    spec_typ_body_eq(a.body, b.body)
}

pub open spec fn spec_typs_eq_from(a: Seq<SpecTyp>, b: Seq<SpecTyp>, i: int) -> bool
    decreases a, a.len() - i,
{
    if i < 0 || a.len() != b.len() {
        false
    } else if i >= a.len() {
        true
    } else {
        spec_typ_eq(a[i], b[i]) && spec_typs_eq_from(a, b, i + 1)
    }
}

pub open spec fn spec_record_eq_from(
    a: Seq<(Seq<char>, SpecTyp)>,
    b: Seq<(Seq<char>, SpecTyp)>,
    i: int,
) -> bool
    decreases a, a.len() - i,
{
    if i < 0 || a.len() != b.len() {
        false
    } else if i >= a.len() {
        true
    } else {
        a[i].0 == b[i].0 && spec_typ_eq(a[i].1, b[i].1) && spec_record_eq_from(a, b, i + 1)
    }
}

pub open spec fn spec_typ_body_eq(a: SpecTypBody, b: SpecTypBody) -> bool
    decreases a, 0int,
{
    match (a, b) {
        (SpecTypBody::Bool, SpecTypBody::Bool) => true,
        (SpecTypBody::Char, SpecTypBody::Char) => true,
        (SpecTypBody::String, SpecTypBody::String) => true,
        (SpecTypBody::Symbol, SpecTypBody::Symbol) => true,
        (SpecTypBody::Rational, SpecTypBody::Rational) => true,
        (SpecTypBody::Float, SpecTypBody::Float) => true,
        (SpecTypBody::Int, SpecTypBody::Int) => true,
        (SpecTypBody::I8, SpecTypBody::I8) => true,
        (SpecTypBody::I16, SpecTypBody::I16) => true,
        (SpecTypBody::I32, SpecTypBody::I32) => true,
        (SpecTypBody::I64, SpecTypBody::I64) => true,
        (SpecTypBody::U8, SpecTypBody::U8) => true,
        (SpecTypBody::U16, SpecTypBody::U16) => true,
        (SpecTypBody::U32, SpecTypBody::U32) => true,
        (SpecTypBody::U64, SpecTypBody::U64) => true,
        (SpecTypBody::Syntax, SpecTypBody::Syntax) => true,
        (SpecTypBody::Void, SpecTypBody::Void) => true,
        (SpecTypBody::Vector(x), SpecTypBody::Vector(y)) => spec_typ_eq(*x, *y),
        (SpecTypBody::List(x), SpecTypBody::List(y)) => spec_typ_eq(*x, *y),
        (SpecTypBody::Pair(x1, x2), SpecTypBody::Pair(y1, y2)) => spec_typ_eq(*x1, *y1)
            && spec_typ_eq(*x2, *y2),
        (SpecTypBody::Record(xs), SpecTypBody::Record(ys)) => spec_record_eq_from(xs, ys, 0),
        (
            SpecTypBody::Func { params: xp, result: xr },
            SpecTypBody::Func { params: yp, result: yr },
        ) => spec_typs_eq_from(xp, yp, 0) && spec_typ_eq(*xr, *yr),
        (SpecTypBody::Unknown, SpecTypBody::Unknown) => true,
        (_, _) => false,
    }
}

impl Typ {
    /// Whether two types have the same shape, spans aside.  This is the
    /// equality that unification uses.
    pub fn equals(&self, other: &Typ) -> (r: bool)
        ensures
            r == spec_typ_eq(self@, other@),
        decreases *self, 0int,
    {
        typ_body_equals(&self.body, &other.body)
    }

    /// A deep copy whose model is the same type.
    pub fn duplicate(&self) -> (r: Typ)
        ensures
            r@ == self@,
        decreases *self, 0int,
    {
        Typ { span: self.span.duplicate(), body: typ_body_duplicate(&self.body) }
    }
}

fn typs_equal_from(a: &Vec<Typ>, b: &Vec<Typ>, i: usize) -> (r: bool)
    requires
        i <= a@.len(),
    ensures
        r == spec_typs_eq_from(typs_view(a@), typs_view(b@), i as int),
    decreases *a, a@.len() - i,
{
    proof {
        lemma_typs_view_index(a@);
        lemma_typs_view_index(b@);
    }
    if a.len() != b.len() {
        false
    } else if i >= a.len() {
        true
    } else {
        if !a[i].equals(&b[i]) {
            false
        } else {
            typs_equal_from(a, b, i + 1)
        }
    }
}

fn record_equal_from(a: &Vec<(String, Typ)>, b: &Vec<(String, Typ)>, i: usize) -> (r: bool)
    requires
        i <= a@.len(),
    ensures
        r == spec_record_eq_from(record_fields_view(a@), record_fields_view(b@), i as int),
    decreases *a, a@.len() - i,
{
    proof {
        lemma_record_fields_view_index(a@);
        lemma_record_fields_view_index(b@);
    }
    if a.len() != b.len() {
        false
    } else if i >= a.len() {
        true
    } else {
        let names_eq = a[i].0 == b[i].0;
        if !names_eq {
            false
        } else if !a[i].1.equals(&b[i].1) {
            false
        } else {
            record_equal_from(a, b, i + 1)
        }
    }
}

fn typ_body_equals(a: &TypBody, b: &TypBody) -> (r: bool)
    ensures
        r == spec_typ_body_eq(a@, b@),
    decreases *a, 0int,
{
    match (a, b) {
        (TypBody::Bool, TypBody::Bool) => true,
        (TypBody::Char, TypBody::Char) => true,
        (TypBody::String, TypBody::String) => true,
        (TypBody::Symbol, TypBody::Symbol) => true,
        (TypBody::Rational, TypBody::Rational) => true,
        (TypBody::Float, TypBody::Float) => true,
        (TypBody::Int, TypBody::Int) => true,
        (TypBody::I8, TypBody::I8) => true,
        (TypBody::I16, TypBody::I16) => true,
        (TypBody::I32, TypBody::I32) => true,
        (TypBody::I64, TypBody::I64) => true,
        (TypBody::U8, TypBody::U8) => true,
        (TypBody::U16, TypBody::U16) => true,
        (TypBody::U32, TypBody::U32) => true,
        (TypBody::U64, TypBody::U64) => true,
        (TypBody::Syntax, TypBody::Syntax) => true,
        (TypBody::Void, TypBody::Void) => true,
        (TypBody::Vector(x), TypBody::Vector(y)) => x.equals(y),
        (TypBody::List(x), TypBody::List(y)) => x.equals(y),
        (TypBody::Pair(x1, x2), TypBody::Pair(y1, y2)) => x1.equals(y1) && x2.equals(y2),
        (TypBody::Record(xs), TypBody::Record(ys)) => record_equal_from(xs, ys, 0),
        (TypBody::Func { params: xp, result: xr }, TypBody::Func { params: yp, result: yr }) => {
            let ps = typs_equal_from(xp, yp, 0);
            ps && xr.equals(yr)
        },
        (TypBody::Unknown, TypBody::Unknown) => true,
        (_, _) => false,
    }
}

fn typs_duplicate(v: &Vec<Typ>) -> (r: Vec<Typ>)
    ensures
        typs_view(r@) == typs_view(v@),
        r@.len() == v@.len(),
    decreases *v, 0int,
{
    let n = v.len();
    let mut r: Vec<Typ> = Vec::new();
    let mut i: usize = 0;
    while i < n
        invariant
            n == v@.len(),
            0 <= i <= n,
            r@.len() == i,
            forall|k: int| 0 <= k < i ==> r@[k]@ == v@[k]@,
        decreases n - i,
    {
        let d = v[i].duplicate();
        r.push(d);
        i += 1;
    }
    proof {
        lemma_typs_view_index(r@);
        lemma_typs_view_index(v@);
        assert(typs_view(r@) =~= typs_view(v@));
    }
    r
}

fn record_duplicate(v: &Vec<(String, Typ)>) -> (r: Vec<(String, Typ)>)
    ensures
        record_fields_view(r@) == record_fields_view(v@),
        r@.len() == v@.len(),
    decreases *v, 0int,
{
    let n = v.len();
    let mut r: Vec<(String, Typ)> = Vec::new();
    let mut i: usize = 0;
    while i < n
        invariant
            n == v@.len(),
            0 <= i <= n,
            r@.len() == i,
            forall|k: int| 0 <= k < i ==> r@[k].0@ == v@[k].0@ && r@[k].1@ == v@[k].1@,
        decreases n - i,
    {
        let name = v[i].0.clone();
        let d = v[i].1.duplicate();
        r.push((name, d));
        i += 1;
    }
    proof {
        lemma_record_fields_view_index(r@);
        lemma_record_fields_view_index(v@);
        assert(record_fields_view(r@) =~= record_fields_view(v@));
    }
    r
}

fn typ_body_duplicate(b: &TypBody) -> (r: TypBody)
    ensures
        r@ == b@,
    decreases *b, 0int,
{
    match b {
        TypBody::Bool => TypBody::Bool,
        TypBody::Char => TypBody::Char,
        TypBody::String => TypBody::String,
        TypBody::Symbol => TypBody::Symbol,
        TypBody::Rational => TypBody::Rational,
        TypBody::Float => TypBody::Float,
        TypBody::Int => TypBody::Int,
        TypBody::I8 => TypBody::I8,
        TypBody::I16 => TypBody::I16,
        TypBody::I32 => TypBody::I32,
        TypBody::I64 => TypBody::I64,
        TypBody::U8 => TypBody::U8,
        TypBody::U16 => TypBody::U16,
        TypBody::U32 => TypBody::U32,
        TypBody::U64 => TypBody::U64,
        TypBody::Syntax => TypBody::Syntax,
        TypBody::Void => TypBody::Void,
        TypBody::Vector(t) => TypBody::Vector(Box::new(t.duplicate())),
        TypBody::List(t) => TypBody::List(Box::new(t.duplicate())),
        TypBody::Pair(x, y) => TypBody::Pair(Box::new(x.duplicate()), Box::new(y.duplicate())),
        TypBody::Record(fields) => TypBody::Record(record_duplicate(fields)),
        TypBody::Func { params, result } => TypBody::Func {
            params: typs_duplicate(params),
            result: Box::new(result.duplicate()),
        },
        TypBody::Unknown => TypBody::Unknown,
    }
}

} // verus!

verus! {

/// The plain-text rendering of a type, as diagnostics print it.
pub open spec fn spec_typ_text(t: SpecTyp) -> Seq<char>
    decreases t, 0int,
{
    spec_typ_body_text(t.body)
}

/// Space-separated renderings of a list of types.
pub open spec fn spec_typs_join_text(s: Seq<SpecTyp>) -> Seq<char>
    decreases s, 1int,
{
    if s.len() == 0 {
        Seq::empty()
    } else if s.len() == 1 {
        spec_typ_text(s[0])
    } else {
        spec_typs_join_text(s.drop_last()) + " "@ + spec_typ_text(s.last())
    }
}

/// Renderings of record fields, each as ` (name type)`.
pub open spec fn spec_record_join_text(s: Seq<(Seq<char>, SpecTyp)>) -> Seq<char>
    decreases s, 1int,
{
    if s.len() == 0 {
        Seq::empty()
    } else {
        spec_record_join_text(s.drop_last()) + " ("@ + s.last().0 + " "@ + spec_typ_text(
            s.last().1,
        ) + ")"@
    }
}

pub open spec fn spec_typ_body_text(b: SpecTypBody) -> Seq<char>
    decreases b, 2int,
{
    match b {
        SpecTypBody::Bool => "bool"@,
        SpecTypBody::Char => "char"@,
        SpecTypBody::String => "string"@,
        SpecTypBody::Symbol => "symbol"@,
        SpecTypBody::Rational => "rational"@,
        SpecTypBody::Float => "float"@,
        SpecTypBody::Int => "int"@,
        SpecTypBody::I8 => "i8"@,
        SpecTypBody::I16 => "i16"@,
        SpecTypBody::I32 => "i32"@,
        SpecTypBody::I64 => "i64"@,
        SpecTypBody::U8 => "u8"@,
        SpecTypBody::U16 => "u16"@,
        SpecTypBody::U32 => "u32"@,
        SpecTypBody::U64 => "u64"@,
        SpecTypBody::Syntax => "syntax"@,
        SpecTypBody::Void => "void"@,
        SpecTypBody::Vector(t) => "(array "@ + spec_typ_text(*t) + ")"@,
        SpecTypBody::List(t) => "(list "@ + spec_typ_text(*t) + ")"@,
        SpecTypBody::Pair(a, b2) => "(pair "@ + spec_typ_text(*a) + " "@ + spec_typ_text(*b2)
            + ")"@,
        SpecTypBody::Record(fields) => "(record"@ + spec_record_join_text(fields) + ")"@,
        SpecTypBody::Func { params, result } => spec_typs_join_text(params) + " -> "@
            + spec_typ_text(*result),
        SpecTypBody::Unknown => "unknown"@,
    }
}

/// Adding one element on the right extends the joined rendering.
pub proof fn lemma_typs_join_snoc(s: Seq<SpecTyp>, i: int)
    requires
        0 <= i < s.len(),
    ensures
        spec_typs_join_text(s.subrange(0, i + 1)) == if i == 0 {
            spec_typ_text(s[0])
        } else {
            spec_typs_join_text(s.subrange(0, i)) + " "@ + spec_typ_text(s[i])
        },
{
    assert(s.subrange(0, i + 1).drop_last() =~= s.subrange(0, i));
    assert(s.subrange(0, i + 1).last() == s[i]);
    if i == 0 {
        assert(s.subrange(0, 1)[0] == s[0]);
    }
}

/// Adding one field on the right extends the record rendering.
pub proof fn lemma_record_join_snoc(s: Seq<(Seq<char>, SpecTyp)>, i: int)
    requires
        0 <= i < s.len(),
    ensures
        spec_record_join_text(s.subrange(0, i + 1)) == spec_record_join_text(s.subrange(0, i))
            + " ("@ + s[i].0 + " "@ + spec_typ_text(s[i].1) + ")"@,
{
    assert(s.subrange(0, i + 1).drop_last() =~= s.subrange(0, i));
    assert(s.subrange(0, i + 1).last() == s[i]);
}

impl Typ {
    /// Renders the type as diagnostics print it.
    pub fn to_text(&self) -> (r: String)
        ensures
            r@ == spec_typ_text(self@),
        decreases *self, 0int,
    {
        typ_body_to_text(&self.body)
    }
}

fn typs_join_to_text(v: &Vec<Typ>) -> (r: String)
    ensures
        r@ == spec_typs_join_text(typs_view(v@)),
    decreases *v, 1int,
{
    proof {
        lemma_typs_view_index(v@);
    }
    let n = v.len();
    let mut r = String::new();
    let mut i: usize = 0;
    while i < n
        invariant
            n == v@.len(),
            0 <= i <= n,
            typs_view(v@).len() == n,
            forall|k: int| 0 <= k < n ==> typs_view(v@)[k] == typ_view(v@[k]),
            r@ == spec_typs_join_text(typs_view(v@).subrange(0, i as int)),
        decreases n - i,
    {
        if i > 0 {
            r.append(" ");
        }
        let t = v[i].to_text();
        r.append(t.as_str());
        proof {
            lemma_typs_join_snoc(typs_view(v@), i as int);
            if i == 0 {
                assert(Seq::<char>::empty() + spec_typ_text(typs_view(v@)[0]) =~= spec_typ_text(
                    typs_view(v@)[0],
                ));
            }
        }
        i += 1;
    }
    proof {
        assert(typs_view(v@).subrange(0, n as int) =~= typs_view(v@));
    }
    r
}

fn record_join_to_text(v: &Vec<(String, Typ)>) -> (r: String)
    ensures
        r@ == spec_record_join_text(record_fields_view(v@)),
    decreases *v, 1int,
{
    proof {
        lemma_record_fields_view_index(v@);
    }
    let n = v.len();
    let mut r = String::new();
    let mut i: usize = 0;
    while i < n
        invariant
            n == v@.len(),
            0 <= i <= n,
            record_fields_view(v@).len() == n,
            forall|k: int| 0 <= k < n ==> record_fields_view(v@)[k] == (
                v@[k].0@,
                typ_view(v@[k].1),
            ),
            r@ == spec_record_join_text(record_fields_view(v@).subrange(0, i as int)),
        decreases n - i,
    {
        r.append(" (");
        r.append(v[i].0.as_str());
        r.append(" ");
        let t = v[i].1.to_text();
        r.append(t.as_str());
        r.append(")");
        proof {
            lemma_record_join_snoc(record_fields_view(v@), i as int);
        }
        i += 1;
    }
    proof {
        assert(record_fields_view(v@).subrange(0, n as int) =~= record_fields_view(v@));
    }
    r
}

fn typ_body_to_text(b: &TypBody) -> (r: String)
    ensures
        r@ == spec_typ_body_text(b@),
    decreases *b, 2int,
{
    match b {
        TypBody::Bool => "bool".to_owned(),
        TypBody::Char => "char".to_owned(),
        TypBody::String => "string".to_owned(),
        TypBody::Symbol => "symbol".to_owned(),
        TypBody::Rational => "rational".to_owned(),
        TypBody::Float => "float".to_owned(),
        TypBody::Int => "int".to_owned(),
        TypBody::I8 => "i8".to_owned(),
        TypBody::I16 => "i16".to_owned(),
        TypBody::I32 => "i32".to_owned(),
        TypBody::I64 => "i64".to_owned(),
        TypBody::U8 => "u8".to_owned(),
        TypBody::U16 => "u16".to_owned(),
        TypBody::U32 => "u32".to_owned(),
        TypBody::U64 => "u64".to_owned(),
        TypBody::Syntax => "syntax".to_owned(),
        TypBody::Void => "void".to_owned(),
        TypBody::Vector(t) => {
            let mut r = "(array ".to_owned();
            let inner = t.to_text();
            r.append(inner.as_str());
            r.append(")");
            r
        },
        TypBody::List(t) => {
            let mut r = "(list ".to_owned();
            let inner = t.to_text();
            r.append(inner.as_str());
            r.append(")");
            r
        },
        TypBody::Pair(a, b2) => {
            let mut r = "(pair ".to_owned();
            let ta = a.to_text();
            r.append(ta.as_str());
            r.append(" ");
            let tb = b2.to_text();
            r.append(tb.as_str());
            r.append(")");
            r
        },
        TypBody::Record(fields) => {
            let mut r = "(record".to_owned();
            let inner = record_join_to_text(fields);
            r.append(inner.as_str());
            r.append(")");
            r
        },
        TypBody::Func { params, result } => {
            let mut r = typs_join_to_text(params);
            r.append(" -> ");
            let inner = result.to_text();
            r.append(inner.as_str());
            r
        },
        TypBody::Unknown => "unknown".to_owned(),
    }
}

} // verus!
