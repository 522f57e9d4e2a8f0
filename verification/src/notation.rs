//! The surface tree: a generic s-expression-like node with a source
//! span, as the upstream notation parser supplies it.  The expander
//! reads these nodes and never mutates them.

use vstd::prelude::*;
use vstd::string::StringExecFns;
use crate::ast::ReportSpan;
use crate::ast::SpecSpan;
use crate::render::spec_decimal;
use crate::render::u64_to_string;

verus! {

/// Mathematical model of a surface node's body.
#[verifier::ext_equal]
pub ghost enum SpecNotationBody {
    Boolean(bool),
    Char(char),
    Float(nat),
    Rational(int, int),
    Int(int),
    String(Seq<char>),
    Identifier(Seq<char>),
    Symbol(Seq<char>),
    List(Seq<SpecNotation>),
    Vector(Seq<SpecNotation>),
    SetForm(Seq<SpecNotation>),
    Object(Seq<(Seq<char>, SpecNotation)>),
    Quoting(Box<SpecNotation>),
    Syntaxing(Box<SpecNotation>),
}

/// Mathematical model of a surface node.
#[verifier::ext_equal]
pub ghost struct SpecNotation {
    pub span: SpecSpan,
    pub body: SpecNotationBody,
}

/// The body of one surface node: a literal, a container, or a quoting
/// form.  A float literal is carried as its raw bit pattern, which the
/// expander moves around but never computes with.
#[derive(Debug, PartialEq)]
pub enum NotationBody {
    Boolean(bool),
    Char(char),
    Float(u64),
    Rational(i64, i64),
    Int(i64),
    String(String),
    Identifier(String),
    Symbol(String),
    List(Vec<Notation>),
    Vector(Vec<Notation>),
    SetForm(Vec<Notation>),
    Object(Vec<(String, Notation)>),
    Quoting(Box<Notation>),
    Syntaxing(Box<Notation>),
}

/// One node of the surface tree, with the span it was read from.
#[derive(Debug, PartialEq)]
pub struct Notation {
    pub span: ReportSpan,
    pub body: NotationBody,
}

pub open spec fn notation_view(n: Notation) -> SpecNotation
    decreases n,
{
    SpecNotation { span: n.span@, body: notation_body_view(n.body) }
}

pub open spec fn notations_view(s: Seq<Notation>) -> Seq<SpecNotation>
    decreases s,
{
    if s.len() == 0 {
        Seq::empty()
    } else {
        notations_view(s.drop_last()).push(notation_view(s.last()))
    }
}

pub open spec fn object_fields_view(s: Seq<(String, Notation)>) -> Seq<(Seq<char>, SpecNotation)>
    decreases s,
{
    if s.len() == 0 {
        Seq::empty()
    } else {
        object_fields_view(s.drop_last()).push((s.last().0@, notation_view(s.last().1)))
    }
}

pub open spec fn notation_body_view(b: NotationBody) -> SpecNotationBody
    decreases b,
{
    match b {
        NotationBody::Boolean(v) => SpecNotationBody::Boolean(v),
        NotationBody::Char(v) => SpecNotationBody::Char(v),
        NotationBody::Float(bits) => SpecNotationBody::Float(bits as nat),
        NotationBody::Rational(p, q) => SpecNotationBody::Rational(p as int, q as int),
        NotationBody::Int(v) => SpecNotationBody::Int(v as int),
        NotationBody::String(s) => SpecNotationBody::String(s@),
        NotationBody::Identifier(s) => SpecNotationBody::Identifier(s@),
        NotationBody::Symbol(s) => SpecNotationBody::Symbol(s@),
        NotationBody::List(xs) => SpecNotationBody::List(notations_view(xs@)),
        NotationBody::Vector(xs) => SpecNotationBody::Vector(notations_view(xs@)),
        NotationBody::SetForm(xs) => SpecNotationBody::SetForm(notations_view(xs@)),
        NotationBody::Object(fields) => SpecNotationBody::Object(object_fields_view(fields@)),
        NotationBody::Quoting(inner) => SpecNotationBody::Quoting(Box::new(notation_view(*inner))),
        NotationBody::Syntaxing(inner) => SpecNotationBody::Syntaxing(
            Box::new(notation_view(*inner)),
        ),
    }
}

impl View for Notation {
    type V = SpecNotation;

    open spec fn view(&self) -> SpecNotation {
        notation_view(*self)
    }
}

impl View for NotationBody {
    type V = SpecNotationBody;

    open spec fn view(&self) -> SpecNotationBody {
        notation_body_view(*self)
    }
}

/// `notations_view` maps the sequence elementwise.
pub proof fn lemma_notations_view_index(s: Seq<Notation>)
    ensures
        notations_view(s).len() == s.len(),
        forall|i: int| 0 <= i < s.len() ==> notations_view(s)[i] == notation_view(s[i]),
    decreases s,
{
    if s.len() > 0 {
        lemma_notations_view_index(s.drop_last());
    }
}

/// `object_fields_view` maps the sequence elementwise.
pub proof fn lemma_object_fields_view_index(s: Seq<(String, Notation)>)
    ensures
        object_fields_view(s).len() == s.len(),
        forall|i: int| 0 <= i < s.len() ==> object_fields_view(s)[i] == (
            s[i].0@,
            notation_view(s[i].1),
        ),
    decreases s,
{
    if s.len() > 0 {
        lemma_object_fields_view_index(s.drop_last());
    }
}

/// The number of nodes of a surface tree; every scope the expander ever
/// allocates while expanding a node is paid for by one of these.
pub open spec fn spec_size(n: SpecNotation) -> nat
    decreases n,
{
    match n.body {
        SpecNotationBody::List(xs) => 1 + spec_sizes(xs),
        SpecNotationBody::Vector(xs) => 1 + spec_sizes(xs),
        SpecNotationBody::SetForm(xs) => 1 + spec_sizes(xs),
        SpecNotationBody::Object(fields) => 1 + spec_object_sizes(fields),
        SpecNotationBody::Quoting(inner) => 1 + spec_size(*inner),
        SpecNotationBody::Syntaxing(inner) => 1 + spec_size(*inner),
        _ => 1,
    }
}

pub open spec fn spec_sizes(s: Seq<SpecNotation>) -> nat
    decreases s,
{
    if s.len() == 0 {
        0
    } else {
        spec_sizes(s.drop_last()) + spec_size(s.last())
    }
}

pub open spec fn spec_object_sizes(s: Seq<(Seq<char>, SpecNotation)>) -> nat
    decreases s,
{
    if s.len() == 0 {
        0
    } else {
        spec_object_sizes(s.drop_last()) + spec_size(s.last().1)
    }
}

/// Every node has at least one element of size.
pub proof fn lemma_size_pos(n: SpecNotation)
    ensures
        spec_size(n) >= 1,
{
}

/// An element's size is bounded by the whole sequence's size.
pub proof fn lemma_sizes_bound(s: Seq<SpecNotation>, i: int)
    requires
        0 <= i < s.len(),
    ensures
        spec_size(s[i]) <= spec_sizes(s),
    decreases s,
{
    if i == s.len() - 1 {
        assert(s.last() == s[i]);
    } else {
        assert(s.drop_last()[i] == s[i]);
        lemma_sizes_bound(s.drop_last(), i);
    }
}

impl Notation {
    /// A deep copy whose model is the same tree.
    pub fn duplicate(&self) -> (r: Notation)
        ensures
            r@ == self@,
        decreases *self, 0int,
    {
        Notation { span: self.span.duplicate(), body: notation_body_duplicate(&self.body) }
    }
}

pub fn notations_duplicate(v: &Vec<Notation>) -> (r: Vec<Notation>)
    ensures
        notations_view(r@) == notations_view(v@),
        r@.len() == v@.len(),
    decreases *v, 0int,
{
    let n = v.len();
    let mut r: Vec<Notation> = Vec::new();
    let mut i: usize = 0;
    while i < n
        invariant
            n == v@.len(),
            0 <= i <= n,
            r@.len() == i,
            forall|k: int| 0 <= k < i ==> r@[k]@ == v@[k]@,
        decreases n - i,
    {
        let d = v[i].duplicate();
        r.push(d);
        i += 1;
    }
    proof {
        lemma_notations_view_index(r@);
        lemma_notations_view_index(v@);
        assert(notations_view(r@) =~= notations_view(v@));
    }
    r
}

fn object_fields_duplicate(v: &Vec<(String, Notation)>) -> (r: Vec<(String, Notation)>)
    ensures
        object_fields_view(r@) == object_fields_view(v@),
        r@.len() == v@.len(),
    decreases *v, 0int,
{
    let n = v.len();
    let mut r: Vec<(String, Notation)> = Vec::new();
    let mut i: usize = 0;
    while i < n
        invariant
            n == v@.len(),
            0 <= i <= n,
            r@.len() == i,
            forall|k: int| 0 <= k < i ==> r@[k].0@ == v@[k].0@ && r@[k].1@ == v@[k].1@,
        decreases n - i,
    {
        let name = v[i].0.clone();
        let d = v[i].1.duplicate();
        r.push((name, d));
        i += 1;
    }
    proof {
        lemma_object_fields_view_index(r@);
        lemma_object_fields_view_index(v@);
        assert(object_fields_view(r@) =~= object_fields_view(v@));
    }
    r
}

fn notation_body_duplicate(b: &NotationBody) -> (r: NotationBody)
    ensures
        r@ == b@,
    decreases *b, 0int,
{
    match b {
        NotationBody::Boolean(v) => NotationBody::Boolean(*v),
        NotationBody::Char(v) => NotationBody::Char(*v),
        NotationBody::Float(bits) => NotationBody::Float(*bits),
        NotationBody::Rational(p, q) => NotationBody::Rational(*p, *q),
        NotationBody::Int(v) => NotationBody::Int(*v),
        NotationBody::String(s) => NotationBody::String(s.clone()),
        NotationBody::Identifier(s) => NotationBody::Identifier(s.clone()),
        NotationBody::Symbol(s) => NotationBody::Symbol(s.clone()),
        NotationBody::List(xs) => NotationBody::List(notations_duplicate(xs)),
        NotationBody::Vector(xs) => NotationBody::Vector(notations_duplicate(xs)),
        NotationBody::SetForm(xs) => NotationBody::SetForm(notations_duplicate(xs)),
        NotationBody::Object(fields) => NotationBody::Object(object_fields_duplicate(fields)),
        NotationBody::Quoting(inner) => NotationBody::Quoting(Box::new(inner.duplicate())),
        NotationBody::Syntaxing(inner) => NotationBody::Syntaxing(Box::new(inner.duplicate())),
    }
}

} // verus!

verus! {

/// The plain-text rendering of a surface node, as the notation parser
/// would print it back.
pub open spec fn spec_notation_text(n: SpecNotation) -> Seq<char>
    decreases n, 1int,
{
    match n.body {
        SpecNotationBody::Boolean(v) => if v {
            "#t"@
        } else {
            "#f"@
        },
        SpecNotationBody::Char(c) => "#\\"@ + seq![c],
        SpecNotationBody::Float(bits) => "#float"@,
        SpecNotationBody::Rational(p, q) => crate::render::spec_int_text(p) + "/"@
            + crate::render::spec_int_text(q),
        SpecNotationBody::Int(v) => crate::render::spec_int_text(v),
        SpecNotationBody::String(s) => "\""@ + s + "\""@,
        SpecNotationBody::Identifier(s) => s,
        SpecNotationBody::Symbol(s) => "'"@ + s,
        SpecNotationBody::List(xs) => "("@ + spec_notations_join_text(xs) + ")"@,
        SpecNotationBody::Vector(xs) => "#("@ + spec_notations_join_text(xs) + ")"@,
        SpecNotationBody::SetForm(xs) => "#{"@ + spec_notations_join_text(xs) + "}"@,
        SpecNotationBody::Object(fields) => "{"@ + spec_object_join_text(fields) + "}"@,
        SpecNotationBody::Quoting(inner) => "'"@ + spec_notation_text(*inner),
        SpecNotationBody::Syntaxing(inner) => "#'"@ + spec_notation_text(*inner),
    }
}

/// Space-separated renderings of a list of nodes.
pub open spec fn spec_notations_join_text(s: Seq<SpecNotation>) -> Seq<char>
    decreases s, 2int,
{
    if s.len() == 0 {
        Seq::empty()
    } else if s.len() == 1 {
        spec_notation_text(s[0])
    } else {
        spec_notations_join_text(s.drop_last()) + " "@ + spec_notation_text(s.last())
    }
}

/// Comma-separated renderings of object fields, each as `name: value`.
pub open spec fn spec_object_join_text(s: Seq<(Seq<char>, SpecNotation)>) -> Seq<char>
    decreases s, 2int,
{
    if s.len() == 0 {
        Seq::empty()
    } else if s.len() == 1 {
        s[0].0 + ": "@ + spec_notation_text(s[0].1)
    } else {
        spec_object_join_text(s.drop_last()) + ", "@ + s.last().0 + ": "@ + spec_notation_text(
            s.last().1,
        )
    }
}

/// Adding one element on the right extends the joined rendering.
pub proof fn lemma_notations_join_snoc(s: Seq<SpecNotation>, i: int)
    requires
        0 <= i < s.len(),
    ensures
        spec_notations_join_text(s.subrange(0, i + 1)) == if i == 0 {
            spec_notation_text(s[0])
        } else {
            spec_notations_join_text(s.subrange(0, i)) + " "@ + spec_notation_text(s[i])
        },
{
    assert(s.subrange(0, i + 1).drop_last() =~= s.subrange(0, i));
    assert(s.subrange(0, i + 1).last() == s[i]);
    if i == 0 {
        assert(s.subrange(0, 1)[0] == s[0]);
    }
}

/// Adding one field on the right extends the joined rendering.
pub proof fn lemma_object_join_snoc(s: Seq<(Seq<char>, SpecNotation)>, i: int)
    requires
        0 <= i < s.len(),
    ensures
        spec_object_join_text(s.subrange(0, i + 1)) == if i == 0 {
            s[0].0 + ": "@ + spec_notation_text(s[0].1)
        } else {
            spec_object_join_text(s.subrange(0, i)) + ", "@ + s[i].0 + ": "@ + spec_notation_text(
                s[i].1,
            )
        },
{
    assert(s.subrange(0, i + 1).drop_last() =~= s.subrange(0, i));
    assert(s.subrange(0, i + 1).last() == s[i]);
    if i == 0 {
        assert(s.subrange(0, 1)[0] == s[0]);
    }
}

impl Notation {
    /// Renders the node back to source-like text.
    pub fn to_text(&self) -> (r: String)
        ensures
            r@ == spec_notation_text(self@),
        decreases *self, 1int,
    {
        match &self.body {
            NotationBody::Boolean(v) => {
                if *v {
                    "#t".to_owned()
                } else {
                    "#f".to_owned()
                }
            },
            NotationBody::Char(c) => {
                let mut r = "#\\".to_owned();
                crate::render::push_char(&mut r, *c);
                r
            },
            NotationBody::Float(bits) => "#float".to_owned(),
            NotationBody::Rational(p, q) => {
                let mut r = crate::render::i64_to_string(*p);
                r.append("/");
                let d = crate::render::i64_to_string(*q);
                r.append(d.as_str());
                r
            },
            NotationBody::Int(v) => crate::render::i64_to_string(*v),
            NotationBody::String(s) => {
                let mut r = "\"".to_owned();
                r.append(s.as_str());
                r.append("\"");
                r
            },
            NotationBody::Identifier(s) => s.clone(),
            NotationBody::Symbol(s) => {
                let mut r = "'".to_owned();
                r.append(s.as_str());
                r
            },
            NotationBody::List(xs) => {
                let mut r = "(".to_owned();
                let inner = notations_join_to_text(xs);
                r.append(inner.as_str());
                r.append(")");
                r
            },
            NotationBody::Vector(xs) => {
                let mut r = "#(".to_owned();
                let inner = notations_join_to_text(xs);
                r.append(inner.as_str());
                r.append(")");
                r
            },
            NotationBody::SetForm(xs) => {
                let mut r = "#{".to_owned();
                let inner = notations_join_to_text(xs);
                r.append(inner.as_str());
                r.append("}");
                r
            },
            NotationBody::Object(fields) => {
                let mut r = "{".to_owned();
                let inner = object_join_to_text(fields);
                r.append(inner.as_str());
                r.append("}");
                r
            },
            NotationBody::Quoting(inner) => {
                let mut r = "'".to_owned();
                let t = inner.to_text();
                r.append(t.as_str());
                r
            },
            NotationBody::Syntaxing(inner) => {
                let mut r = "#'".to_owned();
                let t = inner.to_text();
                r.append(t.as_str());
                r
            },
        }
    }
}

/// Renders a list of nodes, space separated.
pub fn notations_join_to_text(v: &Vec<Notation>) -> (r: String)
    ensures
        r@ == spec_notations_join_text(notations_view(v@)),
    decreases *v, 2int,
{
    proof {
        lemma_notations_view_index(v@);
    }
    let n = v.len();
    let mut r = String::new();
    let mut i: usize = 0;
    while i < n
        invariant
            n == v@.len(),
            0 <= i <= n,
            notations_view(v@).len() == n,
            forall|k: int| 0 <= k < n ==> notations_view(v@)[k] == notation_view(v@[k]),
            r@ == spec_notations_join_text(notations_view(v@).subrange(0, i as int)),
        decreases n - i,
    {
        if i > 0 {
            r.append(" ");
        }
        let t = v[i].to_text();
        r.append(t.as_str());
        proof {
            lemma_notations_join_snoc(notations_view(v@), i as int);
            if i == 0 {
                assert(Seq::<char>::empty() + spec_notation_text(notations_view(v@)[0])
                    =~= spec_notation_text(notations_view(v@)[0]));
            }
        }
        i += 1;
    }
    proof {
        assert(notations_view(v@).subrange(0, n as int) =~= notations_view(v@));
    }
    r
}

fn object_join_to_text(v: &Vec<(String, Notation)>) -> (r: String)
    ensures
        r@ == spec_object_join_text(object_fields_view(v@)),
    decreases *v, 2int,
{
    proof {
        lemma_object_fields_view_index(v@);
    }
    let n = v.len();
    let mut r = String::new();
    let mut i: usize = 0;
    while i < n
        invariant
            n == v@.len(),
            0 <= i <= n,
            object_fields_view(v@).len() == n,
            forall|k: int| 0 <= k < n ==> object_fields_view(v@)[k] == (
                v@[k].0@,
                notation_view(v@[k].1),
            ),
            r@ == spec_object_join_text(object_fields_view(v@).subrange(0, i as int)),
        decreases n - i,
    {
        if i > 0 {
            r.append(", ");
        } else {
        }
        r.append(v[i].0.as_str());
        r.append(": ");
        let t = v[i].1.to_text();
        r.append(t.as_str());
        proof {
            lemma_object_join_snoc(object_fields_view(v@), i as int);
            if i == 0 {
                assert(Seq::<char>::empty() + object_fields_view(v@)[0].0 =~= object_fields_view(
                    v@,
                )[0].0);
            }
        }
        i += 1;
    }
    proof {
        assert(object_fields_view(v@).subrange(0, n as int) =~= object_fields_view(v@));
    }
    r
}

} // verus!

verus! {

/// The size of a nonempty sequence splits at its head.
pub proof fn lemma_sizes_cons(s: Seq<SpecNotation>)
    requires
        s.len() > 0,
    ensures
        spec_sizes(s) == spec_size(s[0]) + spec_sizes(s.skip(1)),
    decreases s.len(),
{
    if s.len() == 1 {
        assert(s.skip(1) =~= Seq::<SpecNotation>::empty());
        assert(s.drop_last() =~= Seq::<SpecNotation>::empty());
        assert(s.last() == s[0]);
    } else {
        let dl = s.drop_last();
        lemma_sizes_cons(dl);
        assert(dl[0] == s[0]);
        assert(s.skip(1).drop_last() =~= dl.skip(1));
        assert(s.skip(1).last() == s.last());
    }
}

/// Dropping a prefix never grows the size.
pub proof fn lemma_sizes_skip(s: Seq<SpecNotation>, k: int)
    requires
        0 <= k <= s.len(),
    ensures
        spec_sizes(s.skip(k)) <= spec_sizes(s),
    decreases k,
{
    if k == 0 {
        assert(s.skip(0) =~= s);
    } else {
        lemma_sizes_skip(s, k - 1);
        let t = s.skip(k - 1);
        assert(t.len() > 0);
        lemma_sizes_cons(t);
        assert(t.skip(1) =~= s.skip(k));
    }
}

} // verus!
