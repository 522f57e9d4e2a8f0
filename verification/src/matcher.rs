//! The pattern matcher: destructures surface notations against
//! declarative patterns and records named captures.  Matching is pure:
//! a failed match leaves the capture table exactly as it was.

use vstd::prelude::*;
use crate::notation::Notation;
use crate::notation::NotationBody;
use crate::notation::SpecNotation;
use crate::notation::SpecNotationBody;
use crate::notation::notation_view;
use crate::notation::notations_view;
use crate::notation::lemma_notations_view_index;
use crate::render::str_eq;

verus! {

/// Mathematical model of a pattern.
pub ghost enum SpecPattern {
    List(Seq<SpecPattern>),
    Id(Seq<char>),
    Hole(Seq<char>),
    RestHole(Seq<char>),
}

/// A declarative pattern over surface notations.
pub enum EPattern<'a> {
    /// Matches a list container whose elements pair off against the
    /// subpatterns in order.
    List(Vec<EPattern<'a>>),
    /// Matches only an identifier literal with exactly this text.
    Id(&'a str),
    /// Matches any single node, capturing it under the given name.
    Hole(&'a str),
    /// Captures all remaining siblings of a list; must come last.
    RestHole(&'a str),
}

pub open spec fn pattern_view(p: EPattern) -> SpecPattern
    decreases p,
{
    match p {
        EPattern::List(ps) => SpecPattern::List(patterns_view(ps@)),
        EPattern::Id(s) => SpecPattern::Id(s@),
        EPattern::Hole(s) => SpecPattern::Hole(s@),
        EPattern::RestHole(s) => SpecPattern::RestHole(s@),
    }
}

pub open spec fn patterns_view(s: Seq<EPattern>) -> Seq<SpecPattern>
    decreases s,
{
    if s.len() == 0 {
        Seq::empty()
    } else {
        patterns_view(s.drop_last()).push(pattern_view(s.last()))
    }
}

impl<'a> View for EPattern<'a> {
    type V = SpecPattern;

    open spec fn view(&self) -> SpecPattern {
        pattern_view(*self)
    }
}

/// `patterns_view` maps the sequence elementwise.
pub proof fn lemma_patterns_view_index(s: Seq<EPattern>)
    ensures
        patterns_view(s).len() == s.len(),
        forall|i: int| 0 <= i < s.len() ==> patterns_view(s)[i] == pattern_view(s[i]),
    decreases s,
{
    if s.len() > 0 {
        lemma_patterns_view_index(s.drop_last());
    }
}

/// Mathematical model of one capture.
pub ghost enum SpecMatched {
    One(SpecNotation),
    Many(Seq<SpecNotation>),
}

/// One capture: a single node, or the remaining siblings of a list.
#[derive(Debug)]
pub enum Matched {
    One(Notation),
    Many(Vec<Notation>),
}

pub open spec fn matched_view(m: Matched) -> SpecMatched {
    match m {
        Matched::One(n) => SpecMatched::One(notation_view(n)),
        Matched::Many(v) => SpecMatched::Many(notations_view(v@)),
    }
}

impl View for Matched {
    type V = SpecMatched;

    open spec fn view(&self) -> SpecMatched {
        matched_view(*self)
    }
}

/// The view of a capture table: names with what they captured, in the
/// order the captures were recorded.
pub open spec fn binds_view(s: Seq<(String, Matched)>) -> Seq<(Seq<char>, SpecMatched)> {
    s.map_values(|p: (String, Matched)| (p.0@, matched_view(p.1)))
}

/// The capture table that a successful match fills in.
#[derive(Debug)]
pub struct MatchedResult {
    pub binds: Vec<(String, Matched)>,
}

impl View for MatchedResult {
    type V = Seq<(Seq<char>, SpecMatched)>;

    open spec fn view(&self) -> Seq<(Seq<char>, SpecMatched)> {
        binds_view(self.binds@)
    }
}

/// Whether the node is an identifier literal.
pub fn is_identifier(n: &Notation) -> (r: bool)
    ensures
        r == (n@.body is Identifier),
{
    match &n.body {
        NotationBody::Identifier(_) => true,
        _ => false,
    }
}

/// What a match of `n` against `p` captures: `None` when the match
/// fails, otherwise the named captures in pattern order.
pub open spec fn spec_match(n: SpecNotation, p: SpecPattern) -> Option<
    Seq<(Seq<char>, SpecMatched)>,
>
    decreases p, 0int,
{
    match p {
        SpecPattern::Hole(name) => Some(seq![(name, SpecMatched::One(n))]),
        SpecPattern::Id(text) => match n.body {
            SpecNotationBody::Identifier(id) => if id == text {
                Some(Seq::empty())
            } else {
                None
            },
            _ => None,
        },
        SpecPattern::RestHole(name) => None,
        SpecPattern::List(ps) => match n.body {
            SpecNotationBody::List(elems) => spec_match_list(elems, ps),
            _ => None,
        },
    }
}

/// Matching of list elements against subpatterns, in order; a trailing
/// rest-hole captures every remaining element.
pub open spec fn spec_match_list(
    elems: Seq<SpecNotation>,
    ps: Seq<SpecPattern>,
) -> Option<Seq<(Seq<char>, SpecMatched)>>
    decreases ps, 1int,
{
    if ps.len() == 0 {
        if elems.len() == 0 {
            Some(Seq::empty())
        } else {
            None
        }
    } else if ps[0] is RestHole {
        Some(seq![(ps[0]->RestHole_0, SpecMatched::Many(elems))])
    } else if elems.len() == 0 {
        None
    } else {
        match spec_match(elems[0], ps[0]) {
            None => None,
            Some(head_caps) => match spec_match_list(elems.skip(1), ps.skip(1)) {
                None => None,
                Some(tail_caps) => Some(head_caps + tail_caps),
            },
        }
    }
}

fn try_match(n: &Notation, p: &EPattern, caps: &mut Vec<(String, Matched)>) -> (r: bool)
    ensures
        r == (spec_match(n@, p@) is Some),
        r ==> binds_view(final(caps)@) == binds_view(old(caps)@) + spec_match(n@, p@)->Some_0,
        r ==> old(caps)@.len() <= final(caps)@.len() && final(caps)@.subrange(
            0,
            old(caps)@.len() as int,
        ) == old(caps)@,
        !r ==> final(caps)@ == old(caps)@,
    decreases *p, 0int,
{
    match p {
        EPattern::Hole(name) => {
            let captured = n.duplicate();
            caps.push(((*name).to_owned(), Matched::One(captured)));
            proof {
                assert(binds_view(caps@) =~= binds_view(old(caps)@) + spec_match(n@, p@)->Some_0);
                assert(caps@.subrange(0, old(caps)@.len() as int) =~= old(caps)@);
            }
            true
        },
        EPattern::Id(text) => {
            match &n.body {
                NotationBody::Identifier(id) => str_eq(id.as_str(), text),
                _ => false,
            }
        },
        EPattern::RestHole(_) => false,
        EPattern::List(ps) => {
            match &n.body {
                NotationBody::List(elems) => {
                    let r = try_match_list_from(elems, ps, 0, caps);
                    proof {
                        assert(notations_view(elems@).skip(0) =~= notations_view(elems@));
                        assert(patterns_view(ps@).skip(0) =~= patterns_view(ps@));
                    }
                    r
                },
                _ => false,
            }
        },
    }
}

fn try_match_list_from(
    elems: &Vec<Notation>,
    ps: &Vec<EPattern>,
    i: usize,
    caps: &mut Vec<(String, Matched)>,
) -> (r: bool)
    requires
        i <= elems@.len(),
        i <= ps@.len(),
    ensures
        r == (spec_match_list(notations_view(elems@).skip(i as int), patterns_view(ps@).skip(i as int)) is Some),
        r ==> binds_view(final(caps)@) == binds_view(old(caps)@) + spec_match_list(
            notations_view(elems@).skip(i as int),
            patterns_view(ps@).skip(i as int),
        )->Some_0,
        r ==> old(caps)@.len() <= final(caps)@.len() && final(caps)@.subrange(
            0,
            old(caps)@.len() as int,
        ) == old(caps)@,
        !r ==> final(caps)@ == old(caps)@,
    decreases *ps, 1int, ps@.len() - i,
{
    proof {
        lemma_notations_view_index(elems@);
        lemma_patterns_view_index(ps@);
    }
    let ghost ev = notations_view(elems@).skip(i as int);
    let ghost pv = patterns_view(ps@).skip(i as int);
    if i == ps.len() {
        proof {
            assert(pv.len() == 0);
            assert(ev.len() == elems@.len() - i);
        }
        if i == elems.len() {
            proof {
                assert(binds_view(caps@) =~= binds_view(caps@) + Seq::empty());
            }
            true
        } else {
            false
        }
    } else {
        proof {
            assert(pv[0] == pattern_view(ps@[i as int]));
        }
        match &ps[i] {
            EPattern::RestHole(name) => {
                let mut rest: Vec<Notation> = Vec::new();
                let n = elems.len();
                let mut j: usize = i;
                while j < n
                    invariant
                        i <= j <= n,
                        n == elems@.len(),
                        rest@.len() == j - i,
                        forall|k: int| 0 <= k < j - i ==> rest@[k]@ == elems@[i + k]@,
                    decreases n - j,
                {
                    let d = elems[j].duplicate();
                    rest.push(d);
                    j += 1;
                }
                proof {
                    lemma_notations_view_index(rest@);
                    lemma_notations_view_index(elems@);
                    assert(notations_view(rest@) =~= notations_view(elems@).skip(i as int));
                }
                caps.push(((*name).to_owned(), Matched::Many(rest)));
                proof {
                    assert(binds_view(caps@) =~= binds_view(old(caps)@) + spec_match_list(
                        ev,
                        pv,
                    )->Some_0);
                    assert(caps@.subrange(0, old(caps)@.len() as int) =~= old(caps)@);
                }
                true
            },
            pat => {
                if i == elems.len() {
                    proof {
                        assert(ev.len() == 0);
                        assert(!(pv[0] is RestHole));
                    }
                    false
                } else {
                    proof {
                        assert(ev[0] == notation_view(elems@[i as int]));
                        assert(!(pv[0] is RestHole));
                    }
                    let start_len = caps.len();
                    let ghost caps0 = caps@;
                    let head_ok = try_match(&elems[i], pat, caps);
                    if !head_ok {
                        false
                    } else {
                        let ghost caps1 = caps@;
                        let tail_ok = try_match_list_from(elems, ps, i + 1, caps);
                        proof {
                            assert(notations_view(elems@).skip(i as int + 1) =~= ev.skip(1));
                            assert(patterns_view(ps@).skip(i as int + 1) =~= pv.skip(1));
                        }
                        if tail_ok {
                            proof {
                                assert(binds_view(caps@) =~= binds_view(caps0) + spec_match_list(
                                    ev,
                                    pv,
                                )->Some_0);
                                assert(caps@.subrange(0, caps0.len() as int) =~= caps1.subrange(
                                    0,
                                    caps1.len() as int,
                                ).subrange(0, caps0.len() as int));
                                assert(caps@.subrange(0, caps1.len() as int).subrange(
                                    0,
                                    caps0.len() as int,
                                ) =~= caps@.subrange(0, caps0.len() as int));
                                assert(caps@.subrange(0, caps0.len() as int) =~= caps0);
                            }
                            true
                        } else {
                            caps.truncate(start_len);
                            proof {
                                assert(caps1.subrange(0, caps0.len() as int) =~= caps0);
                                assert(caps@ =~= caps0);
                            }
                            false
                        }
                    }
                }
            },
        }
    }
}

/// Matches `notation` against `pattern`.  On success the named captures
/// are appended to `binds`; on failure `binds` is left untouched.
pub fn ematch(binds: &mut MatchedResult, notation: &Notation, pattern: EPattern) -> (r: bool)
    ensures
        r == (spec_match(notation@, pattern@) is Some),
        r ==> final(binds)@ == old(binds)@ + spec_match(notation@, pattern@)->Some_0,
        !r ==> final(binds)@ == old(binds)@,
{
    let mut caps: Vec<(String, Matched)> = Vec::new();
    let ok = try_match(notation, &pattern, &mut caps);
    if ok {
        proof {
            assert(binds_view(Seq::<(String, Matched)>::empty()) =~= Seq::<(
                Seq<char>,
                SpecMatched,
            )>::empty());
            assert(binds_view(caps@) =~= spec_match(notation@, pattern@)->Some_0);
        }
        while caps.len() > 0
            invariant
                binds_view(binds.binds@) + binds_view(caps@) =~= binds_view(old(binds).binds@)
                    + spec_match(notation@, pattern@)->Some_0,
            decreases caps@.len(),
        {
            let ghost binds0 = binds.binds@;
            let ghost caps0 = caps@;
            let item = caps.remove(0);
            binds.binds.push(item);
            proof {
                assert(binds_view(binds.binds@) =~= binds_view(binds0).push(
                    (caps0[0].0@, matched_view(caps0[0].1)),
                ));
                assert(binds_view(caps@) =~= binds_view(caps0).skip(1));
                assert(binds_view(binds.binds@) + binds_view(caps@) =~= binds_view(binds0)
                    + binds_view(caps0));
            }
        }
        proof {
            assert(binds_view(caps@) =~= Seq::<(Seq<char>, SpecMatched)>::empty());
            assert(binds@ =~= old(binds)@ + spec_match(notation@, pattern@)->Some_0);
        }
        true
    } else {
        false
    }
}

} // verus!

verus! {

/// The capture recorded under `name`: the most recently recorded one
/// wins, as a later capture of the same name overwrites an earlier one.
pub open spec fn spec_find(
    binds: Seq<(Seq<char>, SpecMatched)>,
    name: Seq<char>,
) -> Option<SpecMatched>
    decreases binds.len(),
{
    if binds.len() == 0 {
        None
    } else if binds.last().0 == name {
        Some(binds.last().1)
    } else {
        spec_find(binds.drop_last(), name)
    }
}

impl MatchedResult {
    /// An empty capture table.
    pub fn new() -> (r: MatchedResult)
        ensures
            r@ == Seq::<(Seq<char>, SpecMatched)>::empty(),
    {
        let r = MatchedResult { binds: Vec::new() };
        proof {
            assert(r@ =~= Seq::<(Seq<char>, SpecMatched)>::empty());
        }
        r
    }

    /// The capture recorded under `name`, if any.
    pub fn get(&self, name: &String) -> (r: Option<&Matched>)
        ensures
            match (r, spec_find(self@, name@)) {
                (Some(m), Some(sm)) => m@ == sm,
                (None, None) => true,
                _ => false,
            },
    {
        let n = self.binds.len();
        proof {
            assert(self@.len() == n);
            assert(self@.take(n as int) =~= self@);
        }
        let mut i: usize = n;
        while i > 0
            invariant
                0 <= i <= n,
                n == self.binds@.len(),
                self@.len() == n,
                spec_find(self@, name@) == spec_find(self@.take(i as int), name@),
            decreases i,
        {
            proof {
                assert(self@[i - 1] == (self.binds@[i - 1].0@, matched_view(self.binds@[i - 1].1)));
                assert(self@.take(i as int).last() == self@[i - 1]);
                assert(self@.take(i as int).drop_last() =~= self@.take(i as int - 1));
            }
            if self.binds[i - 1].0 == *name {
                return Some(&self.binds[i - 1].1);
            }
            i -= 1;
        }
        proof {
            assert(self@.take(0) =~= Seq::<(Seq<char>, SpecMatched)>::empty());
        }
        None
    }

    /// The single node recorded under `name`; `None` when nothing was
    /// recorded there or when the capture holds many nodes.
    pub fn get_one(&self, name: &str) -> (r: Option<&Notation>)
        ensures
            match (r, spec_find(self@, name@)) {
                (Some(n), Some(sm)) => sm is One && n@ == sm->One_0,
                (None, None) => true,
                (None, Some(sm)) => sm is Many,
                _ => false,
            },
    {
        let key = name.to_owned();
        match self.get(&key) {
            Some(Matched::One(n)) => Some(n),
            Some(Matched::Many(_)) => None,
            None => None,
        }
    }

    /// The node sequence recorded under `name`; `None` when nothing was
    /// recorded there or when the capture holds a single node.
    pub fn get_many(&self, name: &str) -> (r: Option<&Vec<Notation>>)
        ensures
            match (r, spec_find(self@, name@)) {
                (Some(v), Some(sm)) => sm is Many && notations_view(v@) == sm->Many_0,
                (None, None) => true,
                (None, Some(sm)) => sm is One,
                _ => false,
            },
    {
        let key = name.to_owned();
        match self.get(&key) {
            Some(Matched::Many(v)) => Some(v),
            Some(Matched::One(_)) => None,
            None => None,
        }
    }
}

impl Default for MatchedResult {
    fn default() -> (r: MatchedResult)
        ensures
            r@ == Seq::<(Seq<char>, SpecMatched)>::empty(),
    {
        MatchedResult::new()
    }
}

/// A matcher owning its capture table, for callers that prefer methods
/// over the free `ematch` function.
#[derive(Debug)]
pub struct Matcher {
    pub binds: MatchedResult,
}

impl View for Matcher {
    type V = Seq<(Seq<char>, SpecMatched)>;

    open spec fn view(&self) -> Seq<(Seq<char>, SpecMatched)> {
        self.binds@
    }
}

impl Matcher {
    /// Matches `notation` against `pattern`, recording captures.
    pub fn ematch(&mut self, notation: &Notation, pattern: EPattern) -> (r: bool)
        ensures
            r == (spec_match(notation@, pattern@) is Some),
            r ==> final(self)@ == old(self)@ + spec_match(notation@, pattern@)->Some_0,
            !r ==> final(self)@ == old(self)@,
    {
        ematch(&mut self.binds, notation, pattern)
    }

    /// The single node recorded under `name`.
    pub fn get_one(&self, name: &str) -> (r: Option<&Notation>)
        ensures
            match (r, spec_find(self@, name@)) {
                (Some(n), Some(sm)) => sm is One && n@ == sm->One_0,
                (None, None) => true,
                (None, Some(sm)) => sm is Many,
                _ => false,
            },
    {
        self.binds.get_one(name)
    }

    /// The node sequence recorded under `name`.
    pub fn get_many(&self, name: &str) -> (r: Option<&Vec<Notation>>)
        ensures
            match (r, spec_find(self@, name@)) {
                (Some(v), Some(sm)) => sm is Many && notations_view(v@) == sm->Many_0,
                (None, None) => true,
                (None, Some(sm)) => sm is One,
                _ => false,
            },
    {
        self.binds.get_many(name)
    }
}

impl Default for Matcher {
    fn default() -> (r: Matcher)
        ensures
            r@ == Seq::<(Seq<char>, SpecMatched)>::empty(),
    {
        Matcher { binds: MatchedResult::new() }
    }
}

} // verus!

verus! {

/// Inserting one capture into an already sorted run of captures,
/// ordered by name.
pub open spec fn spec_insert_sorted(
    s: Seq<(Seq<char>, SpecMatched)>,
    x: (Seq<char>, SpecMatched),
) -> Seq<(Seq<char>, SpecMatched)>
    decreases s.len(),
{
    if s.len() == 0 {
        seq![x]
    } else if crate::render::spec_chars_lt(x.0, s[0].0) {
        seq![x] + s
    } else {
        seq![s[0]] + spec_insert_sorted(s.skip(1), x)
    }
}

/// The capture table ordered by name, for printing.
pub open spec fn spec_sort_binds(s: Seq<(Seq<char>, SpecMatched)>) -> Seq<
    (Seq<char>, SpecMatched),
>
    decreases s.len(),
{
    if s.len() == 0 {
        Seq::empty()
    } else {
        spec_insert_sorted(spec_sort_binds(s.drop_last()), s.last())
    }
}

/// The rendering of one capture's value.
pub open spec fn spec_matched_text(m: SpecMatched) -> Seq<char> {
    match m {
        SpecMatched::One(n) => crate::notation::spec_notation_text(n),
        SpecMatched::Many(v) => "("@ + crate::notation::spec_notations_join_text(v) + ")"@,
    }
}

/// One line per capture, `name = value`, each ending in a newline.
pub open spec fn spec_show_lines(s: Seq<(Seq<char>, SpecMatched)>) -> Seq<char>
    decreases s.len(),
{
    if s.len() == 0 {
        Seq::empty()
    } else {
        spec_show_lines(s.drop_last()) + s.last().0 + " = "@ + spec_matched_text(s.last().1)
            + "\n"@
    }
}

proof fn lemma_insert_sorted_at(s: Seq<(Seq<char>, SpecMatched)>, x: (Seq<char>, SpecMatched), j: int)
    requires
        0 <= j <= s.len(),
        forall|k: int| 0 <= k < j ==> !crate::render::spec_chars_lt(x.0, s[k].0),
        j < s.len() ==> crate::render::spec_chars_lt(x.0, s[j].0),
    ensures
        spec_insert_sorted(s, x) == s.subrange(0, j) + seq![x] + s.subrange(j, s.len() as int),
    decreases j,
{
    if s.len() == 0 {
        assert(spec_insert_sorted(s, x) =~= s.subrange(0, 0) + seq![x] + s.subrange(0, 0));
    } else if j == 0 {
        assert(spec_insert_sorted(s, x) =~= s.subrange(0, 0) + seq![x] + s.subrange(
            0,
            s.len() as int,
        ));
    } else {
        let t = s.skip(1);
        assert forall|k: int| 0 <= k < j - 1 implies !crate::render::spec_chars_lt(
            x.0,
            t[k].0,
        ) by {
            assert(t[k] == s[k + 1]);
        }
        assert(j - 1 < t.len() ==> crate::render::spec_chars_lt(x.0, t[j - 1].0));
        lemma_insert_sorted_at(t, x, j - 1);
        assert(spec_insert_sorted(s, x) =~= s.subrange(0, j) + seq![x] + s.subrange(
            j,
            s.len() as int,
        ));
    }
}

impl Matched {
    /// A deep copy whose model is the same capture.
    pub fn duplicate(&self) -> (r: Matched)
        ensures
            r@ == self@,
    {
        match self {
            Matched::One(n) => Matched::One(n.duplicate()),
            Matched::Many(v) => Matched::Many(crate::notation::notations_duplicate(v)),
        }
    }

    /// Renders the captured value.
    pub fn to_text(&self) -> (r: String)
        ensures
            r@ == spec_matched_text(self@),
    {
        match self {
            Matched::One(n) => n.to_text(),
            Matched::Many(v) => {
                let mut r = "(".to_owned();
                let inner = crate::notation::notations_join_to_text(v);
                r.append(inner.as_str());
                r.append(")");
                r
            },
        }
    }
}

fn insert_sorted(v: &mut Vec<(String, Matched)>, x: (String, Matched))
    ensures
        binds_view(final(v)@) == spec_insert_sorted(
            binds_view(old(v)@),
            (x.0@, matched_view(x.1)),
        ),
{
    let ghost bv = binds_view(v@);
    let ghost xv = (x.0@, matched_view(x.1));
    let n = v.len();
    proof {
        assert(bv.len() == n);
    }
    let mut j: usize = 0;
    let mut stop = false;
    while j < n && !stop
        invariant
            0 <= j <= n,
            n == v@.len(),
            bv == binds_view(v@),
            bv.len() == n,
            xv == (x.0@, matched_view(x.1)),
            forall|k: int| 0 <= k < j ==> !crate::render::spec_chars_lt(xv.0, bv[k].0),
            stop ==> j < n && crate::render::spec_chars_lt(xv.0, bv[j as int].0),
        decreases n - j + (if stop { 0int } else { 1int }),
    {
        proof {
            assert(bv[j as int] == (v@[j as int].0@, matched_view(v@[j as int].1)));
        }
        let xs = x.0.as_str();
        let vs = v[j].0.as_str();
        proof {
            assert(xs@ == xv.0);
            assert(vs@ == bv[j as int].0);
        }
        let cmp = crate::render::str_chars_lt(xs, vs);
        proof {
            assert(cmp == crate::render::spec_chars_lt(xv.0, bv[j as int].0));
        }
        if cmp {
            stop = true;
        } else {
            j += 1;
        }
    }
    proof {
        lemma_insert_sorted_at(bv, xv, j as int);
    }
    v.insert(j, x);
    proof {
        assert(binds_view(v@) =~= bv.subrange(0, j as int) + seq![xv] + bv.subrange(
            j as int,
            bv.len() as int,
        ));
    }
}

impl MatchedResult {
    /// Renders every capture as `name = value`, one line each, sorted
    /// by name.
    pub fn show(&self) -> (r: String)
        ensures
            r@ == spec_show_lines(spec_sort_binds(self@)),
    {
        let n = self.binds.len();
        proof {
            assert(self@.len() == n);
        }
        let mut sorted: Vec<(String, Matched)> = Vec::new();
        let mut i: usize = 0;
        proof {
            assert(binds_view(sorted@) =~= Seq::<(Seq<char>, SpecMatched)>::empty());
            assert(self@.subrange(0, 0) =~= Seq::<(Seq<char>, SpecMatched)>::empty());
        }
        while i < n
            invariant
                0 <= i <= n,
                n == self.binds@.len(),
                self@.len() == n,
                binds_view(sorted@) == spec_sort_binds(self@.subrange(0, i as int)),
            decreases n - i,
        {
            proof {
                assert(self@[i as int] == (
                    self.binds@[i as int].0@,
                    matched_view(self.binds@[i as int].1),
                ));
                assert(self@.subrange(0, i as int + 1).drop_last() =~= self@.subrange(0, i as int));
                assert(self@.subrange(0, i as int + 1).last() == self@[i as int]);
            }
            let name = self.binds[i].0.clone();
            let value = self.binds[i].1.duplicate();
            insert_sorted(&mut sorted, (name, value));
            i += 1;
        }
        proof {
            assert(self@.subrange(0, n as int) =~= self@);
        }
        let ghost target = spec_sort_binds(self@);
        let m = sorted.len();
        proof {
            assert(binds_view(sorted@).len() == m);
            assert(binds_view(sorted@).subrange(0, 0) =~= Seq::<(Seq<char>, SpecMatched)>::empty());
        }
        let mut r = String::new();
        let mut k: usize = 0;
        while k < m
            invariant
                0 <= k <= m,
                m == sorted@.len(),
                binds_view(sorted@) == target,
                target.len() == m,
                r@ == spec_show_lines(target.subrange(0, k as int)),
            decreases m - k,
        {
            proof {
                assert(target[k as int] == (
                    sorted@[k as int].0@,
                    matched_view(sorted@[k as int].1),
                ));
                assert(target.subrange(0, k as int + 1).drop_last() =~= target.subrange(
                    0,
                    k as int,
                ));
                assert(target.subrange(0, k as int + 1).last() == target[k as int]);
            }
            r.append(sorted[k].0.as_str());
            r.append(" = ");
            let vt = sorted[k].1.to_text();
            r.append(vt.as_str());
            r.append("\n");
            k += 1;
        }
        proof {
            assert(target.subrange(0, m as int) =~= target);
        }
        r
    }
}

} // verus!

verus! {

/// Whether a surface node is an identifier literal with this text.
pub open spec fn is_id_notation(n: SpecNotation, text: Seq<char>) -> bool {
    match n.body {
        SpecNotationBody::Identifier(t) => t == text,
        _ => false,
    }
}

/// What matching `(kw rest...)` captures.
pub proof fn lemma_match_kw_rest(n: SpecNotation, kw: Seq<char>, name: Seq<char>)
    ensures
        spec_match(
            n,
            SpecPattern::List(seq![SpecPattern::Id(kw), SpecPattern::RestHole(name)]),
        ) == if n.body is List && n.body->List_0.len() >= 1 && is_id_notation(
            n.body->List_0[0],
            kw,
        ) {
            Some(seq![(name, SpecMatched::Many(n.body->List_0.skip(1)))])
        } else {
            None::<Seq<(Seq<char>, SpecMatched)>>
        },
{
    let ps = seq![SpecPattern::Id(kw), SpecPattern::RestHole(name)];
    match n.body {
        SpecNotationBody::List(elems) => {
            if elems.len() >= 1 && is_id_notation(elems[0], kw) {
                assert(spec_match(elems[0], ps[0]) == Some(Seq::<(Seq<char>, SpecMatched)>::empty()));
                assert(ps.skip(1) =~= seq![SpecPattern::RestHole(name)]);
                assert(spec_match_list(elems.skip(1), ps.skip(1)) == Some(
                    seq![(name, SpecMatched::Many(elems.skip(1)))],
                ));
                assert(Seq::<(Seq<char>, SpecMatched)>::empty() + seq![
                    (name, SpecMatched::Many(elems.skip(1))),
                ] =~= seq![(name, SpecMatched::Many(elems.skip(1)))]);
            } else if elems.len() == 0 {
                assert(spec_match_list(elems, ps) is None);
            } else {
                assert(spec_match(elems[0], ps[0]) is None);
            }
        },
        _ => {},
    }
}

/// What matching `(kw (name params...) body...)` captures.
pub proof fn lemma_match_kw_fnform(
    n: SpecNotation,
    kw: Seq<char>,
    a: Seq<char>,
    b: Seq<char>,
    c: Seq<char>,
)
    ensures
        spec_match(
            n,
            SpecPattern::List(
                seq![
                    SpecPattern::Id(kw),
                    SpecPattern::List(seq![SpecPattern::Hole(a), SpecPattern::RestHole(b)]),
                    SpecPattern::RestHole(c),
                ],
            ),
        ) == if n.body is List && n.body->List_0.len() >= 2 && is_id_notation(
            n.body->List_0[0],
            kw,
        ) && n.body->List_0[1].body is List && n.body->List_0[1].body->List_0.len() >= 1 {
            Some(
                seq![
                    (a, SpecMatched::One(n.body->List_0[1].body->List_0[0])),
                    (b, SpecMatched::Many(n.body->List_0[1].body->List_0.skip(1))),
                    (c, SpecMatched::Many(n.body->List_0.skip(2))),
                ],
            )
        } else {
            None::<Seq<(Seq<char>, SpecMatched)>>
        },
{
    let inner = seq![SpecPattern::Hole(a), SpecPattern::RestHole(b)];
    let ps = seq![
        SpecPattern::Id(kw),
        SpecPattern::List(inner),
        SpecPattern::RestHole(c),
    ];
    match n.body {
        SpecNotationBody::List(elems) => {
            if elems.len() == 0 {
                assert(spec_match_list(elems, ps) is None);
            } else if !is_id_notation(elems[0], kw) {
                assert(spec_match(elems[0], ps[0]) is None);
            } else {
                assert(spec_match(elems[0], ps[0]) == Some(Seq::<(Seq<char>, SpecMatched)>::empty()));
                let ps1 = ps.skip(1);
                assert(ps1 =~= seq![SpecPattern::List(inner), SpecPattern::RestHole(c)]);
                let e1 = elems.skip(1);
                if elems.len() == 1 {
                    assert(e1.len() == 0);
                    assert(spec_match_list(e1, ps1) is None);
                } else {
                    assert(e1[0] == elems[1]);
                    match elems[1].body {
                        SpecNotationBody::List(params) => {
                            if params.len() == 0 {
                                assert(inner[0] is Hole);
                                assert(spec_match_list(params, inner) is None);
                                assert(spec_match(e1[0], ps1[0]) is None);
                                assert(spec_match_list(e1, ps1) is None);
                            } else {
                                assert(spec_match(params[0], inner[0]) == Some(
                                    seq![(a, SpecMatched::One(params[0]))],
                                ));
                                assert(inner.skip(1) =~= seq![SpecPattern::RestHole(b)]);
                                assert(spec_match_list(params.skip(1), inner.skip(1)) == Some(
                                    seq![(b, SpecMatched::Many(params.skip(1)))],
                                ));
                                assert(spec_match_list(params, inner) == Some(
                                    seq![(a, SpecMatched::One(params[0]))] + seq![
                                        (b, SpecMatched::Many(params.skip(1))),
                                    ],
                                ));
                                assert(spec_match(e1[0], ps1[0]) == Some(
                                    seq![(a, SpecMatched::One(params[0]))] + seq![
                                        (b, SpecMatched::Many(params.skip(1))),
                                    ],
                                ));
                                let ps2 = ps1.skip(1);
                                assert(ps2 =~= seq![SpecPattern::RestHole(c)]);
                                assert(e1.skip(1) =~= elems.skip(2));
                                assert(spec_match_list(elems.skip(2), ps2) == Some(
                                    seq![(c, SpecMatched::Many(elems.skip(2)))],
                                ));
                                assert(spec_match_list(e1, ps1) == Some(
                                    (seq![(a, SpecMatched::One(params[0]))] + seq![
                                        (b, SpecMatched::Many(params.skip(1))),
                                    ]) + seq![(c, SpecMatched::Many(elems.skip(2)))],
                                ));
                                assert(spec_match_list(elems, ps) == Some(
                                    Seq::<(Seq<char>, SpecMatched)>::empty() + (
                                    (seq![(a, SpecMatched::One(params[0]))] + seq![
                                        (b, SpecMatched::Many(params.skip(1))),
                                    ]) + seq![(c, SpecMatched::Many(elems.skip(2)))]),
                                ));
                                assert(Seq::<(Seq<char>, SpecMatched)>::empty() + ((seq![
                                    (a, SpecMatched::One(params[0])),
                                ] + seq![(b, SpecMatched::Many(params.skip(1)))]) + seq![
                                    (c, SpecMatched::Many(elems.skip(2))),
                                ]) =~= seq![
                                    (a, SpecMatched::One(params[0])),
                                    (b, SpecMatched::Many(params.skip(1))),
                                    (c, SpecMatched::Many(elems.skip(2))),
                                ]);
                            }
                        },
                        _ => {
                            assert(spec_match(e1[0], ps1[0]) is None);
                            assert(spec_match_list(e1, ps1) is None);
                        },
                    }
                }
            }
        },
        _ => {},
    }
}

/// What matching `(kw a b)` (exactly two operands) captures.
pub proof fn lemma_match_kw_two(n: SpecNotation, kw: Seq<char>, a: Seq<char>, b: Seq<char>)
    ensures
        spec_match(
            n,
            SpecPattern::List(
                seq![SpecPattern::Id(kw), SpecPattern::Hole(a), SpecPattern::Hole(b)],
            ),
        ) == if n.body is List && n.body->List_0.len() == 3 && is_id_notation(
            n.body->List_0[0],
            kw,
        ) {
            Some(
                seq![
                    (a, SpecMatched::One(n.body->List_0[1])),
                    (b, SpecMatched::One(n.body->List_0[2])),
                ],
            )
        } else {
            None::<Seq<(Seq<char>, SpecMatched)>>
        },
{
    let ps = seq![SpecPattern::Id(kw), SpecPattern::Hole(a), SpecPattern::Hole(b)];
    match n.body {
        SpecNotationBody::List(elems) => {
            if elems.len() == 0 {
                assert(spec_match_list(elems, ps) is None);
            } else if !is_id_notation(elems[0], kw) {
                assert(spec_match(elems[0], ps[0]) is None);
            } else {
                assert(spec_match(elems[0], ps[0]) == Some(Seq::<(Seq<char>, SpecMatched)>::empty()));
                let ps1 = ps.skip(1);
                assert(ps1 =~= seq![SpecPattern::Hole(a), SpecPattern::Hole(b)]);
                let e1 = elems.skip(1);
                if elems.len() == 1 {
                    assert(spec_match_list(e1, ps1) is None);
                } else {
                    assert(e1[0] == elems[1]);
                    assert(spec_match(e1[0], ps1[0]) == Some(
                        seq![(a, SpecMatched::One(elems[1]))],
                    ));
                    let ps2 = ps1.skip(1);
                    assert(ps2 =~= seq![SpecPattern::Hole(b)]);
                    let e2 = e1.skip(1);
                    assert(e2 =~= elems.skip(2));
                    if elems.len() == 2 {
                        assert(e2.len() == 0);
                        assert(spec_match_list(e2, ps2) is None);
                        assert(spec_match_list(e1, ps1) is None);
                    } else {
                        assert(e2[0] == elems[2]);
                        assert(spec_match(e2[0], ps2[0]) == Some(
                            seq![(b, SpecMatched::One(elems[2]))],
                        ));
                        let ps3 = ps2.skip(1);
                        assert(ps3 =~= Seq::<SpecPattern>::empty());
                        let e3 = e2.skip(1);
                        if elems.len() == 3 {
                            assert(e3.len() == 0);
                            assert(spec_match_list(e3, ps3) == Some(
                                Seq::<(Seq<char>, SpecMatched)>::empty(),
                            ));
                            assert(spec_match_list(e2, ps2) == Some(
                                seq![(b, SpecMatched::One(elems[2]))] + Seq::<(
                                    Seq<char>,
                                    SpecMatched,
                                )>::empty(),
                            ));
                            assert(spec_match_list(elems, ps) == Some(
                                Seq::<(Seq<char>, SpecMatched)>::empty() + (seq![
                                    (a, SpecMatched::One(elems[1])),
                                ] + (seq![(b, SpecMatched::One(elems[2]))] + Seq::<(
                                    Seq<char>,
                                    SpecMatched,
                                )>::empty())),
                            ));
                            assert(Seq::<(Seq<char>, SpecMatched)>::empty() + (seq![
                                (a, SpecMatched::One(elems[1])),
                            ] + (seq![(b, SpecMatched::One(elems[2]))] + Seq::<(
                                Seq<char>,
                                SpecMatched,
                            )>::empty())) =~= seq![
                                (a, SpecMatched::One(elems[1])),
                                (b, SpecMatched::One(elems[2])),
                            ]);
                        } else {
                            assert(e3.len() > 0);
                            assert(spec_match_list(e3, ps3) is None);
                            assert(spec_match_list(e2, ps2) is None);
                            assert(spec_match_list(e1, ps1) is None);
                        }
                    }
                }
            }
        },
        _ => {},
    }
}

} // verus!

verus! {

/// What matching `(kw (items...) body...)` captures.
pub proof fn lemma_match_kw_group_rest(n: SpecNotation, kw: Seq<char>, a: Seq<char>, b: Seq<char>)
    ensures
        spec_match(
            n,
            SpecPattern::List(
                seq![
                    SpecPattern::Id(kw),
                    SpecPattern::List(seq![SpecPattern::RestHole(a)]),
                    SpecPattern::RestHole(b),
                ],
            ),
        ) == if n.body is List && n.body->List_0.len() >= 2 && is_id_notation(
            n.body->List_0[0],
            kw,
        ) && n.body->List_0[1].body is List {
            Some(
                seq![
                    (a, SpecMatched::Many(n.body->List_0[1].body->List_0)),
                    (b, SpecMatched::Many(n.body->List_0.skip(2))),
                ],
            )
        } else {
            None::<Seq<(Seq<char>, SpecMatched)>>
        },
{
    let inner = seq![SpecPattern::RestHole(a)];
    let ps = seq![
        SpecPattern::Id(kw),
        SpecPattern::List(inner),
        SpecPattern::RestHole(b),
    ];
    match n.body {
        SpecNotationBody::List(elems) => {
            if elems.len() == 0 {
                assert(spec_match_list(elems, ps) is None);
            } else if !is_id_notation(elems[0], kw) {
                assert(spec_match(elems[0], ps[0]) is None);
            } else {
                assert(spec_match(elems[0], ps[0]) == Some(Seq::<(Seq<char>, SpecMatched)>::empty()));
                let ps1 = ps.skip(1);
                assert(ps1 =~= seq![SpecPattern::List(inner), SpecPattern::RestHole(b)]);
                let e1 = elems.skip(1);
                if elems.len() == 1 {
                    assert(spec_match_list(e1, ps1) is None);
                } else {
                    assert(e1[0] == elems[1]);
                    match elems[1].body {
                        SpecNotationBody::List(items) => {
                            assert(spec_match_list(items, inner) == Some(
                                seq![(a, SpecMatched::Many(items))],
                            ));
                            assert(spec_match(e1[0], ps1[0]) == Some(
                                seq![(a, SpecMatched::Many(items))],
                            ));
                            let ps2 = ps1.skip(1);
                            assert(ps2 =~= seq![SpecPattern::RestHole(b)]);
                            assert(e1.skip(1) =~= elems.skip(2));
                            assert(spec_match_list(elems.skip(2), ps2) == Some(
                                seq![(b, SpecMatched::Many(elems.skip(2)))],
                            ));
                            assert(spec_match_list(e1, ps1) == Some(
                                seq![(a, SpecMatched::Many(items))] + seq![
                                    (b, SpecMatched::Many(elems.skip(2))),
                                ],
                            ));
                            assert(spec_match_list(elems, ps) == Some(
                                Seq::<(Seq<char>, SpecMatched)>::empty() + (seq![
                                    (a, SpecMatched::Many(items)),
                                ] + seq![(b, SpecMatched::Many(elems.skip(2)))]),
                            ));
                            assert(Seq::<(Seq<char>, SpecMatched)>::empty() + (seq![
                                (a, SpecMatched::Many(items)),
                            ] + seq![(b, SpecMatched::Many(elems.skip(2)))]) =~= seq![
                                (a, SpecMatched::Many(items)),
                                (b, SpecMatched::Many(elems.skip(2))),
                            ]);
                        },
                        _ => {
                            assert(spec_match(e1[0], ps1[0]) is None);
                            assert(spec_match_list(e1, ps1) is None);
                        },
                    }
                }
            }
        },
        _ => {},
    }
}

/// What matching `(kw a b c)` (exactly three operands) captures.
pub proof fn lemma_match_kw_three(
    n: SpecNotation,
    kw: Seq<char>,
    a: Seq<char>,
    b: Seq<char>,
    c: Seq<char>,
)
    ensures
        spec_match(
            n,
            SpecPattern::List(
                seq![
                    SpecPattern::Id(kw),
                    SpecPattern::Hole(a),
                    SpecPattern::Hole(b),
                    SpecPattern::Hole(c),
                ],
            ),
        ) == if n.body is List && n.body->List_0.len() == 4 && is_id_notation(
            n.body->List_0[0],
            kw,
        ) {
            Some(
                seq![
                    (a, SpecMatched::One(n.body->List_0[1])),
                    (b, SpecMatched::One(n.body->List_0[2])),
                    (c, SpecMatched::One(n.body->List_0[3])),
                ],
            )
        } else {
            None::<Seq<(Seq<char>, SpecMatched)>>
        },
{
    let ps = seq![
        SpecPattern::Id(kw),
        SpecPattern::Hole(a),
        SpecPattern::Hole(b),
        SpecPattern::Hole(c),
    ];
    match n.body {
        SpecNotationBody::List(elems) => {
            if elems.len() == 0 {
                assert(spec_match_list(elems, ps) is None);
            } else if !is_id_notation(elems[0], kw) {
                assert(spec_match(elems[0], ps[0]) is None);
            } else {
                assert(spec_match(elems[0], ps[0]) == Some(Seq::<(Seq<char>, SpecMatched)>::empty()));
                let ps1 = ps.skip(1);
                assert(ps1 =~= seq![SpecPattern::Hole(a), SpecPattern::Hole(b), SpecPattern::Hole(c)]);
                let e1 = elems.skip(1);
                if elems.len() == 1 {
                    assert(spec_match_list(e1, ps1) is None);
                } else {
                    assert(e1[0] == elems[1]);
                    assert(spec_match(e1[0], ps1[0]) == Some(seq![(a, SpecMatched::One(elems[1]))]));
                    let ps2 = ps1.skip(1);
                    assert(ps2 =~= seq![SpecPattern::Hole(b), SpecPattern::Hole(c)]);
                    let e2 = e1.skip(1);
                    assert(e2 =~= elems.skip(2));
                    if elems.len() == 2 {
                        assert(spec_match_list(e2, ps2) is None);
                        assert(spec_match_list(e1, ps1) is None);
                    } else {
                        assert(e2[0] == elems[2]);
                        assert(spec_match(e2[0], ps2[0]) == Some(
                            seq![(b, SpecMatched::One(elems[2]))],
                        ));
                        let ps3 = ps2.skip(1);
                        assert(ps3 =~= seq![SpecPattern::Hole(c)]);
                        let e3 = e2.skip(1);
                        assert(e3 =~= elems.skip(3));
                        if elems.len() == 3 {
                            assert(spec_match_list(e3, ps3) is None);
                            assert(spec_match_list(e2, ps2) is None);
                            assert(spec_match_list(e1, ps1) is None);
                        } else {
                            assert(e3[0] == elems[3]);
                            assert(spec_match(e3[0], ps3[0]) == Some(
                                seq![(c, SpecMatched::One(elems[3]))],
                            ));
                            let ps4 = ps3.skip(1);
                            assert(ps4 =~= Seq::<SpecPattern>::empty());
                            let e4 = e3.skip(1);
                            if elems.len() == 4 {
                                assert(e4.len() == 0);
                                assert(spec_match_list(e4, ps4) == Some(
                                    Seq::<(Seq<char>, SpecMatched)>::empty(),
                                ));
                                assert(spec_match_list(elems, ps) == Some(
                                    Seq::<(Seq<char>, SpecMatched)>::empty() + (seq![
                                        (a, SpecMatched::One(elems[1])),
                                    ] + (seq![(b, SpecMatched::One(elems[2]))] + (seq![
                                        (c, SpecMatched::One(elems[3])),
                                    ] + Seq::<(Seq<char>, SpecMatched)>::empty()))),
                                ));
                                assert(Seq::<(Seq<char>, SpecMatched)>::empty() + (seq![
                                    (a, SpecMatched::One(elems[1])),
                                ] + (seq![(b, SpecMatched::One(elems[2]))] + (seq![
                                    (c, SpecMatched::One(elems[3])),
                                ] + Seq::<(Seq<char>, SpecMatched)>::empty()))) =~= seq![
                                    (a, SpecMatched::One(elems[1])),
                                    (b, SpecMatched::One(elems[2])),
                                    (c, SpecMatched::One(elems[3])),
                                ]);
                            } else {
                                assert(e4.len() > 0);
                                assert(spec_match_list(e4, ps4) is None);
                                assert(spec_match_list(e3, ps3) is None);
                                assert(spec_match_list(e2, ps2) is None);
                                assert(spec_match_list(e1, ps1) is None);
                            }
                        }
                    }
                }
            }
        },
        _ => {},
    }
}

/// What matching `(f args...)` captures.
pub proof fn lemma_match_hole_rest(n: SpecNotation, a: Seq<char>, b: Seq<char>)
    ensures
        spec_match(
            n,
            SpecPattern::List(seq![SpecPattern::Hole(a), SpecPattern::RestHole(b)]),
        ) == if n.body is List && n.body->List_0.len() >= 1 {
            Some(
                seq![
                    (a, SpecMatched::One(n.body->List_0[0])),
                    (b, SpecMatched::Many(n.body->List_0.skip(1))),
                ],
            )
        } else {
            None::<Seq<(Seq<char>, SpecMatched)>>
        },
{
    let ps = seq![SpecPattern::Hole(a), SpecPattern::RestHole(b)];
    match n.body {
        SpecNotationBody::List(elems) => {
            if elems.len() == 0 {
                assert(spec_match_list(elems, ps) is None);
            } else {
                assert(spec_match(elems[0], ps[0]) == Some(seq![(a, SpecMatched::One(elems[0]))]));
                let ps1 = ps.skip(1);
                assert(ps1 =~= seq![SpecPattern::RestHole(b)]);
                assert(spec_match_list(elems.skip(1), ps1) == Some(
                    seq![(b, SpecMatched::Many(elems.skip(1)))],
                ));
                assert(spec_match_list(elems, ps) == Some(
                    seq![(a, SpecMatched::One(elems[0]))] + seq![
                        (b, SpecMatched::Many(elems.skip(1))),
                    ],
                ));
                assert(seq![(a, SpecMatched::One(elems[0]))] + seq![
                    (b, SpecMatched::Many(elems.skip(1))),
                ] =~= seq![
                    (a, SpecMatched::One(elems[0])),
                    (b, SpecMatched::Many(elems.skip(1))),
                ]);
            }
        },
        _ => {},
    }
}

/// What matching `(name expr)` (exactly two nodes) captures.
pub proof fn lemma_match_two(n: SpecNotation, a: Seq<char>, b: Seq<char>)
    ensures
        spec_match(n, SpecPattern::List(seq![SpecPattern::Hole(a), SpecPattern::Hole(b)]))
            == if n.body is List && n.body->List_0.len() == 2 {
            Some(
                seq![
                    (a, SpecMatched::One(n.body->List_0[0])),
                    (b, SpecMatched::One(n.body->List_0[1])),
                ],
            )
        } else {
            None::<Seq<(Seq<char>, SpecMatched)>>
        },
{
    let ps = seq![SpecPattern::Hole(a), SpecPattern::Hole(b)];
    match n.body {
        SpecNotationBody::List(elems) => {
            if elems.len() == 0 {
                assert(spec_match_list(elems, ps) is None);
            } else {
                assert(spec_match(elems[0], ps[0]) == Some(seq![(a, SpecMatched::One(elems[0]))]));
                let ps1 = ps.skip(1);
                assert(ps1 =~= seq![SpecPattern::Hole(b)]);
                let e1 = elems.skip(1);
                if elems.len() == 1 {
                    assert(spec_match_list(e1, ps1) is None);
                } else {
                    assert(e1[0] == elems[1]);
                    assert(spec_match(e1[0], ps1[0]) == Some(seq![(b, SpecMatched::One(elems[1]))]));
                    let ps2 = ps1.skip(1);
                    assert(ps2 =~= Seq::<SpecPattern>::empty());
                    let e2 = e1.skip(1);
                    if elems.len() == 2 {
                        assert(e2.len() == 0);
                        assert(spec_match_list(e2, ps2) == Some(
                            Seq::<(Seq<char>, SpecMatched)>::empty(),
                        ));
                        assert(spec_match_list(elems, ps) == Some(
                            seq![(a, SpecMatched::One(elems[0]))] + (seq![
                                (b, SpecMatched::One(elems[1])),
                            ] + Seq::<(Seq<char>, SpecMatched)>::empty()),
                        ));
                        assert(seq![(a, SpecMatched::One(elems[0]))] + (seq![
                            (b, SpecMatched::One(elems[1])),
                        ] + Seq::<(Seq<char>, SpecMatched)>::empty()) =~= seq![
                            (a, SpecMatched::One(elems[0])),
                            (b, SpecMatched::One(elems[1])),
                        ]);
                    } else {
                        assert(e2.len() > 0);
                        assert(spec_match_list(e2, ps2) is None);
                        assert(spec_match_list(e1, ps1) is None);
                    }
                }
            }
        },
        _ => {},
    }
}

/// What matching `(name kw t expr)` (a typed binding) captures.
pub proof fn lemma_match_typed_binding(
    n: SpecNotation,
    a: Seq<char>,
    kw: Seq<char>,
    b: Seq<char>,
    c: Seq<char>,
)
    ensures
        spec_match(
            n,
            SpecPattern::List(
                seq![
                    SpecPattern::Hole(a),
                    SpecPattern::Id(kw),
                    SpecPattern::Hole(b),
                    SpecPattern::Hole(c),
                ],
            ),
        ) == if n.body is List && n.body->List_0.len() == 4 && is_id_notation(
            n.body->List_0[1],
            kw,
        ) {
            Some(
                seq![
                    (a, SpecMatched::One(n.body->List_0[0])),
                    (b, SpecMatched::One(n.body->List_0[2])),
                    (c, SpecMatched::One(n.body->List_0[3])),
                ],
            )
        } else {
            None::<Seq<(Seq<char>, SpecMatched)>>
        },
{
    let ps = seq![
        SpecPattern::Hole(a),
        SpecPattern::Id(kw),
        SpecPattern::Hole(b),
        SpecPattern::Hole(c),
    ];
    match n.body {
        SpecNotationBody::List(elems) => {
            if elems.len() == 0 {
                assert(spec_match_list(elems, ps) is None);
            } else {
                assert(spec_match(elems[0], ps[0]) == Some(seq![(a, SpecMatched::One(elems[0]))]));
                let ps1 = ps.skip(1);
                assert(ps1 =~= seq![SpecPattern::Id(kw), SpecPattern::Hole(b), SpecPattern::Hole(c)]);
                let e1 = elems.skip(1);
                if elems.len() == 1 {
                    assert(spec_match_list(e1, ps1) is None);
                } else {
                    assert(e1[0] == elems[1]);
                    if !is_id_notation(elems[1], kw) {
                        assert(spec_match(e1[0], ps1[0]) is None);
                        assert(spec_match_list(e1, ps1) is None);
                    } else {
                        assert(spec_match(e1[0], ps1[0]) == Some(
                            Seq::<(Seq<char>, SpecMatched)>::empty(),
                        ));
                        let ps2 = ps1.skip(1);
                        assert(ps2 =~= seq![SpecPattern::Hole(b), SpecPattern::Hole(c)]);
                        let e2 = e1.skip(1);
                        assert(e2 =~= elems.skip(2));
                        if elems.len() == 2 {
                            assert(spec_match_list(e2, ps2) is None);
                            assert(spec_match_list(e1, ps1) is None);
                        } else {
                            assert(e2[0] == elems[2]);
                            assert(spec_match(e2[0], ps2[0]) == Some(
                                seq![(b, SpecMatched::One(elems[2]))],
                            ));
                            let ps3 = ps2.skip(1);
                            assert(ps3 =~= seq![SpecPattern::Hole(c)]);
                            let e3 = e2.skip(1);
                            assert(e3 =~= elems.skip(3));
                            if elems.len() == 3 {
                                assert(spec_match_list(e3, ps3) is None);
                                assert(spec_match_list(e2, ps2) is None);
                                assert(spec_match_list(e1, ps1) is None);
                            } else {
                                assert(e3[0] == elems[3]);
                                assert(spec_match(e3[0], ps3[0]) == Some(
                                    seq![(c, SpecMatched::One(elems[3]))],
                                ));
                                let ps4 = ps3.skip(1);
                                assert(ps4 =~= Seq::<SpecPattern>::empty());
                                let e4 = e3.skip(1);
                                if elems.len() == 4 {
                                    assert(e4.len() == 0);
                                    assert(spec_match_list(e4, ps4) == Some(
                                        Seq::<(Seq<char>, SpecMatched)>::empty(),
                                    ));
                                    assert(spec_match_list(elems, ps) == Some(
                                        seq![(a, SpecMatched::One(elems[0]))] + (Seq::<(
                                            Seq<char>,
                                            SpecMatched,
                                        )>::empty() + (seq![(b, SpecMatched::One(elems[2]))] + (
                                        seq![(c, SpecMatched::One(elems[3]))] + Seq::<(
                                            Seq<char>,
                                            SpecMatched,
                                        )>::empty()))),
                                    ));
                                    assert(seq![(a, SpecMatched::One(elems[0]))] + (Seq::<(
                                        Seq<char>,
                                        SpecMatched,
                                    )>::empty() + (seq![(b, SpecMatched::One(elems[2]))] + (seq![
                                        (c, SpecMatched::One(elems[3])),
                                    ] + Seq::<(Seq<char>, SpecMatched)>::empty()))) =~= seq![
                                        (a, SpecMatched::One(elems[0])),
                                        (b, SpecMatched::One(elems[2])),
                                        (c, SpecMatched::One(elems[3])),
                                    ]);
                                } else {
                                    assert(e4.len() > 0);
                                    assert(spec_match_list(e4, ps4) is None);
                                    assert(spec_match_list(e3, ps3) is None);
                                    assert(spec_match_list(e2, ps2) is None);
                                    assert(spec_match_list(e1, ps1) is None);
                                }
                            }
                        }
                    }
                }
            }
        },
        _ => {},
    }
}

/// What matching `(kw1 name kw2 typ...)` (a claim form) captures.
pub proof fn lemma_match_claim(
    n: SpecNotation,
    kw1: Seq<char>,
    a: Seq<char>,
    kw2: Seq<char>,
    b: Seq<char>,
)
    ensures
        spec_match(
            n,
            SpecPattern::List(
                seq![
                    SpecPattern::Id(kw1),
                    SpecPattern::Hole(a),
                    SpecPattern::Id(kw2),
                    SpecPattern::RestHole(b),
                ],
            ),
        ) == if n.body is List && n.body->List_0.len() >= 3 && is_id_notation(
            n.body->List_0[0],
            kw1,
        ) && is_id_notation(n.body->List_0[2], kw2) {
            Some(
                seq![
                    (a, SpecMatched::One(n.body->List_0[1])),
                    (b, SpecMatched::Many(n.body->List_0.skip(3))),
                ],
            )
        } else {
            None::<Seq<(Seq<char>, SpecMatched)>>
        },
{
    let ps = seq![
        SpecPattern::Id(kw1),
        SpecPattern::Hole(a),
        SpecPattern::Id(kw2),
        SpecPattern::RestHole(b),
    ];
    match n.body {
        SpecNotationBody::List(elems) => {
            if elems.len() == 0 {
                assert(spec_match_list(elems, ps) is None);
            } else if !is_id_notation(elems[0], kw1) {
                assert(spec_match(elems[0], ps[0]) is None);
            } else {
                assert(spec_match(elems[0], ps[0]) == Some(Seq::<(Seq<char>, SpecMatched)>::empty()));
                let ps1 = ps.skip(1);
                assert(ps1 =~= seq![SpecPattern::Hole(a), SpecPattern::Id(kw2), SpecPattern::RestHole(b)]);
                let e1 = elems.skip(1);
                if elems.len() == 1 {
                    assert(spec_match_list(e1, ps1) is None);
                } else {
                    assert(e1[0] == elems[1]);
                    assert(spec_match(e1[0], ps1[0]) == Some(seq![(a, SpecMatched::One(elems[1]))]));
                    let ps2 = ps1.skip(1);
                    assert(ps2 =~= seq![SpecPattern::Id(kw2), SpecPattern::RestHole(b)]);
                    let e2 = e1.skip(1);
                    assert(e2 =~= elems.skip(2));
                    if elems.len() == 2 {
                        assert(spec_match_list(e2, ps2) is None);
                        assert(spec_match_list(e1, ps1) is None);
                    } else {
                        assert(e2[0] == elems[2]);
                        if !is_id_notation(elems[2], kw2) {
                            assert(spec_match(e2[0], ps2[0]) is None);
                            assert(spec_match_list(e2, ps2) is None);
                            assert(spec_match_list(e1, ps1) is None);
                        } else {
                            assert(spec_match(e2[0], ps2[0]) == Some(
                                Seq::<(Seq<char>, SpecMatched)>::empty(),
                            ));
                            let ps3 = ps2.skip(1);
                            assert(ps3 =~= seq![SpecPattern::RestHole(b)]);
                            let e3 = e2.skip(1);
                            assert(e3 =~= elems.skip(3));
                            assert(spec_match_list(e3, ps3) == Some(
                                seq![(b, SpecMatched::Many(elems.skip(3)))],
                            ));
                            assert(spec_match_list(e2, ps2) == Some(
                                Seq::<(Seq<char>, SpecMatched)>::empty() + seq![
                                    (b, SpecMatched::Many(elems.skip(3))),
                                ],
                            ));
                            assert(spec_match_list(elems, ps) == Some(
                                Seq::<(Seq<char>, SpecMatched)>::empty() + (seq![
                                    (a, SpecMatched::One(elems[1])),
                                ] + (Seq::<(Seq<char>, SpecMatched)>::empty() + seq![
                                    (b, SpecMatched::Many(elems.skip(3))),
                                ])),
                            ));
                            assert(Seq::<(Seq<char>, SpecMatched)>::empty() + (seq![
                                (a, SpecMatched::One(elems[1])),
                            ] + (Seq::<(Seq<char>, SpecMatched)>::empty() + seq![
                                (b, SpecMatched::Many(elems.skip(3))),
                            ])) =~= seq![
                                (a, SpecMatched::One(elems[1])),
                                (b, SpecMatched::Many(elems.skip(3))),
                            ]);
                        }
                    }
                }
            }
        },
        _ => {},
    }
}

} // verus!

verus! {

/// The pattern `(kw rest...)`.
pub fn pat_kw_rest(kw: &'static str, name: &'static str) -> (p: EPattern<'static>)
    ensures
        p@ == SpecPattern::List(seq![SpecPattern::Id(kw@), SpecPattern::RestHole(name@)]),
{
    let mut v: Vec<EPattern> = Vec::new();
    v.push(EPattern::Id(kw));
    v.push(EPattern::RestHole(name));
    proof {
        lemma_patterns_view_index(v@);
        assert(patterns_view(v@) =~= seq![SpecPattern::Id(kw@), SpecPattern::RestHole(name@)]);
    }
    EPattern::List(v)
}

/// The pattern `(kw (a b...) c...)`.
pub fn pat_kw_fnform(
    kw: &'static str,
    a: &'static str,
    b: &'static str,
    c: &'static str,
) -> (p: EPattern<'static>)
    ensures
        p@ == SpecPattern::List(
            seq![
                SpecPattern::Id(kw@),
                SpecPattern::List(seq![SpecPattern::Hole(a@), SpecPattern::RestHole(b@)]),
                SpecPattern::RestHole(c@),
            ],
        ),
{
    let mut inner: Vec<EPattern> = Vec::new();
    inner.push(EPattern::Hole(a));
    inner.push(EPattern::RestHole(b));
    proof {
        lemma_patterns_view_index(inner@);
        assert(patterns_view(inner@) =~= seq![SpecPattern::Hole(a@), SpecPattern::RestHole(b@)]);
    }
    let ghost inner_v = patterns_view(inner@);
    let mut v: Vec<EPattern> = Vec::new();
    v.push(EPattern::Id(kw));
    v.push(EPattern::List(inner));
    v.push(EPattern::RestHole(c));
    proof {
        lemma_patterns_view_index(v@);
        assert(patterns_view(v@) =~= seq![
            SpecPattern::Id(kw@),
            SpecPattern::List(inner_v),
            SpecPattern::RestHole(c@),
        ]);
    }
    EPattern::List(v)
}

/// The pattern `(kw (a...) b...)`.
pub fn pat_kw_group_rest(kw: &'static str, a: &'static str, b: &'static str) -> (p: EPattern<
    'static,
>)
    ensures
        p@ == SpecPattern::List(
            seq![
                SpecPattern::Id(kw@),
                SpecPattern::List(seq![SpecPattern::RestHole(a@)]),
                SpecPattern::RestHole(b@),
            ],
        ),
{
    let mut inner: Vec<EPattern> = Vec::new();
    inner.push(EPattern::RestHole(a));
    proof {
        lemma_patterns_view_index(inner@);
        assert(patterns_view(inner@) =~= seq![SpecPattern::RestHole(a@)]);
    }
    let ghost inner_v = patterns_view(inner@);
    let mut v: Vec<EPattern> = Vec::new();
    v.push(EPattern::Id(kw));
    v.push(EPattern::List(inner));
    v.push(EPattern::RestHole(b));
    proof {
        lemma_patterns_view_index(v@);
        assert(patterns_view(v@) =~= seq![
            SpecPattern::Id(kw@),
            SpecPattern::List(inner_v),
            SpecPattern::RestHole(b@),
        ]);
    }
    EPattern::List(v)
}

/// The pattern `(kw a b)`.
pub fn pat_kw_two(kw: &'static str, a: &'static str, b: &'static str) -> (p: EPattern<'static>)
    ensures
        p@ == SpecPattern::List(
            seq![SpecPattern::Id(kw@), SpecPattern::Hole(a@), SpecPattern::Hole(b@)],
        ),
{
    let mut v: Vec<EPattern> = Vec::new();
    v.push(EPattern::Id(kw));
    v.push(EPattern::Hole(a));
    v.push(EPattern::Hole(b));
    proof {
        lemma_patterns_view_index(v@);
        assert(patterns_view(v@) =~= seq![
            SpecPattern::Id(kw@),
            SpecPattern::Hole(a@),
            SpecPattern::Hole(b@),
        ]);
    }
    EPattern::List(v)
}

/// The pattern `(kw a b c)`.
pub fn pat_kw_three(
    kw: &'static str,
    a: &'static str,
    b: &'static str,
    c: &'static str,
) -> (p: EPattern<'static>)
    ensures
        p@ == SpecPattern::List(
            seq![
                SpecPattern::Id(kw@),
                SpecPattern::Hole(a@),
                SpecPattern::Hole(b@),
                SpecPattern::Hole(c@),
            ],
        ),
{
    let mut v: Vec<EPattern> = Vec::new();
    v.push(EPattern::Id(kw));
    v.push(EPattern::Hole(a));
    v.push(EPattern::Hole(b));
    v.push(EPattern::Hole(c));
    proof {
        lemma_patterns_view_index(v@);
        assert(patterns_view(v@) =~= seq![
            SpecPattern::Id(kw@),
            SpecPattern::Hole(a@),
            SpecPattern::Hole(b@),
            SpecPattern::Hole(c@),
        ]);
    }
    EPattern::List(v)
}

/// The pattern `(a b...)`.
pub fn pat_hole_rest(a: &'static str, b: &'static str) -> (p: EPattern<'static>)
    ensures
        p@ == SpecPattern::List(seq![SpecPattern::Hole(a@), SpecPattern::RestHole(b@)]),
{
    let mut v: Vec<EPattern> = Vec::new();
    v.push(EPattern::Hole(a));
    v.push(EPattern::RestHole(b));
    proof {
        lemma_patterns_view_index(v@);
        assert(patterns_view(v@) =~= seq![SpecPattern::Hole(a@), SpecPattern::RestHole(b@)]);
    }
    EPattern::List(v)
}

/// The pattern `(a b)`.
pub fn pat_two(a: &'static str, b: &'static str) -> (p: EPattern<'static>)
    ensures
        p@ == SpecPattern::List(seq![SpecPattern::Hole(a@), SpecPattern::Hole(b@)]),
{
    let mut v: Vec<EPattern> = Vec::new();
    v.push(EPattern::Hole(a));
    v.push(EPattern::Hole(b));
    proof {
        lemma_patterns_view_index(v@);
        assert(patterns_view(v@) =~= seq![SpecPattern::Hole(a@), SpecPattern::Hole(b@)]);
    }
    EPattern::List(v)
}

/// The pattern `(a kw b c)`.
pub fn pat_typed_binding(
    a: &'static str,
    kw: &'static str,
    b: &'static str,
    c: &'static str,
) -> (p: EPattern<'static>)
    ensures
        p@ == SpecPattern::List(
            seq![
                SpecPattern::Hole(a@),
                SpecPattern::Id(kw@),
                SpecPattern::Hole(b@),
                SpecPattern::Hole(c@),
            ],
        ),
{
    let mut v: Vec<EPattern> = Vec::new();
    v.push(EPattern::Hole(a));
    v.push(EPattern::Id(kw));
    v.push(EPattern::Hole(b));
    v.push(EPattern::Hole(c));
    proof {
        lemma_patterns_view_index(v@);
        assert(patterns_view(v@) =~= seq![
            SpecPattern::Hole(a@),
            SpecPattern::Id(kw@),
            SpecPattern::Hole(b@),
            SpecPattern::Hole(c@),
        ]);
    }
    EPattern::List(v)
}

/// The pattern `(kw1 a kw2 b...)`.
pub fn pat_claim(
    kw1: &'static str,
    a: &'static str,
    kw2: &'static str,
    b: &'static str,
) -> (p: EPattern<'static>)
    ensures
        p@ == SpecPattern::List(
            seq![
                SpecPattern::Id(kw1@),
                SpecPattern::Hole(a@),
                SpecPattern::Id(kw2@),
                SpecPattern::RestHole(b@),
            ],
        ),
{
    let mut v: Vec<EPattern> = Vec::new();
    v.push(EPattern::Id(kw1));
    v.push(EPattern::Hole(a));
    v.push(EPattern::Id(kw2));
    v.push(EPattern::RestHole(b));
    proof {
        lemma_patterns_view_index(v@);
        assert(patterns_view(v@) =~= seq![
            SpecPattern::Id(kw1@),
            SpecPattern::Hole(a@),
            SpecPattern::Id(kw2@),
            SpecPattern::RestHole(b@),
        ]);
    }
    EPattern::List(v)
}

} // verus!
