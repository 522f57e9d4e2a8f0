//! The hygienic expander: scope allocation, the rename table, and the
//! walk that turns surface notations into the internal AST.

use vstd::prelude::*;

pub mod scope;

use crate::ast::Module;
use crate::ast::SpecModule;
use crate::ast::expr::Identifier;
use crate::ast::expr::SpecIdent;
use crate::ast::ReportSpan;
use crate::ast::SpecSpan;
use crate::ast::typ::SpecTyp;
use crate::ast::typ::SpecTypBody;
use crate::ast::typ::Typ;
use crate::ast::typ::TypBody;
use crate::diagnostic::CompileError;
use crate::diagnostic::SpecError;
use crate::expander::scope::Scope;
use crate::expander::scope::ScopeSet;
use crate::expander::scope::SpecScope;
use crate::matcher::is_id_notation;
use crate::matcher::SpecPattern;
use crate::matcher::SpecMatched;
use crate::matcher::Matcher;
use crate::ast::expr::SpecExpr;
use crate::ast::expr::SpecExprBody;
use crate::ast::expr::SpecBinding;
use crate::ast::expr::Expr;
use crate::ast::expr::ExprBody;
use crate::ast::expr::Binding;
use crate::notation::spec_size;
use crate::notation::spec_sizes;
use crate::notation::notations_view;
use crate::notation::Notation;
use crate::notation::NotationBody;
use crate::notation::SpecNotation;
use crate::notation::SpecNotationBody;

verus! {

/// The accumulated path of scopes from the module root down to the
/// construct now being expanded, outermost first.
#[derive(Debug)]
pub struct ScopeStack {
    scopes: Vec<Scope>,
}

impl View for ScopeStack {
    type V = Seq<SpecScope>;

    closed spec fn view(&self) -> Seq<SpecScope> {
        self.scopes@.map_values(|s: Scope| s@)
    }
}

/// The scope set a stack denotes: its scopes with duplicates dropped,
/// keeping the first occurrence of each.
pub open spec fn spec_as_set(s: Seq<SpecScope>) -> Seq<SpecScope>
    decreases s.len(),
{
    if s.len() == 0 {
        Seq::empty()
    } else {
        let prefix = spec_as_set(s.drop_last());
        if prefix.contains(s.last()) {
            prefix
        } else {
            prefix.push(s.last())
        }
    }
}

impl ScopeStack {
    /// The stack at the top of a module: the module scope alone.
    pub fn module(module_name: String) -> (r: ScopeStack)
        ensures
            r@ == seq![SpecScope::Module(module_name@)],
    {
        let mut scopes: Vec<Scope> = Vec::new();
        scopes.push(Scope::Module(module_name));
        let r = ScopeStack { scopes };
        proof {
            assert(r@ =~= seq![SpecScope::Module(module_name@)]);
        }
        r
    }

    /// The stack one construct deeper: this stack with `s` on top.
    pub fn extend(&self, s: Scope) -> (r: ScopeStack)
        ensures
            r@ == self@.push(s@),
    {
        let mut scopes: Vec<Scope> = Vec::new();
        let n = self.scopes.len();
        let mut i: usize = 0;
        while i < n
            invariant
                n == self.scopes@.len(),
                0 <= i <= n,
                scopes@.len() == i,
                forall|k: int| 0 <= k < i ==> scopes@[k]@ == self.scopes@[k]@,
            decreases n - i,
        {
            let d = self.scopes[i].duplicate();
            scopes.push(d);
            i += 1;
        }
        scopes.push(s);
        let r = ScopeStack { scopes };
        proof {
            assert(r@ =~= self@.push(s@));
        }
        r
    }

    /// The set of scopes this stack accumulates.
    pub fn as_set(&self) -> (r: ScopeSet)
        ensures
            r@ == spec_as_set(self@),
            r.wf(),
    {
        let n = self.scopes.len();
        proof {
            assert(self@.len() == n);
        }
        let mut r = ScopeSet::new();
        let mut i: usize = 0;
        proof {
            assert(self@.subrange(0, 0) =~= Seq::<SpecScope>::empty());
        }
        while i < n
            invariant
                0 <= i <= n,
                n == self.scopes@.len(),
                self@.len() == n,
                r@ == spec_as_set(self@.subrange(0, i as int)),
                r.wf(),
            decreases n - i,
        {
            proof {
                assert(self@[i as int] == self.scopes@[i as int]@);
                assert(self@.subrange(0, i as int + 1).drop_last() =~= self@.subrange(0, i as int));
                assert(self@.subrange(0, i as int + 1).last() == self@[i as int]);
            }
            let d = self.scopes[i].duplicate();
            r.insert(d);
            i += 1;
        }
        proof {
            assert(self@.subrange(0, n as int) =~= self@);
        }
        r
    }

    /// A deep copy denoting the same stack.
    pub fn duplicate(&self) -> (r: ScopeStack)
        ensures
            r@ == self@,
    {
        let mut scopes: Vec<Scope> = Vec::new();
        let n = self.scopes.len();
        let mut i: usize = 0;
        while i < n
            invariant
                n == self.scopes@.len(),
                0 <= i <= n,
                scopes@.len() == i,
                forall|k: int| 0 <= k < i ==> scopes@[k]@ == self.scopes@[k]@,
            decreases n - i,
        {
            let d = self.scopes[i].duplicate();
            scopes.push(d);
            i += 1;
        }
        let r = ScopeStack { scopes };
        proof {
            assert(r@ =~= self@);
        }
        r
    }
}

/// Mathematical model of the rename table: written names, each with the
/// scope sets recorded for it, most recently inserted first.
pub type SpecRename = Seq<(Seq<char>, Seq<Seq<SpecScope>>)>;

/// The rename table of one expansion run.  It grows monotonically while
/// a module is expanded and is discarded afterwards.
#[derive(Debug)]
pub struct RenameMapping {
    entries: Vec<(String, Vec<ScopeSet>)>,
}

impl View for RenameMapping {
    type V = SpecRename;

    closed spec fn view(&self) -> SpecRename {
        self.entries@.map_values(
            |e: (String, Vec<ScopeSet>)| (e.0@, e.1@.map_values(|ss: ScopeSet| ss@)),
        )
    }
}

/// The stacks recorded for `name`: the first entry with that name.
pub open spec fn spec_rename_find(m: SpecRename, name: Seq<char>) -> Option<Seq<Seq<SpecScope>>>
    decreases m.len(),
{
    if m.len() == 0 {
        None
    } else if m[0].0 == name {
        Some(m[0].1)
    } else {
        spec_rename_find(m.skip(1), name)
    }
}

/// Recording a binding: the scope set is pushed to the front of the
/// name's stack, or a fresh entry is appended for a new name.
pub open spec fn spec_insert_binding(
    m: SpecRename,
    name: Seq<char>,
    scopes: Seq<SpecScope>,
) -> SpecRename
    decreases m.len(),
{
    if m.len() == 0 {
        seq![(name, seq![scopes])]
    } else if m[0].0 == name {
        seq![(m[0].0, seq![scopes] + m[0].1)] + m.skip(1)
    } else {
        seq![m[0]] + spec_insert_binding(m.skip(1), name, scopes)
    }
}

/// Whether every scope of `a` also occurs in `b`.
pub open spec fn spec_scopes_subset(a: Seq<SpecScope>, b: Seq<SpecScope>) -> bool {
    forall|k: int| 0 <= k < a.len() ==> b.contains(a[k])
}

/// The first recorded scope set that the current set covers.
pub open spec fn spec_first_covered(
    stacks: Seq<Seq<SpecScope>>,
    current: Seq<SpecScope>,
) -> Option<Seq<SpecScope>>
    decreases stacks.len(),
{
    if stacks.len() == 0 {
        None
    } else if spec_scopes_subset(stacks[0], current) {
        Some(stacks[0])
    } else {
        spec_first_covered(stacks.skip(1), current)
    }
}

/// Resolution of a reference: scan the name's recorded scope sets from
/// the most recent to the oldest and take the first one that is a
/// subset of the current scopes.
pub open spec fn spec_lookup_newname(
    m: SpecRename,
    name: Seq<char>,
    current: Seq<SpecScope>,
) -> Option<Seq<SpecScope>> {
    match spec_rename_find(m, name) {
        None => None,
        Some(stacks) => spec_first_covered(stacks, current),
    }
}

/// Mathematical model of the expander's whole state.
#[verifier::ext_equal]
pub ghost struct SpecExpander {
    pub module: SpecModule,
    pub rename: SpecRename,
    pub let_count: nat,
    pub lambda_count: nat,
}

/// The expander: the module being built, the rename table, and the
/// per-kind counters that number fresh scopes.
#[derive(Debug)]
pub struct Expander {
    pub module: Module,
    pub rename_mapping: RenameMapping,
    pub let_count: u64,
    pub lambda_count: u64,
}

impl View for Expander {
    type V = SpecExpander;

    open spec fn view(&self) -> SpecExpander {
        SpecExpander {
            module: self.module@,
            rename: self.rename_mapping@,
            let_count: self.let_count as nat,
            lambda_count: self.lambda_count as nat,
        }
    }
}

impl RenameMapping {
    /// An empty rename table.
    pub fn new() -> (r: RenameMapping)
        ensures
            r@ == Seq::<(Seq<char>, Seq<Seq<SpecScope>>)>::empty(),
    {
        let r = RenameMapping { entries: Vec::new() };
        proof {
            assert(r@ =~= Seq::<(Seq<char>, Seq<Seq<SpecScope>>)>::empty());
        }
        r
    }
}

impl Default for RenameMapping {
    fn default() -> (r: RenameMapping)
        ensures
            r@ == Seq::<(Seq<char>, Seq<Seq<SpecScope>>)>::empty(),
    {
        RenameMapping::new()
    }
}

proof fn lemma_insert_binding_update(m: SpecRename, name: Seq<char>, scopes: Seq<SpecScope>, j: int)
    requires
        0 <= j < m.len(),
        forall|k: int| 0 <= k < j ==> m[k].0 != name,
        m[j].0 == name,
    ensures
        spec_insert_binding(m, name, scopes) == m.update(j, (m[j].0, seq![scopes] + m[j].1)),
    decreases j,
{
    if j == 0 {
        assert(spec_insert_binding(m, name, scopes) =~= m.update(
            0,
            (m[0].0, seq![scopes] + m[0].1),
        ));
    } else {
        let t = m.skip(1);
        assert forall|k: int| 0 <= k < j - 1 implies t[k].0 != name by {
            assert(t[k] == m[k + 1]);
        }
        assert(t[j - 1] == m[j]);
        lemma_insert_binding_update(t, name, scopes, j - 1);
        assert(spec_insert_binding(m, name, scopes) =~= m.update(
            j,
            (m[j].0, seq![scopes] + m[j].1),
        ));
    }
}

proof fn lemma_insert_binding_append(m: SpecRename, name: Seq<char>, scopes: Seq<SpecScope>)
    requires
        forall|k: int| 0 <= k < m.len() ==> m[k].0 != name,
    ensures
        spec_insert_binding(m, name, scopes) == m.push((name, seq![scopes])),
    decreases m.len(),
{
    if m.len() == 0 {
        assert(spec_insert_binding(m, name, scopes) =~= m.push((name, seq![scopes])));
    } else {
        let t = m.skip(1);
        assert forall|k: int| 0 <= k < t.len() implies t[k].0 != name by {
            assert(t[k] == m[k + 1]);
        }
        lemma_insert_binding_append(t, name, scopes);
        assert(spec_insert_binding(m, name, scopes) =~= m.push((name, seq![scopes])));
    }
}

impl Expander {
    /// A fresh expander for the given module under construction.
    pub fn new(module: Module) -> (r: Expander)
        ensures
            r@.module == module@,
            r@.rename == Seq::<(Seq<char>, Seq<Seq<SpecScope>>)>::empty(),
            r@.let_count == 0,
            r@.lambda_count == 0,
    {
        Expander {
            module,
            rename_mapping: RenameMapping::new(),
            let_count: 0,
            lambda_count: 0,
        }
    }

    /// Allocates a fresh `let` scope; each call returns a scope with the
    /// next counter value, so no two calls of one run agree.
    pub fn let_scope(&mut self) -> (s: Scope)
        requires
            old(self).let_count < u64::MAX,
        ensures
            s@ == SpecScope::Let(old(self)@.let_count),
            final(self)@ == (SpecExpander { let_count: old(self)@.let_count + 1, ..old(self)@ }),
    {
        let res = Scope::Let(self.let_count);
        self.let_count = self.let_count + 1;
        res
    }

    /// Allocates a fresh `lambda` scope, numbered like `let_scope`.
    pub fn lambda_scope(&mut self) -> (s: Scope)
        requires
            old(self).lambda_count < u64::MAX,
        ensures
            s@ == SpecScope::Lambda(old(self)@.lambda_count),
            final(self)@ == (SpecExpander {
                lambda_count: old(self)@.lambda_count + 1,
                ..old(self)@
            }),
    {
        let res = Scope::Lambda(self.lambda_count);
        self.lambda_count = self.lambda_count + 1;
        res
    }

    /// Records a binding of `name` under `scopes` and returns the
    /// canonical identifier for the binder.
    pub fn insert_binding(&mut self, name: &String, scopes: ScopeSet) -> (id: Identifier)
        ensures
            final(self)@ == (SpecExpander {
                rename: spec_insert_binding(old(self)@.rename, name@, scopes@),
                ..old(self)@
            }),
            id@ == (SpecIdent::Normal { written_name: name@, scopes: scopes@ }),
    {
        let ghost m = self.rename_mapping@;
        let n = self.rename_mapping.entries.len();
        proof {
            assert(m.len() == n);
        }
        let mut j: usize = 0;
        let mut found = false;
        while j < n && !found
            invariant
                0 <= j <= n,
                n == self.rename_mapping.entries@.len(),
                m == self.rename_mapping@,
                m.len() == n,
                forall|k: int| 0 <= k < j ==> m[k].0 != name@,
                found ==> j < n && m[j as int].0 == name@,
            decreases n - j + (if found { 0int } else { 1int }),
        {
            proof {
                assert(m[j as int].0 == self.rename_mapping.entries@[j as int].0@);
            }
            if self.rename_mapping.entries[j].0 == *name {
                found = true;
            } else {
                j += 1;
            }
        }
        let dup = scopes.duplicate();
        if found {
            let ghost old_entries = self.rename_mapping.entries@;
            let entry = &mut self.rename_mapping.entries[j];
            entry.1.insert(0, dup);
            proof {
                lemma_insert_binding_update(m, name@, scopes@, j as int);
                assert(self.rename_mapping@ =~= m.update(
                    j as int,
                    (m[j as int].0, seq![scopes@] + m[j as int].1),
                )) by {
                    assert forall|k: int| 0 <= k < self.rename_mapping.entries@.len() implies
                        self.rename_mapping@[k] == m.update(
                        j as int,
                        (m[j as int].0, seq![scopes@] + m[j as int].1),
                    )[k] by {
                        if k == j {
                            assert(self.rename_mapping.entries@[k].1@.map_values(
                                |ss: ScopeSet| ss@,
                            ) =~= seq![scopes@] + old_entries[k].1@.map_values(
                                |ss: ScopeSet| ss@,
                            ));
                        }
                    }
                }
            }
        } else {
            proof {
                lemma_insert_binding_append(m, name@, scopes@);
            }
            self.rename_mapping.entries.push((name.clone(), vec![dup]));
            proof {
                assert(self.rename_mapping@ =~= m.push((name@, seq![scopes@]))) by {
                    assert(self.rename_mapping.entries@.last().1@.map_values(|ss: ScopeSet| ss@)
                        =~= seq![scopes@]);
                    assert forall|k: int| 0 <= k < self.rename_mapping.entries@.len() implies
                        self.rename_mapping@[k] == m.push((name@, seq![scopes@]))[k] by {}
                }
            }
        }
        Identifier::normal(name.clone(), scopes)
    }

    /// Resolves a reference: the most recently recorded scope set for
    /// `refname` that `scopes` covers, as a resolved identifier body;
    /// `None` exactly when no recorded binding is visible.
    pub fn lookup_newname(&self, refname: &String, scopes: ScopeSet) -> (r: Option<
        crate::ast::expr::ExprBody,
    >)
        ensures
            match (r, spec_lookup_newname(self@.rename, refname@, scopes@)) {
                (Some(b), Some(ss)) => b@ == crate::ast::expr::SpecExprBody::Identifier(
                    SpecIdent::Normal { written_name: refname@, scopes: ss },
                ),
                (None, None) => true,
                _ => false,
            },
    {
        let ghost m = self.rename_mapping@;
        let n = self.rename_mapping.entries.len();
        proof {
            assert(m.len() == n);
            assert(m.skip(0) =~= m);
        }
        let mut j: usize = 0;
        while j < n
            invariant
                0 <= j <= n,
                n == self.rename_mapping.entries@.len(),
                m == self.rename_mapping@,
                m.len() == n,
                spec_rename_find(m, refname@) == spec_rename_find(m.skip(j as int), refname@),
                forall|k: int| 0 <= k < j ==> m[k].0 != refname@,
            decreases n - j,
        {
            proof {
                assert(m[j as int] == (
                    self.rename_mapping.entries@[j as int].0@,
                    self.rename_mapping.entries@[j as int].1@.map_values(|ss: ScopeSet| ss@),
                ));
                assert(m.skip(j as int)[0] == m[j as int]);
                assert(m.skip(j as int).skip(1) =~= m.skip(j as int + 1));
            }
            if self.rename_mapping.entries[j].0 == *refname {
                let stacks = &self.rename_mapping.entries[j].1;
                let ghost sv = m[j as int].1;
                let sn = stacks.len();
                proof {
                    assert(sv.len() == sn);
                    assert(sv.skip(0) =~= sv);
                    assert(spec_rename_find(m, refname@) == Some(sv));
                }
                let mut k: usize = 0;
                while k < sn
                    invariant
                        0 <= k <= sn,
                        sn == stacks@.len(),
                        sv == stacks@.map_values(|ss: ScopeSet| ss@),
                        sv.len() == sn,
                        m == self.rename_mapping@,
                        spec_rename_find(m, refname@) == Some(sv),
                        spec_first_covered(sv, scopes@) == spec_first_covered(
                            sv.skip(k as int),
                            scopes@,
                        ),
                    decreases sn - k,
                {
                    proof {
                        assert(sv[k as int] == stacks@[k as int]@);
                        assert(sv.skip(k as int)[0] == sv[k as int]);
                        assert(sv.skip(k as int).skip(1) =~= sv.skip(k as int + 1));
                    }
                    if stacks[k].is_subset_of(&scopes) {
                        proof {
                            assert(spec_scopes_subset(sv[k as int], scopes@));
                            assert(spec_first_covered(sv.skip(k as int), scopes@) == Some(
                                sv[k as int],
                            ));
                            assert(spec_rename_find(m, refname@) == Some(sv));
                        }
                        let bind_scopes = stacks[k].duplicate();
                        proof {
                            assert(bind_scopes@ == sv[k as int]);
                            assert(spec_lookup_newname(self@.rename, refname@, scopes@) == Some(
                                sv[k as int],
                            ));
                        }
                        let id = Identifier::normal(refname.clone(), bind_scopes);
                        proof {
                            assert(id@ == (SpecIdent::Normal {
                                written_name: refname@,
                                scopes: sv[k as int],
                            }));
                        }
                        return Some(crate::ast::expr::ExprBody::Identifier(id));
                    }
                    proof {
                        assert(!spec_scopes_subset(sv[k as int], scopes@));
                    }
                    k += 1;
                }
                proof {
                    assert(sv.skip(sn as int) =~= Seq::<Seq<SpecScope>>::empty());
                }
                return None;
            }
            j += 1;
        }
        proof {
            assert(m.skip(n as int) =~= Seq::<(Seq<char>, Seq<Seq<SpecScope>>)>::empty());
        }
        None
    }
}

} // verus!

verus! {

/// Mirror of `expand_one_type`: how one surface node reads as a type.
pub open spec fn s_expand_one_type(n: SpecNotation) -> Result<SpecTyp, SpecError>
    decreases n, 0int,
{
    match n.body {
        SpecNotationBody::Identifier(name) => {
            if name == "boolean"@ {
                Ok(SpecTyp { span: n.span, body: SpecTypBody::Bool })
            } else if name == "char"@ {
                Ok(SpecTyp { span: n.span, body: SpecTypBody::Char })
            } else if name == "string"@ {
                Ok(SpecTyp { span: n.span, body: SpecTypBody::String })
            } else if name == "symbol"@ {
                Ok(SpecTyp { span: n.span, body: SpecTypBody::Symbol })
            } else if name == "rational"@ {
                Ok(SpecTyp { span: n.span, body: SpecTypBody::Rational })
            } else if name == "float"@ {
                Ok(SpecTyp { span: n.span, body: SpecTypBody::Float })
            } else if name == "int"@ {
                Ok(SpecTyp { span: n.span, body: SpecTypBody::Int })
            } else if name == "i8"@ {
                Ok(SpecTyp { span: n.span, body: SpecTypBody::I8 })
            } else if name == "i16"@ {
                Ok(SpecTyp { span: n.span, body: SpecTypBody::I16 })
            } else if name == "i32"@ {
                Ok(SpecTyp { span: n.span, body: SpecTypBody::I32 })
            } else if name == "i64"@ {
                Ok(SpecTyp { span: n.span, body: SpecTypBody::I64 })
            } else if name == "u8"@ {
                Ok(SpecTyp { span: n.span, body: SpecTypBody::U8 })
            } else if name == "u16"@ {
                Ok(SpecTyp { span: n.span, body: SpecTypBody::U16 })
            } else if name == "u32"@ {
                Ok(SpecTyp { span: n.span, body: SpecTypBody::U32 })
            } else if name == "u64"@ {
                Ok(SpecTyp { span: n.span, body: SpecTypBody::U64 })
            } else if name == "syntax"@ {
                Ok(SpecTyp { span: n.span, body: SpecTypBody::Syntax })
            } else {
                Err(SpecError::UnknownType { span: n.span, name: name })
            }
        },
        SpecNotationBody::List(elems) => {
            if elems.len() == 0 {
                Err(SpecError::BadForm { span: n.span })
            } else if is_id_notation(elems[0], "vector"@) {
                if elems.len() == 2 {
                    match s_expand_one_type(elems[1]) {
                        Ok(t) => Ok(
                            SpecTyp { span: n.span, body: SpecTypBody::Vector(Box::new(t)) },
                        ),
                        Err(e) => Err(e),
                    }
                } else {
                    Err(SpecError::BadForm { span: n.span })
                }
            } else if is_id_notation(elems[0], "list"@) {
                if elems.len() == 2 {
                    match s_expand_one_type(elems[1]) {
                        Ok(t) => Ok(SpecTyp { span: n.span, body: SpecTypBody::List(Box::new(t)) }),
                        Err(e) => Err(e),
                    }
                } else {
                    Err(SpecError::BadForm { span: n.span })
                }
            } else if is_id_notation(elems[0], "pair"@) {
                if elems.len() == 3 {
                    match s_expand_one_type(elems[1]) {
                        Ok(ta) => match s_expand_one_type(elems[2]) {
                            Ok(tb) => Ok(
                                SpecTyp {
                                    span: n.span,
                                    body: SpecTypBody::Pair(Box::new(ta), Box::new(tb)),
                                },
                            ),
                            Err(e) => Err(e),
                        },
                        Err(e) => Err(e),
                    }
                } else {
                    Err(SpecError::BadForm { span: n.span })
                }
            } else {
                match elems[0].body {
                    SpecNotationBody::Identifier(hname) => Err(
                        SpecError::UnknownType { span: n.span, name: hname },
                    ),
                    _ => Err(SpecError::BadForm { span: n.span }),
                }
            }
        },
        SpecNotationBody::Object(fields) => match s_record_fields(fields, 0) {
            Ok(fs) => Ok(SpecTyp { span: n.span, body: SpecTypBody::Record(fs) }),
            Err(e) => Err(e),
        },
        _ => Err(SpecError::BadForm { span: n.span }),
    }
}

/// Mirror of reading an object's fields as record fields, left to right.
pub open spec fn s_record_fields(fields: Seq<(Seq<char>, SpecNotation)>, i: int) -> Result<
    Seq<(Seq<char>, SpecTyp)>,
    SpecError,
>
    decreases fields, fields.len() - i,
{
    if i < 0 || i >= fields.len() {
        Ok(Seq::empty())
    } else {
        match s_expand_one_type(fields[i].1) {
            Err(e) => Err(e),
            Ok(t) => match s_record_fields(fields, i + 1) {
                Err(e) => Err(e),
                Ok(rest) => Ok(seq![(fields[i].0, t)] + rest),
            },
        }
    }
}

/// Mirror of `expand_type` on the type tail from position `i`: one
/// node is a type by itself; a longer tail must contain an arrow that
/// splits parameter types from a result type.
pub open spec fn s_expand_type_from(span: SpecSpan, nv: Seq<SpecNotation>, i: int) -> Result<
    SpecTyp,
    SpecError,
>
    decreases nv.len() - i, 1int,
{
    if nv.len() - i <= 0 || i < 0 {
        Err(SpecError::BadClaim { span: span })
    } else if nv.len() - i == 1 {
        s_expand_one_type(nv[i])
    } else {
        s_func_type_from(span, nv, i, Seq::empty())
    }
}

/// Scanning the tail for the first arrow, accumulating parameter types.
pub open spec fn s_func_type_from(
    span: SpecSpan,
    nv: Seq<SpecNotation>,
    i: int,
    acc: Seq<SpecTyp>,
) -> Result<SpecTyp, SpecError>
    decreases nv.len() - i, 0int,
{
    if i < 0 || i >= nv.len() {
        Err(SpecError::BadClaim { span: span })
    } else if is_id_notation(nv[i], "->"@) {
        match s_expand_type_from(span, nv, i + 1) {
            Err(e) => Err(e),
            Ok(result) => Ok(
                SpecTyp {
                    span: span,
                    body: SpecTypBody::Func { params: acc, result: Box::new(result) },
                },
            ),
        }
    } else {
        match s_expand_one_type(nv[i]) {
            Err(e) => Err(e),
            Ok(t) => s_func_type_from(span, nv, i + 1, acc.push(t)),
        }
    }
}

/// Whether the node is the identifier literal with this text.
fn notation_is_id(n: &Notation, text: &str) -> (r: bool)
    ensures
        r == is_id_notation(n@, text@),
{
    match &n.body {
        NotationBody::Identifier(name) => crate::render::str_eq(name.as_str(), text),
        _ => false,
    }
}

/// Reads one surface node as a type.
pub fn expand_one_type(n: &Notation) -> (r: Result<Typ, CompileError>)
    ensures
        match (r, s_expand_one_type(n@)) {
            (Ok(t), Ok(st)) => t@ == st,
            (Err(e), Err(se)) => e@ == se,
            _ => false,
        },
    decreases *n, 0int,
{
    match &n.body {
        NotationBody::Identifier(name) => {
            if crate::render::str_eq(name.as_str(), "boolean") {
                Ok(TypBody::Bool.with_span(n.span.duplicate()))
            } else if crate::render::str_eq(name.as_str(), "char") {
                Ok(TypBody::Char.with_span(n.span.duplicate()))
            } else if crate::render::str_eq(name.as_str(), "string") {
                Ok(TypBody::String.with_span(n.span.duplicate()))
            } else if crate::render::str_eq(name.as_str(), "symbol") {
                Ok(TypBody::Symbol.with_span(n.span.duplicate()))
            } else if crate::render::str_eq(name.as_str(), "rational") {
                Ok(TypBody::Rational.with_span(n.span.duplicate()))
            } else if crate::render::str_eq(name.as_str(), "float") {
                Ok(TypBody::Float.with_span(n.span.duplicate()))
            } else if crate::render::str_eq(name.as_str(), "int") {
                Ok(TypBody::Int.with_span(n.span.duplicate()))
            } else if crate::render::str_eq(name.as_str(), "i8") {
                Ok(TypBody::I8.with_span(n.span.duplicate()))
            } else if crate::render::str_eq(name.as_str(), "i16") {
                Ok(TypBody::I16.with_span(n.span.duplicate()))
            } else if crate::render::str_eq(name.as_str(), "i32") {
                Ok(TypBody::I32.with_span(n.span.duplicate()))
            } else if crate::render::str_eq(name.as_str(), "i64") {
                Ok(TypBody::I64.with_span(n.span.duplicate()))
            } else if crate::render::str_eq(name.as_str(), "u8") {
                Ok(TypBody::U8.with_span(n.span.duplicate()))
            } else if crate::render::str_eq(name.as_str(), "u16") {
                Ok(TypBody::U16.with_span(n.span.duplicate()))
            } else if crate::render::str_eq(name.as_str(), "u32") {
                Ok(TypBody::U32.with_span(n.span.duplicate()))
            } else if crate::render::str_eq(name.as_str(), "u64") {
                Ok(TypBody::U64.with_span(n.span.duplicate()))
            } else if crate::render::str_eq(name.as_str(), "syntax") {
                Ok(TypBody::Syntax.with_span(n.span.duplicate()))
            } else {
                Err(CompileError::UnknownType { span: n.span.duplicate(), name: name.clone() })
            }
        },
        NotationBody::List(elems) => {
            proof {
                crate::notation::lemma_notations_view_index(elems@);
            }
            if elems.len() == 0 {
                Err(CompileError::BadForm { span: n.span.duplicate() })
            } else if notation_is_id(&elems[0], "vector") {
                if elems.len() == 2 {
                    match expand_one_type(&elems[1]) {
                        Ok(t) => Ok(TypBody::Vector(Box::new(t)).with_span(n.span.duplicate())),
                        Err(e) => Err(e),
                    }
                } else {
                    Err(CompileError::BadForm { span: n.span.duplicate() })
                }
            } else if notation_is_id(&elems[0], "list") {
                if elems.len() == 2 {
                    match expand_one_type(&elems[1]) {
                        Ok(t) => Ok(TypBody::List(Box::new(t)).with_span(n.span.duplicate())),
                        Err(e) => Err(e),
                    }
                } else {
                    Err(CompileError::BadForm { span: n.span.duplicate() })
                }
            } else if notation_is_id(&elems[0], "pair") {
                if elems.len() == 3 {
                    match expand_one_type(&elems[1]) {
                        Ok(ta) => match expand_one_type(&elems[2]) {
                            Ok(tb) => Ok(
                                TypBody::Pair(Box::new(ta), Box::new(tb)).with_span(
                                    n.span.duplicate(),
                                ),
                            ),
                            Err(e) => Err(e),
                        },
                        Err(e) => Err(e),
                    }
                } else {
                    Err(CompileError::BadForm { span: n.span.duplicate() })
                }
            } else {
                match &elems[0].body {
                    NotationBody::Identifier(hname) => Err(
                        CompileError::UnknownType {
                            span: n.span.duplicate(),
                            name: hname.clone(),
                        },
                    ),
                    _ => Err(CompileError::BadForm { span: n.span.duplicate() }),
                }
            }
        },
        NotationBody::Object(fields) => {
            match expand_record_fields(fields, 0) {
                Ok(fs) => Ok(TypBody::Record(fs).with_span(n.span.duplicate())),
                Err(e) => Err(e),
            }
        },
        _ => Err(CompileError::BadForm { span: n.span.duplicate() }),
    }
}

fn expand_record_fields(fields: &Vec<(String, Notation)>, i: usize) -> (r: Result<
    Vec<(String, Typ)>,
    CompileError,
>)
    requires
        i <= fields@.len(),
    ensures
        match (r, s_record_fields(crate::notation::object_fields_view(fields@), i as int)) {
            (Ok(v), Ok(sv)) => crate::ast::typ::record_fields_view(v@) == sv,
            (Err(e), Err(se)) => e@ == se,
            _ => false,
        },
    decreases *fields, fields@.len() - i,
{
    proof {
        crate::notation::lemma_object_fields_view_index(fields@);
    }
    let ghost fv = crate::notation::object_fields_view(fields@);
    if i == fields.len() {
        let v: Vec<(String, Typ)> = Vec::new();
        proof {
            assert(crate::ast::typ::record_fields_view(v@) =~= Seq::<(Seq<char>, SpecTyp)>::empty());
        }
        Ok(v)
    } else {
        match expand_one_type(&fields[i].1) {
            Err(e) => Err(e),
            Ok(t) => {
                match expand_record_fields(fields, i + 1) {
                    Err(e) => Err(e),
                    Ok(rest) => {
                        let entry = (fields[i].0.clone(), t);
                        let ghost entry_v = (entry.0@, crate::ast::typ::typ_view(entry.1));
                        let mut v = rest;
                        let ghost rest_v = v@;
                        v.insert(0, entry);
                        proof {
                            assert(v@ =~= seq![(fields@[i as int].0, t)].update(
                                0,
                                v@[0],
                            ) + rest_v) by {
                                assert(v@.len() == rest_v.len() + 1);
                            }
                            crate::ast::typ::lemma_record_fields_view_index(v@);
                            crate::ast::typ::lemma_record_fields_view_index(rest_v);
                            assert(crate::ast::typ::record_fields_view(v@) =~= seq![entry_v]
                                + crate::ast::typ::record_fields_view(rest_v));
                            assert(entry_v.0 == fv[i as int].0);
                        }
                        Ok(v)
                    },
                }
            },
        }
    }
}

/// Reads a whole type tail, as a claim form carries it.
pub fn expand_type(span: &ReportSpan, ns: &Vec<Notation>) -> (r: Result<Typ, CompileError>)
    ensures
        match (r, s_expand_type_from(span@, crate::notation::notations_view(ns@), 0)) {
            (Ok(t), Ok(st)) => t@ == st,
            (Err(e), Err(se)) => e@ == se,
            _ => false,
        },
{
    expand_type_from(span, ns, 0)
}

fn expand_type_from(span: &ReportSpan, ns: &Vec<Notation>, i: usize) -> (r: Result<
    Typ,
    CompileError,
>)
    requires
        i <= ns@.len(),
    ensures
        match (r, s_expand_type_from(span@, crate::notation::notations_view(ns@), i as int)) {
            (Ok(t), Ok(st)) => t@ == st,
            (Err(e), Err(se)) => e@ == se,
            _ => false,
        },
    decreases ns@.len() - i, 1int,
{
    proof {
        crate::notation::lemma_notations_view_index(ns@);
    }
    let n = ns.len();
    if n - i == 0 {
        Err(CompileError::BadClaim { span: span.duplicate() })
    } else if n - i == 1 {
        expand_one_type(&ns[i])
    } else {
        expand_func_type_from(span, ns, i, Vec::new())
    }
}

fn expand_func_type_from(
    span: &ReportSpan,
    ns: &Vec<Notation>,
    i: usize,
    acc: Vec<Typ>,
) -> (r: Result<Typ, CompileError>)
    requires
        i <= ns@.len(),
    ensures
        match (r, s_func_type_from(
            span@,
            crate::notation::notations_view(ns@),
            i as int,
            crate::ast::typ::typs_view(acc@),
        )) {
            (Ok(t), Ok(st)) => t@ == st,
            (Err(e), Err(se)) => e@ == se,
            _ => false,
        },
    decreases ns@.len() - i, 0int,
{
    proof {
        crate::notation::lemma_notations_view_index(ns@);
        crate::ast::typ::lemma_typs_view_index(acc@);
    }
    let n = ns.len();
    if i == n {
        Err(CompileError::BadClaim { span: span.duplicate() })
    } else if notation_is_id(&ns[i], "->") {
        match expand_type_from(span, ns, i + 1) {
            Err(e) => Err(e),
            Ok(result) => Ok(
                TypBody::Func { params: acc, result: Box::new(result) }.with_span(
                    span.duplicate(),
                ),
            ),
        }
    } else {
        match expand_one_type(&ns[i]) {
            Err(e) => Err(e),
            Ok(t) => {
                let ghost acc_v = crate::ast::typ::typs_view(acc@);
                let ghost t_v = crate::ast::typ::typ_view(t);
                let ghost old_acc = acc@;
                let mut acc2 = acc;
                acc2.push(t);
                proof {
                    assert(acc2@.drop_last() =~= old_acc);
                    assert(acc2@.last() == t);
                    assert(crate::ast::typ::typs_view(acc2@) == acc_v.push(t_v));
                }
                expand_func_type_from(span, ns, i + 1, acc2)
            },
        }
    }
}

} // verus!

verus! {

/// Whether the counters can still pay for one fresh scope per node of a
/// tree with `n` nodes; a machine limit, not a language rule.
pub open spec fn counters_ok(st: SpecExpander, n: nat) -> bool {
    st.let_count + n <= u64::MAX && st.lambda_count + n <= u64::MAX
}

/// Mirror of `expand_expr`: a literal maps to the matching expression
/// body; an identifier is resolved against the rename table at once; a
/// list is a form; anything else is a malformed expression.
pub open spec fn s_expand_expr(st: SpecExpander, stack: Seq<SpecScope>, n: SpecNotation) -> (
    SpecExpander,
    Result<SpecExpr, SpecError>,
)
    decreases n, 1int,
{
    match n.body {
        SpecNotationBody::Boolean(v) => (
            st,
            Ok(SpecExpr { span: n.span, body: SpecExprBody::Bool(v) }),
        ),
        SpecNotationBody::Char(c) => (st, Ok(SpecExpr { span: n.span, body: SpecExprBody::Char(c) })),
        SpecNotationBody::Float(bits) => (
            st,
            Ok(SpecExpr { span: n.span, body: SpecExprBody::Float(bits) }),
        ),
        SpecNotationBody::Rational(p, q) => (
            st,
            Ok(SpecExpr { span: n.span, body: SpecExprBody::Rational(p, q) }),
        ),
        SpecNotationBody::Int(v) => (st, Ok(SpecExpr { span: n.span, body: SpecExprBody::Int(v) })),
        SpecNotationBody::String(txt) => (
            st,
            Ok(SpecExpr { span: n.span, body: SpecExprBody::String(txt) }),
        ),
        SpecNotationBody::Symbol(txt) => (
            st,
            Ok(SpecExpr { span: n.span, body: SpecExprBody::Symbol(txt) }),
        ),
        SpecNotationBody::Identifier(name) => match spec_lookup_newname(
            st.rename,
            name,
            spec_as_set(stack),
        ) {
            Some(ss) => (
                st,
                Ok(
                    SpecExpr {
                        span: n.span,
                        body: SpecExprBody::Identifier(
                            SpecIdent::Normal { written_name: name, scopes: ss },
                        ),
                    },
                ),
            ),
            None => (st, Err(SpecError::UnresolvedIdentifier { span: n.span, name: name })),
        },
        SpecNotationBody::List(elems) => s_expand_expr_form(st, stack, n),
        _ => (st, Err(SpecError::BadForm { span: n.span })),
    }
}

/// Mirror of `expand_expr_form`: `let`, `lambda` and `if` are
/// recognized in that order; any other nonempty list is an application.
/// A recognized keyword with a wrong operand shape is a syntax error.
pub open spec fn s_expand_expr_form(st: SpecExpander, stack: Seq<SpecScope>, n: SpecNotation) -> (
    SpecExpander,
    Result<SpecExpr, SpecError>,
)
    decreases n, 0int,
{
    match n.body {
        SpecNotationBody::List(elems) => {
            if elems.len() >= 2 && is_id_notation(elems[0], "let"@) && elems[1].body is List {
                let scope = SpecScope::Let(st.let_count);
                let st1 = SpecExpander { let_count: st.let_count + 1, ..st };
                let ext = stack.push(scope);
                let bs = elems[1].body->List_0;
                let r1 = s_expand_bindings(st1, stack, ext, bs, 0);
                match r1.1 {
                    Err(e) => (r1.0, Err(e)),
                    Ok(bindings) => {
                        let r2 = s_expand_many(r1.0, ext, elems.skip(2), 0);
                        match r2.1 {
                            Err(e) => (r2.0, Err(e)),
                            Ok(exprs) => if exprs.len() == 0 {
                                (r2.0, Err(SpecError::BadForm { span: n.span }))
                            } else {
                                let body = SpecExpr {
                                    span: exprs.last().span,
                                    body: SpecExprBody::Begin(
                                        exprs.drop_last(),
                                        Box::new(exprs.last()),
                                    ),
                                };
                                (
                                    r2.0,
                                    Ok(
                                        SpecExpr {
                                            span: n.span,
                                            body: SpecExprBody::Let(bindings, Box::new(body)),
                                        },
                                    ),
                                )
                            },
                        }
                    },
                }
            } else if elems.len() >= 1 && is_id_notation(elems[0], "let"@) {
                (st, Err(SpecError::BadForm { span: n.span }))
            } else if elems.len() >= 2 && is_id_notation(elems[0], "lambda"@) && elems[1].body is List {
                let scope = SpecScope::Lambda(st.lambda_count);
                let st1 = SpecExpander { lambda_count: st.lambda_count + 1, ..st };
                let ext = stack.push(scope);
                let params_n = elems[1].body->List_0;
                let r1 = s_bind_params(st1, spec_as_set(ext), params_n, 0);
                match r1.1 {
                    Err(e) => (r1.0, Err(e)),
                    Ok(params) => {
                        let r2 = s_expand_many(r1.0, ext, elems.skip(2), 0);
                        match r2.1 {
                            Err(e) => (r2.0, Err(e)),
                            Ok(exprs) => if exprs.len() == 0 {
                                (r2.0, Err(SpecError::BadForm { span: n.span }))
                            } else {
                                let body = SpecExpr {
                                    span: exprs.last().span,
                                    body: SpecExprBody::Begin(
                                        exprs.drop_last(),
                                        Box::new(exprs.last()),
                                    ),
                                };
                                (
                                    r2.0,
                                    Ok(
                                        SpecExpr {
                                            span: n.span,
                                            body: SpecExprBody::Lambda(params, Box::new(body)),
                                        },
                                    ),
                                )
                            },
                        }
                    },
                }
            } else if elems.len() >= 1 && is_id_notation(elems[0], "lambda"@) {
                (st, Err(SpecError::BadForm { span: n.span }))
            } else if elems.len() == 4 && is_id_notation(elems[0], "if"@) {
                let r1 = s_expand_expr(st, stack, elems[1]);
                match r1.1 {
                    Err(e) => (r1.0, Err(e)),
                    Ok(c) => {
                        let r2 = s_expand_expr(r1.0, stack, elems[2]);
                        match r2.1 {
                            Err(e) => (r2.0, Err(e)),
                            Ok(t) => {
                                let r3 = s_expand_expr(r2.0, stack, elems[3]);
                                match r3.1 {
                                    Err(e) => (r3.0, Err(e)),
                                    Ok(e2) => (
                                        r3.0,
                                        Ok(
                                            SpecExpr {
                                                span: n.span,
                                                body: SpecExprBody::If(
                                                    Box::new(c),
                                                    Box::new(t),
                                                    Box::new(e2),
                                                ),
                                            },
                                        ),
                                    ),
                                }
                            },
                        }
                    },
                }
            } else if elems.len() >= 1 && is_id_notation(elems[0], "if"@) {
                (st, Err(SpecError::BadForm { span: n.span }))
            } else if elems.len() >= 1 {
                let r1 = s_expand_expr(st, stack, elems[0]);
                match r1.1 {
                    Err(e) => (r1.0, Err(e)),
                    Ok(f) => {
                        let r2 = s_expand_many(r1.0, stack, elems.skip(1), 0);
                        match r2.1 {
                            Err(e) => (r2.0, Err(e)),
                            Ok(args) => (
                                r2.0,
                                Ok(
                                    SpecExpr {
                                        span: n.span,
                                        body: SpecExprBody::App(Box::new(f), args),
                                    },
                                ),
                            ),
                        }
                    },
                }
            } else {
                (st, Err(SpecError::BadForm { span: n.span }))
            }
        },
        _ => (st, Err(SpecError::BadForm { span: n.span })),
    }
}

/// Mirror of expanding a run of expressions left to right, threading
/// the expander state through.
pub open spec fn s_expand_many(
    st: SpecExpander,
    stack: Seq<SpecScope>,
    ns: Seq<SpecNotation>,
    i: int,
) -> (SpecExpander, Result<Seq<SpecExpr>, SpecError>)
    decreases ns, 2int, ns.len() - i,
{
    if i < 0 || i >= ns.len() {
        (st, Ok(Seq::empty()))
    } else {
        let r1 = s_expand_expr(st, stack, ns[i]);
        match r1.1 {
            Err(e) => (r1.0, Err(e)),
            Ok(e) => {
                let r2 = s_expand_many(r1.0, stack, ns, i + 1);
                match r2.1 {
                    Err(e2) => (r2.0, Err(e2)),
                    Ok(rest) => (r2.0, Ok(seq![e] + rest)),
                }
            },
        }
    }
}

/// Mirror of expanding the clauses of one `let` group: every name is
/// registered under the extended stack while every right-hand side is
/// expanded under the parent stack.
pub open spec fn s_expand_bindings(
    st: SpecExpander,
    parent: Seq<SpecScope>,
    ext: Seq<SpecScope>,
    ns: Seq<SpecNotation>,
    i: int,
) -> (SpecExpander, Result<Seq<SpecBinding>, SpecError>)
    decreases ns, 2int, ns.len() - i,
{
    if i < 0 || i >= ns.len() {
        (st, Ok(Seq::empty()))
    } else {
        let r1 = s_expand_binding(st, parent, ext, ns[i]);
        match r1.1 {
            Err(e) => (r1.0, Err(e)),
            Ok(b) => {
                let r2 = s_expand_bindings(r1.0, parent, ext, ns, i + 1);
                match r2.1 {
                    Err(e2) => (r2.0, Err(e2)),
                    Ok(rest) => (r2.0, Ok(seq![b] + rest)),
                }
            },
        }
    }
}

/// Mirror of expanding one `let` clause, `(name expr)` or
/// `(name : typ expr)`: the binder goes into the rename table under the
/// extended scopes, the right-hand side is expanded under the parent.
pub open spec fn s_expand_binding(
    st: SpecExpander,
    parent: Seq<SpecScope>,
    ext: Seq<SpecScope>,
    n: SpecNotation,
) -> (SpecExpander, Result<SpecBinding, SpecError>)
    decreases n, 1int,
{
    match n.body {
        SpecNotationBody::List(elems) => {
            if elems.len() == 2 && elems[0].body is Identifier {
                let name = elems[0].body->Identifier_0;
                let ext_set = spec_as_set(ext);
                let st1 = SpecExpander {
                    rename: spec_insert_binding(st.rename, name, ext_set),
                    ..st
                };
                let r1 = s_expand_expr(st1, parent, elems[1]);
                match r1.1 {
                    Err(e) => (r1.0, Err(e)),
                    Ok(e) => (
                        r1.0,
                        Ok(
                            SpecBinding {
                                name: SpecIdent::Normal { written_name: name, scopes: ext_set },
                                typ: SpecTyp { span: e.span, body: SpecTypBody::Unknown },
                                expr: e,
                            },
                        ),
                    ),
                }
            } else if elems.len() == 4 && elems[0].body is Identifier && is_id_notation(
                elems[1],
                ":"@,
            ) {
                let name = elems[0].body->Identifier_0;
                let ext_set = spec_as_set(ext);
                let st1 = SpecExpander {
                    rename: spec_insert_binding(st.rename, name, ext_set),
                    ..st
                };
                match s_expand_one_type(elems[2]) {
                    Err(e) => (st1, Err(e)),
                    Ok(t) => {
                        let r1 = s_expand_expr(st1, parent, elems[3]);
                        match r1.1 {
                            Err(e) => (r1.0, Err(e)),
                            Ok(e) => (
                                r1.0,
                                Ok(
                                    SpecBinding {
                                        name: SpecIdent::Normal {
                                            written_name: name,
                                            scopes: ext_set,
                                        },
                                        typ: t,
                                        expr: e,
                                    },
                                ),
                            ),
                        }
                    },
                }
            } else {
                (st, Err(SpecError::BadForm { span: n.span }))
            }
        },
        _ => (st, Err(SpecError::BadForm { span: n.span })),
    }
}

/// Mirror of registering a lambda's parameters, left to right; every
/// parameter must be a plain identifier.
pub open spec fn s_bind_params(
    st: SpecExpander,
    scopes: Seq<SpecScope>,
    params: Seq<SpecNotation>,
    i: int,
) -> (SpecExpander, Result<Seq<SpecIdent>, SpecError>)
    decreases params.len() - i,
{
    if i < 0 || i >= params.len() {
        (st, Ok(Seq::empty()))
    } else {
        match params[i].body {
            SpecNotationBody::Identifier(name) => {
                let st1 = SpecExpander {
                    rename: spec_insert_binding(st.rename, name, scopes),
                    ..st
                };
                let r = s_bind_params(st1, scopes, params, i + 1);
                match r.1 {
                    Err(e) => (r.0, Err(e)),
                    Ok(rest) => (
                        r.0,
                        Ok(
                            seq![SpecIdent::Normal { written_name: name, scopes: scopes }] + rest,
                        ),
                    ),
                }
            },
            _ => (st, Err(SpecError::BadForm { span: params[i].span })),
        }
    }
}

/// Registering parameters never touches the scope counters or module.
pub proof fn lemma_bind_params_state(
    st: SpecExpander,
    scopes: Seq<SpecScope>,
    params: Seq<SpecNotation>,
    i: int,
)
    ensures
        s_bind_params(st, scopes, params, i).0.let_count == st.let_count,
        s_bind_params(st, scopes, params, i).0.lambda_count == st.lambda_count,
        s_bind_params(st, scopes, params, i).0.module == st.module,
    decreases params.len() - i,
{
    if 0 <= i < params.len() {
        match params[i].body {
            SpecNotationBody::Identifier(name) => {
                let st1 = SpecExpander {
                    rename: spec_insert_binding(st.rename, name, scopes),
                    ..st
                };
                lemma_bind_params_state(st1, scopes, params, i + 1);
            },
            _ => {},
        }
    }
}

/// Expanding one expression allocates at most one scope per node.
pub proof fn lemma_growth_expr(st: SpecExpander, stack: Seq<SpecScope>, n: SpecNotation)
    ensures
        st.let_count <= s_expand_expr(st, stack, n).0.let_count,
        st.lambda_count <= s_expand_expr(st, stack, n).0.lambda_count,
        s_expand_expr(st, stack, n).0.let_count <= st.let_count + spec_size(n),
        s_expand_expr(st, stack, n).0.lambda_count <= st.lambda_count + spec_size(n),
        s_expand_expr(st, stack, n).0.module == st.module,
    decreases n, 1int,
{
    match n.body {
        SpecNotationBody::List(elems) => {
            lemma_growth_form(st, stack, n);
        },
        _ => {},
    }
}

/// Expanding a form allocates at most one scope per node.
pub proof fn lemma_growth_form(st: SpecExpander, stack: Seq<SpecScope>, n: SpecNotation)
    requires
        n.body is List,
    ensures
        st.let_count <= s_expand_expr_form(st, stack, n).0.let_count,
        st.lambda_count <= s_expand_expr_form(st, stack, n).0.lambda_count,
        s_expand_expr_form(st, stack, n).0.let_count <= st.let_count + spec_size(n),
        s_expand_expr_form(st, stack, n).0.lambda_count <= st.lambda_count + spec_size(n),
        s_expand_expr_form(st, stack, n).0.module == st.module,
    decreases n, 0int,
{
    let elems = n.body->List_0;
    crate::notation::lemma_size_pos(n);
    if elems.len() >= 1 {
        crate::notation::lemma_sizes_cons(elems);
        crate::notation::lemma_size_pos(elems[0]);
    }
    if elems.len() >= 2 {
        crate::notation::lemma_sizes_cons(elems.skip(1));
        assert(elems.skip(1)[0] == elems[1]);
        assert(elems.skip(1).skip(1) =~= elems.skip(2));
        crate::notation::lemma_size_pos(elems[1]);
    }
    if elems.len() >= 2 && is_id_notation(elems[0], "let"@) && elems[1].body is List {
        let scope = SpecScope::Let(st.let_count);
        let st1 = SpecExpander { let_count: st.let_count + 1, ..st };
        let ext = stack.push(scope);
        let bs = elems[1].body->List_0;
        lemma_growth_bindings(st1, stack, ext, bs, 0);
        let r1 = s_expand_bindings(st1, stack, ext, bs, 0);
        assert(spec_sizes(bs.skip(0)) == spec_sizes(bs)) by {
            assert(bs.skip(0) =~= bs);
        }
        match r1.1 {
            Err(e) => {},
            Ok(bindings) => {
                lemma_growth_many(r1.0, ext, elems.skip(2), 0);
                assert(elems.skip(2).skip(0) =~= elems.skip(2));
            },
        }
    } else if elems.len() >= 1 && is_id_notation(elems[0], "let"@) {
    } else if elems.len() >= 2 && is_id_notation(elems[0], "lambda"@) && elems[1].body is List {
        let scope = SpecScope::Lambda(st.lambda_count);
        let st1 = SpecExpander { lambda_count: st.lambda_count + 1, ..st };
        let ext = stack.push(scope);
        let params_n = elems[1].body->List_0;
        lemma_bind_params_state(st1, spec_as_set(ext), params_n, 0);
        let r1 = s_bind_params(st1, spec_as_set(ext), params_n, 0);
        match r1.1 {
            Err(e) => {},
            Ok(params) => {
                lemma_growth_many(r1.0, ext, elems.skip(2), 0);
                assert(elems.skip(2).skip(0) =~= elems.skip(2));
            },
        }
    } else if elems.len() >= 1 && is_id_notation(elems[0], "lambda"@) {
    } else if elems.len() == 4 && is_id_notation(elems[0], "if"@) {
        crate::notation::lemma_sizes_bound(elems, 1);
        crate::notation::lemma_sizes_bound(elems, 2);
        crate::notation::lemma_sizes_bound(elems, 3);
        crate::notation::lemma_sizes_cons(elems.skip(2));
        assert(elems.skip(2)[0] == elems[2]);
        assert(elems.skip(2).skip(1) =~= elems.skip(3));
        crate::notation::lemma_sizes_cons(elems.skip(3));
        assert(elems.skip(3)[0] == elems[3]);
        lemma_growth_expr(st, stack, elems[1]);
        let r1 = s_expand_expr(st, stack, elems[1]);
        match r1.1 {
            Err(e) => {},
            Ok(c) => {
                lemma_growth_expr(r1.0, stack, elems[2]);
                let r2 = s_expand_expr(r1.0, stack, elems[2]);
                match r2.1 {
                    Err(e) => {},
                    Ok(t) => {
                        lemma_growth_expr(r2.0, stack, elems[3]);
                    },
                }
            },
        }
    } else if elems.len() >= 1 && is_id_notation(elems[0], "if"@) {
    } else if elems.len() >= 1 {
        lemma_growth_expr(st, stack, elems[0]);
        let r1 = s_expand_expr(st, stack, elems[0]);
        match r1.1 {
            Err(e) => {},
            Ok(f) => {
                lemma_growth_many(r1.0, stack, elems.skip(1), 0);
                assert(elems.skip(1).skip(0) =~= elems.skip(1));
            },
        }
    } else {
    }
}

/// Expanding a run of expressions allocates at most one scope per node.
pub proof fn lemma_growth_many(
    st: SpecExpander,
    stack: Seq<SpecScope>,
    ns: Seq<SpecNotation>,
    i: int,
)
    ensures
        st.let_count <= s_expand_many(st, stack, ns, i).0.let_count,
        st.lambda_count <= s_expand_many(st, stack, ns, i).0.lambda_count,
        i >= 0 ==> s_expand_many(st, stack, ns, i).0.let_count <= st.let_count + spec_sizes(
            ns.skip(if i <= ns.len() { i } else { ns.len() as int }),
        ),
        i >= 0 ==> s_expand_many(st, stack, ns, i).0.lambda_count <= st.lambda_count + spec_sizes(
            ns.skip(if i <= ns.len() { i } else { ns.len() as int }),
        ),
        s_expand_many(st, stack, ns, i).0.module == st.module,
    decreases ns, 2int, ns.len() - i,
{
    if 0 <= i < ns.len() {
        crate::notation::lemma_sizes_cons(ns.skip(i));
        assert(ns.skip(i)[0] == ns[i]);
        assert(ns.skip(i).skip(1) =~= ns.skip(i + 1));
        lemma_growth_expr(st, stack, ns[i]);
        let r1 = s_expand_expr(st, stack, ns[i]);
        match r1.1 {
            Err(e) => {},
            Ok(e) => {
                lemma_growth_many(r1.0, stack, ns, i + 1);
            },
        }
    } else if i >= ns.len() {
        assert(ns.skip(ns.len() as int) =~= Seq::<SpecNotation>::empty());
    }
}

/// Expanding binding clauses allocates at most one scope per node.
pub proof fn lemma_growth_bindings(
    st: SpecExpander,
    parent: Seq<SpecScope>,
    ext: Seq<SpecScope>,
    ns: Seq<SpecNotation>,
    i: int,
)
    ensures
        st.let_count <= s_expand_bindings(st, parent, ext, ns, i).0.let_count,
        st.lambda_count <= s_expand_bindings(st, parent, ext, ns, i).0.lambda_count,
        i >= 0 ==> s_expand_bindings(st, parent, ext, ns, i).0.let_count <= st.let_count
            + spec_sizes(ns.skip(if i <= ns.len() { i } else { ns.len() as int })),
        i >= 0 ==> s_expand_bindings(st, parent, ext, ns, i).0.lambda_count <= st.lambda_count
            + spec_sizes(ns.skip(if i <= ns.len() { i } else { ns.len() as int })),
        s_expand_bindings(st, parent, ext, ns, i).0.module == st.module,
    decreases ns, 2int, ns.len() - i,
{
    if 0 <= i < ns.len() {
        crate::notation::lemma_sizes_cons(ns.skip(i));
        assert(ns.skip(i)[0] == ns[i]);
        assert(ns.skip(i).skip(1) =~= ns.skip(i + 1));
        lemma_growth_binding(st, parent, ext, ns[i]);
        let r1 = s_expand_binding(st, parent, ext, ns[i]);
        match r1.1 {
            Err(e) => {},
            Ok(b) => {
                lemma_growth_bindings(r1.0, parent, ext, ns, i + 1);
            },
        }
    } else if i >= ns.len() {
        assert(ns.skip(ns.len() as int) =~= Seq::<SpecNotation>::empty());
    }
}

/// Expanding one binding clause allocates at most one scope per node.
pub proof fn lemma_growth_binding(
    st: SpecExpander,
    parent: Seq<SpecScope>,
    ext: Seq<SpecScope>,
    n: SpecNotation,
)
    ensures
        st.let_count <= s_expand_binding(st, parent, ext, n).0.let_count,
        st.lambda_count <= s_expand_binding(st, parent, ext, n).0.lambda_count,
        s_expand_binding(st, parent, ext, n).0.let_count <= st.let_count + spec_size(n),
        s_expand_binding(st, parent, ext, n).0.lambda_count <= st.lambda_count + spec_size(n),
        s_expand_binding(st, parent, ext, n).0.module == st.module,
    decreases n, 1int,
{
    match n.body {
        SpecNotationBody::List(elems) => {
            if elems.len() == 2 && elems[0].body is Identifier {
                crate::notation::lemma_sizes_bound(elems, 1);
                let name = elems[0].body->Identifier_0;
                let ext_set = spec_as_set(ext);
                let st1 = SpecExpander {
                    rename: spec_insert_binding(st.rename, name, ext_set),
                    ..st
                };
                lemma_growth_expr(st1, parent, elems[1]);
            } else if elems.len() == 4 && elems[0].body is Identifier && is_id_notation(
                elems[1],
                ":"@,
            ) {
                crate::notation::lemma_sizes_bound(elems, 3);
                let name = elems[0].body->Identifier_0;
                let ext_set = spec_as_set(ext);
                let st1 = SpecExpander {
                    rename: spec_insert_binding(st.rename, name, ext_set),
                    ..st
                };
                match s_expand_one_type(elems[2]) {
                    Err(e) => {},
                    Ok(t) => {
                        lemma_growth_expr(st1, parent, elems[3]);
                    },
                }
            }
        },
        _ => {},
    }
}

} // verus!

verus! {

impl Expander {
    /// Expands one expression under the current scope stack.  Literals
    /// map one-to-one; identifiers are resolved at once; lists are
    /// recognized forms.
    pub fn expand_expr(&mut self, stack: &ScopeStack, notation: &Notation) -> (r: Result<
        Expr,
        CompileError,
    >)
        requires
            counters_ok(old(self)@, spec_size(notation@)),
        ensures
            final(self)@ == s_expand_expr(old(self)@, stack@, notation@).0,
            match (r, s_expand_expr(old(self)@, stack@, notation@).1) {
                (Ok(e), Ok(se)) => e@ == se,
                (Err(c), Err(sc)) => c@ == sc,
                _ => false,
            },
        decreases spec_size(notation@), 1int,
    {
        match &notation.body {
            NotationBody::Boolean(v) => Ok(ExprBody::Bool(*v).with_span(notation.span.duplicate())),
            NotationBody::Char(c) => Ok(ExprBody::Char(*c).with_span(notation.span.duplicate())),
            NotationBody::Float(bits) => Ok(
                ExprBody::Float(*bits).with_span(notation.span.duplicate()),
            ),
            NotationBody::Rational(p, q) => Ok(
                ExprBody::Rational(*p, *q).with_span(notation.span.duplicate()),
            ),
            NotationBody::Int(v) => Ok(ExprBody::Int(*v).with_span(notation.span.duplicate())),
            NotationBody::String(txt) => Ok(
                ExprBody::String(txt.clone()).with_span(notation.span.duplicate()),
            ),
            NotationBody::Symbol(txt) => Ok(
                ExprBody::Symbol(txt.clone()).with_span(notation.span.duplicate()),
            ),
            NotationBody::Identifier(name) => {
                let scopes = stack.as_set();
                match self.lookup_newname(name, scopes) {
                    Some(b) => Ok(b.with_span(notation.span.duplicate())),
                    None => Err(
                        CompileError::UnresolvedIdentifier {
                            span: notation.span.duplicate(),
                            name: name.clone(),
                        },
                    ),
                }
            },
            NotationBody::List(_) => self.expand_expr_form(stack, notation),
            _ => Err(CompileError::BadForm { span: notation.span.duplicate() }),
        }
    }

    /// Expands a run of expressions left to right.
    pub fn expand_many_expr(&mut self, stack: &ScopeStack, ns: &Vec<Notation>, i: usize) -> (r:
        Result<Vec<Expr>, CompileError>)
        requires
            i <= ns@.len(),
            counters_ok(old(self)@, spec_sizes(notations_view(ns@).skip(i as int))),
        ensures
            final(self)@ == s_expand_many(old(self)@, stack@, notations_view(ns@), i as int).0,
            match (r, s_expand_many(old(self)@, stack@, notations_view(ns@), i as int).1) {
                (Ok(v), Ok(sv)) => crate::ast::expr::exprs_view(v@) == sv,
                (Err(c), Err(sc)) => c@ == sc,
                _ => false,
            },
        decreases spec_sizes(notations_view(ns@).skip(i as int)), 2int,
    {
        proof {
            crate::notation::lemma_notations_view_index(ns@);
        }
        let ghost nv = notations_view(ns@);
        if i == ns.len() {
            let v: Vec<Expr> = Vec::new();
            proof {
                assert(nv.skip(i as int).len() == 0);
                assert(crate::ast::expr::exprs_view(v@) =~= Seq::<SpecExpr>::empty());
            }
            Ok(v)
        } else {
            proof {
                crate::notation::lemma_sizes_cons(nv.skip(i as int));
                assert(nv.skip(i as int)[0] == nv[i as int]);
                assert(nv.skip(i as int).skip(1) =~= nv.skip(i as int + 1));
                crate::notation::lemma_size_pos(nv[i as int]);
            }
            match self.expand_expr(stack, &ns[i]) {
                Err(e) => Err(e),
                Ok(e) => {
                    proof {
                        lemma_growth_expr(old(self)@, stack@, nv[i as int]);
                    }
                    match self.expand_many_expr(stack, ns, i + 1) {
                        Err(e2) => Err(e2),
                        Ok(rest) => {
                            let ghost rest_v = crate::ast::expr::exprs_view(rest@);
                            let ghost rest_seq = rest@;
                            let mut v = rest;
                            let ghost e_v = crate::ast::expr::expr_view(e);
                            v.insert(0, e);
                            proof {
                                assert(v@ =~= seq![e] + rest_seq);
                                crate::ast::expr::lemma_exprs_view_index(v@);
                                crate::ast::expr::lemma_exprs_view_index(rest_seq);
                                assert(crate::ast::expr::exprs_view(v@) =~= seq![e_v] + rest_v) by {
                                    assert forall|k: int|
                                        0 <= k < v@.len() implies crate::ast::expr::exprs_view(
                                        v@,
                                    )[k] == (seq![e_v] + rest_v)[k] by {
                                        if k > 0 {
                                            assert(v@[k] == rest_seq[k - 1]);
                                        } else {
                                            assert(v@[0] == e);
                                        }
                                    }
                                }
                            }
                            Ok(v)
                        },
                    }
                },
            }
        }
    }

    /// Registers the parameters of a lambda, each a plain identifier,
    /// under the given scope set.
    pub fn bind_params(&mut self, scopes: &ScopeSet, params: &Vec<Notation>, i: usize) -> (r:
        Result<Vec<Identifier>, CompileError>)
        requires
            i <= params@.len(),
        ensures
            final(self)@ == s_bind_params(
                old(self)@,
                scopes@,
                notations_view(params@),
                i as int,
            ).0,
            match (r, s_bind_params(old(self)@, scopes@, notations_view(params@), i as int).1) {
                (Ok(v), Ok(sv)) => crate::ast::expr::idents_view(v@) == sv,
                (Err(c), Err(sc)) => c@ == sc,
                _ => false,
            },
        decreases params@.len() - i,
    {
        proof {
            crate::notation::lemma_notations_view_index(params@);
        }
        let ghost pv = notations_view(params@);
        if i == params.len() {
            let v: Vec<Identifier> = Vec::new();
            proof {
                assert(crate::ast::expr::idents_view(v@) =~= Seq::<SpecIdent>::empty());
            }
            Ok(v)
        } else {
            match &params[i].body {
                NotationBody::Identifier(name) => {
                    let id = self.insert_binding(name, scopes.duplicate());
                    match self.bind_params(scopes, params, i + 1) {
                        Err(e) => Err(e),
                        Ok(rest) => {
                            let ghost rest_v = crate::ast::expr::idents_view(rest@);
                            let ghost rest_seq = rest@;
                            let ghost id_v = id@;
                            let mut v = rest;
                            v.insert(0, id);
                            proof {
                                assert(v@ =~= seq![id] + rest_seq);
                                assert(crate::ast::expr::idents_view(v@) =~= seq![id_v] + rest_v)
                                    by {
                                    assert forall|k: int|
                                        0 <= k < v@.len() implies crate::ast::expr::idents_view(
                                        v@,
                                    )[k] == (seq![id_v] + rest_v)[k] by {
                                        if k > 0 {
                                            assert(v@[k] == rest_seq[k - 1]);
                                        } else {
                                            assert(v@[0] == id);
                                        }
                                    }
                                }
                            }
                            Ok(v)
                        },
                    }
                },
                _ => Err(CompileError::BadForm { span: params[i].span.duplicate() }),
            }
        }
    }

    /// Expands one `let` clause: the binder is registered under the
    /// extended stack while its right-hand side is expanded under the
    /// parent stack, so a clause never sees its own group's binders.
    pub fn expand_binding(
        &mut self,
        parent: &ScopeStack,
        ext: &ScopeStack,
        notation: &Notation,
    ) -> (r: Result<Binding, CompileError>)
        requires
            counters_ok(old(self)@, spec_size(notation@)),
        ensures
            final(self)@ == s_expand_binding(old(self)@, parent@, ext@, notation@).0,
            match (r, s_expand_binding(old(self)@, parent@, ext@, notation@).1) {
                (Ok(b), Ok(sb)) => b@ == sb,
                (Err(c), Err(sc)) => c@ == sc,
                _ => false,
            },
        decreases spec_size(notation@), 1int,
    {
        let ghost n = notation@;
        let mut matcher = crate::matcher::Matcher::default();
        if matcher.ematch(notation, crate::matcher::pat_two("name", "expr")) {
            proof {
                crate::matcher::lemma_match_two(n, "name"@, "expr"@);
                reveal_strlit("name");
                reveal_strlit("expr");
            }
            let ghost elems = n.body->List_0;
            let ghost caps = crate::matcher::spec_match(
                n,
                SpecPattern::List(seq![SpecPattern::Hole("name"@), SpecPattern::Hole("expr"@)]),
            )->Some_0;
            proof {
                assert(matcher@ =~= caps);
                assert(caps.drop_last() =~= seq![("name"@, SpecMatched::One(elems[0]))]);
                reveal_strlit("name");
                reveal_strlit("expr");
                assert("name"@ != "expr"@) by {
                    assert("name"@[0] == 'n');
                    assert("expr"@[0] == 'e');
                }
                assert(crate::matcher::spec_find(
                    seq![("name"@, SpecMatched::One(elems[0]))],
                    "name"@,
                ) == Some(SpecMatched::One(elems[0])));
                assert(crate::matcher::spec_find(caps, "name"@) == Some(
                    SpecMatched::One(elems[0]),
                ));
                assert(crate::matcher::spec_find(caps, "expr"@) == Some(
                    SpecMatched::One(elems[1]),
                ));
            }
            let name_node = match matcher.get_one("name") {
                Some(v) => v,
                None => {
                    proof {
                        assert(false);
                    }
                    return Err(CompileError::BadForm { span: notation.span.duplicate() });
                },
            };
            let expr_node = match matcher.get_one("expr") {
                Some(v) => v,
                None => {
                    proof {
                        assert(false);
                    }
                    return Err(CompileError::BadForm { span: notation.span.duplicate() });
                },
            };
            match &name_node.body {
                NotationBody::Identifier(name) => {
                    let ext_set = ext.as_set();
                    let id = self.insert_binding(name, ext_set);
                    proof {
                        crate::notation::lemma_sizes_cons(n.body->List_0);
                        crate::notation::lemma_sizes_cons(n.body->List_0.skip(1));
                        assert(n.body->List_0.skip(1)[0] == elems[1]);
                        crate::notation::lemma_size_pos(elems[0]);
                    }
                    match self.expand_expr(parent, expr_node) {
                        Err(e) => Err(e),
                        Ok(e) => {
                            let typ_span = e.span();
                            let typ = TypBody::Unknown.with_span(typ_span);
                            Ok(Binding { name: id, typ, expr: e })
                        },
                    }
                },
                _ => Err(CompileError::BadForm { span: notation.span.duplicate() }),
            }
        } else if matcher.ematch(notation, crate::matcher::pat_typed_binding("name", ":", "typ", "expr")) {
            proof {
                crate::matcher::lemma_match_typed_binding(n, "name"@, ":"@, "typ"@, "expr"@);
                reveal_strlit("name");
                reveal_strlit(":");
                reveal_strlit("typ");
                reveal_strlit("expr");
            }
            let ghost elems = n.body->List_0;
            let ghost caps = crate::matcher::spec_match(
                n,
                SpecPattern::List(
                    seq![
                        SpecPattern::Hole("name"@),
                        SpecPattern::Id(":"@),
                        SpecPattern::Hole("typ"@),
                        SpecPattern::Hole("expr"@),
                    ],
                ),
            )->Some_0;
            proof {
                assert(matcher@ =~= caps);
                let ghost caps2 = seq![
                    ("name"@, SpecMatched::One(elems[0])),
                    ("typ"@, SpecMatched::One(elems[2])),
                ];
                let ghost caps1 = seq![("name"@, SpecMatched::One(elems[0]))];
                assert(caps.drop_last() =~= caps2);
                assert(caps2.drop_last() =~= caps1);
                reveal_strlit("name");
                reveal_strlit("typ");
                reveal_strlit("expr");
                assert("name"@ != "typ"@ && "name"@ != "expr"@ && "typ"@ != "expr"@) by {
                    assert("name"@[0] == 'n');
                    assert("typ"@[0] == 't');
                    assert("expr"@[0] == 'e');
                }
                assert(crate::matcher::spec_find(caps1, "name"@) == Some(
                    SpecMatched::One(elems[0]),
                ));
                assert(crate::matcher::spec_find(caps2, "name"@) == Some(
                    SpecMatched::One(elems[0]),
                ));
                assert(crate::matcher::spec_find(caps2, "typ"@) == Some(
                    SpecMatched::One(elems[2]),
                ));
                assert(crate::matcher::spec_find(caps, "name"@) == Some(
                    SpecMatched::One(elems[0]),
                ));
                assert(crate::matcher::spec_find(caps, "typ"@) == Some(
                    SpecMatched::One(elems[2]),
                ));
                assert(crate::matcher::spec_find(caps, "expr"@) == Some(
                    SpecMatched::One(elems[3]),
                ));
            }
            let name_node = match matcher.get_one("name") {
                Some(v) => v,
                None => {
                    proof {
                        assert(false);
                    }
                    return Err(CompileError::BadForm { span: notation.span.duplicate() });
                },
            };
            let typ_node = match matcher.get_one("typ") {
                Some(v) => v,
                None => {
                    proof {
                        assert(false);
                    }
                    return Err(CompileError::BadForm { span: notation.span.duplicate() });
                },
            };
            let expr_node = match matcher.get_one("expr") {
                Some(v) => v,
                None => {
                    proof {
                        assert(false);
                    }
                    return Err(CompileError::BadForm { span: notation.span.duplicate() });
                },
            };
            match &name_node.body {
                NotationBody::Identifier(name) => {
                    let ext_set = ext.as_set();
                    let id = self.insert_binding(name, ext_set);
                    proof {
                        crate::notation::lemma_sizes_cons(n.body->List_0);
                        crate::notation::lemma_sizes_bound(n.body->List_0, 3);
                        crate::notation::lemma_size_pos(elems[0]);
                    }
                    match expand_one_type(typ_node) {
                        Err(e) => Err(e),
                        Ok(t) => {
                            match self.expand_expr(parent, expr_node) {
                                Err(e) => Err(e),
                                Ok(e) => Ok(Binding { name: id, typ: t, expr: e }),
                            }
                        },
                    }
                },
                _ => Err(CompileError::BadForm { span: notation.span.duplicate() }),
            }
        } else {
            proof {
                crate::matcher::lemma_match_two(n, "name"@, "expr"@);
                crate::matcher::lemma_match_typed_binding(n, "name"@, ":"@, "typ"@, "expr"@);
            }
            Err(CompileError::BadForm { span: notation.span.duplicate() })
        }
    }

    /// Expands the clauses of one `let` group, left to right.
    pub fn expand_bindings(
        &mut self,
        parent: &ScopeStack,
        ext: &ScopeStack,
        ns: &Vec<Notation>,
        i: usize,
    ) -> (r: Result<Vec<Binding>, CompileError>)
        requires
            i <= ns@.len(),
            counters_ok(old(self)@, spec_sizes(notations_view(ns@).skip(i as int))),
        ensures
            final(self)@ == s_expand_bindings(
                old(self)@,
                parent@,
                ext@,
                notations_view(ns@),
                i as int,
            ).0,
            match (r, s_expand_bindings(
                old(self)@,
                parent@,
                ext@,
                notations_view(ns@),
                i as int,
            ).1) {
                (Ok(v), Ok(sv)) => crate::ast::expr::bindings_view(v@) == sv,
                (Err(c), Err(sc)) => c@ == sc,
                _ => false,
            },
        decreases spec_sizes(notations_view(ns@).skip(i as int)), 2int,
    {
        proof {
            crate::notation::lemma_notations_view_index(ns@);
        }
        let ghost nv = notations_view(ns@);
        if i == ns.len() {
            let v: Vec<Binding> = Vec::new();
            proof {
                assert(nv.skip(i as int).len() == 0);
                assert(crate::ast::expr::bindings_view(v@) =~= Seq::<SpecBinding>::empty());
            }
            Ok(v)
        } else {
            proof {
                crate::notation::lemma_sizes_cons(nv.skip(i as int));
                assert(nv.skip(i as int)[0] == nv[i as int]);
                assert(nv.skip(i as int).skip(1) =~= nv.skip(i as int + 1));
                crate::notation::lemma_size_pos(nv[i as int]);
            }
            match self.expand_binding(parent, ext, &ns[i]) {
                Err(e) => Err(e),
                Ok(b) => {
                    proof {
                        lemma_growth_binding(old(self)@, parent@, ext@, nv[i as int]);
                    }
                    match self.expand_bindings(parent, ext, ns, i + 1) {
                        Err(e2) => Err(e2),
                        Ok(rest) => {
                            let ghost rest_v = crate::ast::expr::bindings_view(rest@);
                            let ghost rest_seq = rest@;
                            let ghost b_v = b@;
                            let mut v = rest;
                            v.insert(0, b);
                            proof {
                                assert(v@ =~= seq![b] + rest_seq);
                                crate::ast::expr::lemma_bindings_view_index(v@);
                                crate::ast::expr::lemma_bindings_view_index(rest_seq);
                                assert(crate::ast::expr::bindings_view(v@) =~= seq![b_v] + rest_v)
                                    by {
                                    assert forall|k: int|
                                        0 <= k < v@.len() implies crate::ast::expr::bindings_view(
                                        v@,
                                    )[k] == (seq![b_v] + rest_v)[k] by {
                                        if k > 0 {
                                            assert(v@[k] == rest_seq[k - 1]);
                                        } else {
                                            assert(v@[0] == b);
                                        }
                                    }
                                }
                            }
                            Ok(v)
                        },
                    }
                },
            }
        }
    }
}

} // verus!

verus! {

impl Expander {
    /// Expands one list form: `let`, `lambda` and `if` are recognized in
    /// that order, any other nonempty list is an application, and a
    /// recognized keyword whose operands have the wrong shape is a
    /// syntax-shape error.
    #[verifier::rlimit(100)]
    #[verifier::spinoff_prover]
    pub fn expand_expr_form(&mut self, stack: &ScopeStack, list: &Notation) -> (r: Result<
        Expr,
        CompileError,
    >)
        requires
            list@.body is List,
            counters_ok(old(self)@, spec_size(list@)),
        ensures
            final(self)@ == s_expand_expr_form(old(self)@, stack@, list@).0,
            match (r, s_expand_expr_form(old(self)@, stack@, list@).1) {
                (Ok(e), Ok(se)) => e@ == se,
                (Err(c), Err(sc)) => c@ == sc,
                _ => false,
            },
        decreases spec_size(list@), 0int,
    {
        let ghost n = list@;
        let ghost elems = n.body->List_0;
        let ghost st0 = self@;
        proof {
            crate::notation::lemma_size_pos(n);
            if elems.len() >= 1 {
                crate::notation::lemma_sizes_cons(elems);
                crate::notation::lemma_size_pos(elems[0]);
            }
            if elems.len() >= 2 {
                crate::notation::lemma_sizes_cons(elems.skip(1));
                assert(elems.skip(1)[0] == elems[1]);
                assert(elems.skip(1).skip(1) =~= elems.skip(2));
                crate::notation::lemma_size_pos(elems[1]);
            }
        }
        let mut matcher = Matcher::default();
        if matcher.ematch(list, crate::matcher::pat_kw_group_rest("let", "bindings", "body")) {
            proof {
                crate::matcher::lemma_match_kw_group_rest(n, "let"@, "bindings"@, "body"@);
                reveal_strlit("let");
                reveal_strlit("bindings");
                reveal_strlit("body");
            }
            let ghost bs = elems[1].body->List_0;
            let ghost caps = seq![
                ("bindings"@, SpecMatched::Many(bs)),
                ("body"@, SpecMatched::Many(elems.skip(2))),
            ];
            proof {
                assert(matcher@ =~= caps);
                assert(caps.drop_last() =~= seq![("bindings"@, SpecMatched::Many(bs))]);
                reveal_strlit("bindings");
                reveal_strlit("body");
                assert("bindings"@ != "body"@) by {
                    assert("bindings"@.len() == 8);
                    assert("body"@.len() == 4);
                }
                assert(crate::matcher::spec_find(
                    seq![("bindings"@, SpecMatched::Many(bs))],
                    "bindings"@,
                ) == Some(SpecMatched::Many(bs)));
                assert(crate::matcher::spec_find(caps, "bindings"@) == Some(
                    SpecMatched::Many(bs),
                ));
                assert(crate::matcher::spec_find(caps, "body"@) == Some(
                    SpecMatched::Many(elems.skip(2)),
                ));
            }
            let bs_vec = match matcher.get_many("bindings") {
                Some(v) => v,
                None => {
                    proof {
                        assert(false);
                    }
                    return Err(CompileError::BadForm { span: list.span.duplicate() });
                },
            };
            let body_vec = match matcher.get_many("body") {
                Some(v) => v,
                None => {
                    proof {
                        assert(false);
                    }
                    return Err(CompileError::BadForm { span: list.span.duplicate() });
                },
            };
            proof {
                assert(st0.let_count < u64::MAX);
                assert(spec_size(elems[1]) == 1 + spec_sizes(bs));
            }
            let scope = self.let_scope();
            let ext = stack.extend(scope);
            let ghost st1 = self@;
            proof {
                assert(bs.skip(0) =~= bs);
                assert(elems.skip(2).skip(0) =~= elems.skip(2));
                assert(counters_ok(st1, spec_sizes(bs)));
            }
            match self.expand_bindings(stack, &ext, bs_vec, 0) {
                Err(e) => Err(e),
                Ok(bindings) => {
                    proof {
                        lemma_growth_bindings(st1, stack@, ext@, bs, 0);
                        assert(counters_ok(self@, spec_sizes(elems.skip(2))));
                    }
                    match self.expand_many_expr(&ext, body_vec, 0) {
                        Err(e) => Err(e),
                        Ok(exprs) => {
                            if exprs.len() == 0 {
                                Err(CompileError::BadForm { span: list.span.duplicate() })
                            } else {
                                let ghost se = crate::ast::expr::exprs_view(exprs@);
                                let mut exprs = exprs;
                                let last = match exprs.pop() {
                                    Some(e) => e,
                                    None => {
                                        proof {
                                            assert(false);
                                        }
                                        return Err(
                                            CompileError::BadForm { span: list.span.duplicate() },
                                        );
                                    },
                                };
                                proof {
                                    crate::ast::expr::lemma_exprs_view_index(exprs@);
                                    assert(crate::ast::expr::exprs_view(exprs@) =~= se.drop_last())
                                        by {
                                        crate::ast::expr::lemma_exprs_view_index(exprs@);
                                    }
                                    assert(last@ == se.last());
                                }
                                let last_span = last.span();
                                let body = ExprBody::Begin(exprs, Box::new(last)).with_span(
                                    last_span,
                                );
                                Ok(
                                    ExprBody::Let(bindings, Box::new(body)).with_span(
                                        list.span.duplicate(),
                                    ),
                                )
                            }
                        },
                    }
                },
            }
        } else if matcher.ematch(list, crate::matcher::pat_kw_rest("let", "rest")) {
            proof {
                crate::matcher::lemma_match_kw_group_rest(n, "let"@, "bindings"@, "body"@);
                crate::matcher::lemma_match_kw_rest(n, "let"@, "rest"@);
            }
            Err(CompileError::BadForm { span: list.span.duplicate() })
        } else if matcher.ematch(list, crate::matcher::pat_kw_group_rest("lambda", "params", "body")) {
            proof {
                crate::matcher::lemma_match_kw_group_rest(n, "let"@, "bindings"@, "body"@);
                crate::matcher::lemma_match_kw_rest(n, "let"@, "rest"@);
                crate::matcher::lemma_match_kw_group_rest(n, "lambda"@, "params"@, "body"@);
                reveal_strlit("lambda");
                reveal_strlit("params");
                reveal_strlit("body");
                reveal_strlit("let");
            }
            let ghost ps = elems[1].body->List_0;
            let ghost caps = seq![
                ("params"@, SpecMatched::Many(ps)),
                ("body"@, SpecMatched::Many(elems.skip(2))),
            ];
            proof {
                assert(matcher@ =~= caps);
                assert(caps.drop_last() =~= seq![("params"@, SpecMatched::Many(ps))]);
                reveal_strlit("params");
                reveal_strlit("body");
                assert("params"@ != "body"@) by {
                    assert("params"@.len() == 6);
                    assert("body"@.len() == 4);
                }
                assert(crate::matcher::spec_find(
                    seq![("params"@, SpecMatched::Many(ps))],
                    "params"@,
                ) == Some(SpecMatched::Many(ps)));
                assert(crate::matcher::spec_find(caps, "params"@) == Some(SpecMatched::Many(ps)));
                assert(crate::matcher::spec_find(caps, "body"@) == Some(
                    SpecMatched::Many(elems.skip(2)),
                ));
            }
            let params_vec = match matcher.get_many("params") {
                Some(v) => v,
                None => {
                    proof {
                        assert(false);
                    }
                    return Err(CompileError::BadForm { span: list.span.duplicate() });
                },
            };
            let body_vec = match matcher.get_many("body") {
                Some(v) => v,
                None => {
                    proof {
                        assert(false);
                    }
                    return Err(CompileError::BadForm { span: list.span.duplicate() });
                },
            };
            proof {
                assert(st0.lambda_count < u64::MAX);
            }
            let scope = self.lambda_scope();
            let ext = stack.extend(scope);
            let ext_set = ext.as_set();
            let ghost st1 = self@;
            match self.bind_params(&ext_set, params_vec, 0) {
                Err(e) => Err(e),
                Ok(params) => {
                    proof {
                        lemma_bind_params_state(st1, ext_set@, ps, 0);
                        assert(elems.skip(2).skip(0) =~= elems.skip(2));
                        assert(counters_ok(self@, spec_sizes(elems.skip(2))));
                    }
                    match self.expand_many_expr(&ext, body_vec, 0) {
                        Err(e) => Err(e),
                        Ok(exprs) => {
                            if exprs.len() == 0 {
                                Err(CompileError::BadForm { span: list.span.duplicate() })
                            } else {
                                let ghost se = crate::ast::expr::exprs_view(exprs@);
                                let mut exprs = exprs;
                                let last = match exprs.pop() {
                                    Some(e) => e,
                                    None => {
                                        proof {
                                            assert(false);
                                        }
                                        return Err(
                                            CompileError::BadForm { span: list.span.duplicate() },
                                        );
                                    },
                                };
                                proof {
                                    assert(crate::ast::expr::exprs_view(exprs@) =~= se.drop_last())
                                        by {
                                        crate::ast::expr::lemma_exprs_view_index(exprs@);
                                    }
                                    assert(last@ == se.last());
                                }
                                let last_span = last.span();
                                let body = ExprBody::Begin(exprs, Box::new(last)).with_span(
                                    last_span,
                                );
                                Ok(
                                    ExprBody::Lambda(params, Box::new(body)).with_span(
                                        list.span.duplicate(),
                                    ),
                                )
                            }
                        },
                    }
                },
            }
        } else if matcher.ematch(list, crate::matcher::pat_kw_rest("lambda", "rest")) {
            proof {
                crate::matcher::lemma_match_kw_group_rest(n, "let"@, "bindings"@, "body"@);
                crate::matcher::lemma_match_kw_rest(n, "let"@, "rest"@);
                crate::matcher::lemma_match_kw_group_rest(n, "lambda"@, "params"@, "body"@);
                crate::matcher::lemma_match_kw_rest(n, "lambda"@, "rest"@);
            }
            Err(CompileError::BadForm { span: list.span.duplicate() })
        } else if matcher.ematch(list, crate::matcher::pat_kw_three("if", "cond", "then", "else")) {
            proof {
                crate::matcher::lemma_match_kw_group_rest(n, "let"@, "bindings"@, "body"@);
                crate::matcher::lemma_match_kw_rest(n, "let"@, "rest"@);
                crate::matcher::lemma_match_kw_group_rest(n, "lambda"@, "params"@, "body"@);
                crate::matcher::lemma_match_kw_rest(n, "lambda"@, "rest"@);
                crate::matcher::lemma_match_kw_three(n, "if"@, "cond"@, "then"@, "else"@);
                reveal_strlit("if");
                reveal_strlit("cond");
                reveal_strlit("then");
                reveal_strlit("else");
            }
            let ghost caps = seq![
                ("cond"@, SpecMatched::One(elems[1])),
                ("then"@, SpecMatched::One(elems[2])),
                ("else"@, SpecMatched::One(elems[3])),
            ];
            proof {
                assert(matcher@ =~= caps);
                let ghost caps2 = seq![
                    ("cond"@, SpecMatched::One(elems[1])),
                    ("then"@, SpecMatched::One(elems[2])),
                ];
                let ghost caps1 = seq![("cond"@, SpecMatched::One(elems[1]))];
                assert(caps.drop_last() =~= caps2);
                assert(caps2.drop_last() =~= caps1);
                reveal_strlit("cond");
                reveal_strlit("then");
                reveal_strlit("else");
                assert("cond"@ != "then"@ && "cond"@ != "else"@ && "then"@ != "else"@) by {
                    assert("cond"@[0] == 'c');
                    assert("then"@[0] == 't');
                    assert("else"@[0] == 'e');
                }
                assert(crate::matcher::spec_find(caps1, "cond"@) == Some(
                    SpecMatched::One(elems[1]),
                ));
                assert(crate::matcher::spec_find(caps2, "cond"@) == Some(
                    SpecMatched::One(elems[1]),
                ));
                assert(crate::matcher::spec_find(caps2, "then"@) == Some(
                    SpecMatched::One(elems[2]),
                ));
                assert(crate::matcher::spec_find(caps, "cond"@) == Some(
                    SpecMatched::One(elems[1]),
                ));
                assert(crate::matcher::spec_find(caps, "then"@) == Some(
                    SpecMatched::One(elems[2]),
                ));
                assert(crate::matcher::spec_find(caps, "else"@) == Some(
                    SpecMatched::One(elems[3]),
                ));
            }
            let cond_node = match matcher.get_one("cond") {
                Some(v) => v,
                None => {
                    proof {
                        assert(false);
                    }
                    return Err(CompileError::BadForm { span: list.span.duplicate() });
                },
            };
            let then_node = match matcher.get_one("then") {
                Some(v) => v,
                None => {
                    proof {
                        assert(false);
                    }
                    return Err(CompileError::BadForm { span: list.span.duplicate() });
                },
            };
            let else_node = match matcher.get_one("else") {
                Some(v) => v,
                None => {
                    proof {
                        assert(false);
                    }
                    return Err(CompileError::BadForm { span: list.span.duplicate() });
                },
            };
            proof {
                crate::notation::lemma_sizes_cons(elems.skip(2));
                assert(elems.skip(2)[0] == elems[2]);
                assert(elems.skip(2).skip(1) =~= elems.skip(3));
                crate::notation::lemma_sizes_cons(elems.skip(3));
                assert(elems.skip(3)[0] == elems[3]);
            }
            match self.expand_expr(stack, cond_node) {
                Err(e) => Err(e),
                Ok(c) => {
                    proof {
                        lemma_growth_expr(st0, stack@, elems[1]);
                    }
                    match self.expand_expr(stack, then_node) {
                        Err(e) => Err(e),
                        Ok(t) => {
                            proof {
                                lemma_growth_expr(
                                    s_expand_expr(st0, stack@, elems[1]).0,
                                    stack@,
                                    elems[2],
                                );
                            }
                            match self.expand_expr(stack, else_node) {
                                Err(e) => Err(e),
                                Ok(e2) => Ok(
                                    ExprBody::If(Box::new(c), Box::new(t), Box::new(e2)).with_span(
                                        list.span.duplicate(),
                                    ),
                                ),
                            }
                        },
                    }
                },
            }
        } else if matcher.ematch(list, crate::matcher::pat_kw_rest("if", "rest")) {
            proof {
                crate::matcher::lemma_match_kw_group_rest(n, "let"@, "bindings"@, "body"@);
                crate::matcher::lemma_match_kw_rest(n, "let"@, "rest"@);
                crate::matcher::lemma_match_kw_group_rest(n, "lambda"@, "params"@, "body"@);
                crate::matcher::lemma_match_kw_rest(n, "lambda"@, "rest"@);
                crate::matcher::lemma_match_kw_three(n, "if"@, "cond"@, "then"@, "else"@);
                crate::matcher::lemma_match_kw_rest(n, "if"@, "rest"@);
            }
            Err(CompileError::BadForm { span: list.span.duplicate() })
        } else if matcher.ematch(list, crate::matcher::pat_hole_rest("fn", "args")) {
            proof {
                crate::matcher::lemma_match_kw_group_rest(n, "let"@, "bindings"@, "body"@);
                crate::matcher::lemma_match_kw_rest(n, "let"@, "rest"@);
                crate::matcher::lemma_match_kw_group_rest(n, "lambda"@, "params"@, "body"@);
                crate::matcher::lemma_match_kw_rest(n, "lambda"@, "rest"@);
                crate::matcher::lemma_match_kw_three(n, "if"@, "cond"@, "then"@, "else"@);
                crate::matcher::lemma_match_kw_rest(n, "if"@, "rest"@);
                crate::matcher::lemma_match_hole_rest(n, "fn"@, "args"@);
                reveal_strlit("fn");
                reveal_strlit("args");
            }
            let ghost caps = seq![
                ("fn"@, SpecMatched::One(elems[0])),
                ("args"@, SpecMatched::Many(elems.skip(1))),
            ];
            proof {
                assert(matcher@ =~= caps);
                assert(caps.drop_last() =~= seq![("fn"@, SpecMatched::One(elems[0]))]);
                reveal_strlit("fn");
                reveal_strlit("args");
                assert("fn"@ != "args"@) by {
                    assert("fn"@.len() == 2);
                    assert("args"@.len() == 4);
                }
                assert(crate::matcher::spec_find(
                    seq![("fn"@, SpecMatched::One(elems[0]))],
                    "fn"@,
                ) == Some(SpecMatched::One(elems[0])));
                assert(crate::matcher::spec_find(caps, "fn"@) == Some(SpecMatched::One(elems[0])));
                assert(crate::matcher::spec_find(caps, "args"@) == Some(
                    SpecMatched::Many(elems.skip(1)),
                ));
            }
            let fn_node = match matcher.get_one("fn") {
                Some(v) => v,
                None => {
                    proof {
                        assert(false);
                    }
                    return Err(CompileError::BadForm { span: list.span.duplicate() });
                },
            };
            let args_vec = match matcher.get_many("args") {
                Some(v) => v,
                None => {
                    proof {
                        assert(false);
                    }
                    return Err(CompileError::BadForm { span: list.span.duplicate() });
                },
            };
            match self.expand_expr(stack, fn_node) {
                Err(e) => Err(e),
                Ok(f) => {
                    proof {
                        lemma_growth_expr(st0, stack@, elems[0]);
                        assert(elems.skip(1).skip(0) =~= elems.skip(1));
                        assert(counters_ok(self@, spec_sizes(elems.skip(1))));
                    }
                    match self.expand_many_expr(stack, args_vec, 0) {
                        Err(e) => Err(e),
                        Ok(args) => Ok(
                            ExprBody::App(Box::new(f), args).with_span(list.span.duplicate()),
                        ),
                    }
                },
            }
        } else {
            proof {
                crate::matcher::lemma_match_kw_group_rest(n, "let"@, "bindings"@, "body"@);
                crate::matcher::lemma_match_kw_rest(n, "let"@, "rest"@);
                crate::matcher::lemma_match_kw_group_rest(n, "lambda"@, "params"@, "body"@);
                crate::matcher::lemma_match_kw_rest(n, "lambda"@, "rest"@);
                crate::matcher::lemma_match_kw_three(n, "if"@, "cond"@, "then"@, "else"@);
                crate::matcher::lemma_match_kw_rest(n, "if"@, "rest"@);
                crate::matcher::lemma_match_hole_rest(n, "fn"@, "args"@);
            }
            Err(CompileError::BadForm { span: list.span.duplicate() })
        }
    }
}

} // verus!

verus! {

/// Mirror of `expand_claim`: `(: name : type...)` records a claim; any
/// other shape under the `:` keyword is a malformed claim.
pub open spec fn s_expand_claim(st: SpecExpander, n: SpecNotation) -> (
    SpecExpander,
    Result<(), SpecError>,
)
{
    match n.body {
        SpecNotationBody::List(elems) => {
            if elems.len() >= 3 && is_id_notation(elems[0], ":"@) && is_id_notation(
                elems[2],
                ":"@,
            ) {
                if elems[1].body is Identifier {
                    let name = elems[1].body->Identifier_0;
                    match s_expand_type_from(n.span, elems.skip(3), 0) {
                        Err(e) => (st, Err(e)),
                        Ok(t) => {
                            let claim = crate::ast::SpecClaim {
                                id: SpecIdent::Simple(name),
                                typ: t,
                            };
                            let m2 = crate::ast::SpecModule {
                                claim_forms: st.module.claim_forms.push(claim),
                                ..st.module
                            };
                            (SpecExpander { module: m2, ..st }, Ok(()))
                        },
                    }
                } else {
                    (st, Err(SpecError::BadClaim { span: n.span }))
                }
            } else {
                (st, Err(SpecError::BadClaim { span: n.span }))
            }
        },
        _ => (st, Err(SpecError::BadClaim { span: n.span })),
    }
}

/// Mirror of `expand_define`.  The function shorthand allocates a fresh
/// lambda scope, binds the parameters under it and expands the body
/// under it; the constant form expands its expression under the current
/// stack and flattens an immediate lambda into a function definition,
/// so the two spellings produce the same definition.
pub open spec fn s_expand_define(st: SpecExpander, stack: Seq<SpecScope>, n: SpecNotation) -> (
    SpecExpander,
    Result<(), SpecError>,
)
{
    match n.body {
        SpecNotationBody::List(elems) => {
            if elems.len() >= 2 && is_id_notation(elems[0], "define"@) && elems[1].body is List
                && elems[1].body->List_0.len() >= 1 {
                let fname_node = elems[1].body->List_0[0];
                let params_n = elems[1].body->List_0.skip(1);
                let body_n = elems.skip(2);
                if fname_node.body is Identifier {
                    let fname = fname_node.body->Identifier_0;
                    let scope = SpecScope::Lambda(st.lambda_count);
                    let st1 = SpecExpander { lambda_count: st.lambda_count + 1, ..st };
                    let ext = stack.push(scope);
                    let r1 = s_bind_params(st1, spec_as_set(ext), params_n, 0);
                    match r1.1 {
                        Err(e) => (r1.0, Err(e)),
                        Ok(params) => {
                            let r2 = s_expand_many(r1.0, ext, body_n, 0);
                            match r2.1 {
                                Err(e) => (r2.0, Err(e)),
                                Ok(exprs) => if exprs.len() == 0 {
                                    (r2.0, Err(SpecError::BadDefine { span: n.span }))
                                } else {
                                    let body = SpecExpr {
                                        span: n.span,
                                        body: SpecExprBody::Begin(
                                            exprs.drop_last(),
                                            Box::new(exprs.last()),
                                        ),
                                    };
                                    let def = crate::ast::SpecDefine::Function {
                                        span: n.span,
                                        id: SpecIdent::Simple(fname),
                                        params: params,
                                        body: body,
                                    };
                                    let m2 = crate::ast::SpecModule {
                                        define_forms: r2.0.module.define_forms.push(def),
                                        ..r2.0.module
                                    };
                                    (SpecExpander { module: m2, ..r2.0 }, Ok(()))
                                },
                            }
                        },
                    }
                } else {
                    (st, Err(SpecError::BadDefine { span: n.span }))
                }
            } else if elems.len() == 3 && is_id_notation(elems[0], "define"@) {
                if elems[1].body is Identifier {
                    let name = elems[1].body->Identifier_0;
                    let r1 = s_expand_expr(st, stack, elems[2]);
                    match r1.1 {
                        Err(e) => (r1.0, Err(e)),
                        Ok(e) => {
                            let def = match e.body {
                                SpecExprBody::Lambda(params, body) => crate::ast::SpecDefine::Function {
                                    span: n.span,
                                    id: SpecIdent::Simple(name),
                                    params: params,
                                    body: *body,
                                },
                                _ => crate::ast::SpecDefine::Constant {
                                    span: n.span,
                                    id: SpecIdent::Simple(name),
                                    expr: e,
                                },
                            };
                            let m2 = crate::ast::SpecModule {
                                define_forms: r1.0.module.define_forms.push(def),
                                ..r1.0.module
                            };
                            (SpecExpander { module: m2, ..r1.0 }, Ok(()))
                        },
                    }
                } else {
                    (st, Err(SpecError::BadDefine { span: n.span }))
                }
            } else {
                (st, Err(SpecError::BadDefine { span: n.span }))
            }
        },
        _ => (st, Err(SpecError::BadDefine { span: n.span })),
    }
}

/// Mirror of recording `require` operands, left to right; each must be
/// a plain identifier.
pub open spec fn s_add_requires(st: SpecExpander, ns: Seq<SpecNotation>, i: int) -> (
    SpecExpander,
    Result<(), SpecError>,
)
    decreases ns.len() - i,
{
    if i < 0 || i >= ns.len() {
        (st, Ok(()))
    } else {
        match ns[i].body {
            SpecNotationBody::Identifier(name) => {
                let m2 = crate::ast::SpecModule {
                    requires: st.module.requires.push(crate::ast::SpecRequire { module: name }),
                    ..st.module
                };
                s_add_requires(SpecExpander { module: m2, ..st }, ns, i + 1)
            },
            _ => (st, Err(SpecError::BadRequire { span: ns[i].span })),
        }
    }
}

/// Mirror of `expand_top_level`: `define`, `:` and `require` forms are
/// recognized in that order; anything else is kept verbatim among the
/// module's other forms.
pub open spec fn s_expand_top_level(st: SpecExpander, stack: Seq<SpecScope>, n: SpecNotation) -> (
    SpecExpander,
    Result<(), SpecError>,
)
{
    if n.body is List && n.body->List_0.len() >= 1 && is_id_notation(
        n.body->List_0[0],
        "define"@,
    ) {
        s_expand_define(st, stack, n)
    } else if n.body is List && n.body->List_0.len() >= 1 && is_id_notation(
        n.body->List_0[0],
        ":"@,
    ) {
        s_expand_claim(st, n)
    } else if n.body is List && n.body->List_0.len() >= 1 && is_id_notation(
        n.body->List_0[0],
        "require"@,
    ) {
        s_add_requires(st, n.body->List_0.skip(1), 0)
    } else {
        let m2 = crate::ast::SpecModule {
            other_forms: st.module.other_forms.push(n),
            ..st.module
        };
        (SpecExpander { module: m2, ..st }, Ok(()))
    }
}

/// Mirror of expanding every top-level form in order.
pub open spec fn s_expand_top_levels(
    st: SpecExpander,
    stack: Seq<SpecScope>,
    ns: Seq<SpecNotation>,
    i: int,
) -> (SpecExpander, Result<(), SpecError>)
    decreases ns.len() - i,
{
    if i < 0 || i >= ns.len() {
        (st, Ok(()))
    } else {
        let r1 = s_expand_top_level(st, stack, ns[i]);
        match r1.1 {
            Err(e) => (r1.0, Err(e)),
            Ok(u) => s_expand_top_levels(r1.0, stack, ns, i + 1),
        }
    }
}

/// Claims never touch the rename table or the counters.
pub proof fn lemma_claim_state(st: SpecExpander, n: SpecNotation)
    ensures
        s_expand_claim(st, n).0.let_count == st.let_count,
        s_expand_claim(st, n).0.lambda_count == st.lambda_count,
{
}

/// A define allocates at most one scope per node of its form.
pub proof fn lemma_growth_define(st: SpecExpander, stack: Seq<SpecScope>, n: SpecNotation)
    ensures
        st.let_count <= s_expand_define(st, stack, n).0.let_count,
        st.lambda_count <= s_expand_define(st, stack, n).0.lambda_count,
        s_expand_define(st, stack, n).0.let_count <= st.let_count + spec_size(n),
        s_expand_define(st, stack, n).0.lambda_count <= st.lambda_count + spec_size(n),
{
    match n.body {
        SpecNotationBody::List(elems) => {
            crate::notation::lemma_size_pos(n);
            if elems.len() >= 1 {
                crate::notation::lemma_sizes_cons(elems);
                crate::notation::lemma_size_pos(elems[0]);
            }
            if elems.len() >= 2 {
                crate::notation::lemma_sizes_cons(elems.skip(1));
                assert(elems.skip(1)[0] == elems[1]);
                assert(elems.skip(1).skip(1) =~= elems.skip(2));
                crate::notation::lemma_size_pos(elems[1]);
            }
            if elems.len() >= 2 && is_id_notation(elems[0], "define"@) && elems[1].body is List
                && elems[1].body->List_0.len() >= 1 {
                let fname_node = elems[1].body->List_0[0];
                let params_n = elems[1].body->List_0.skip(1);
                if fname_node.body is Identifier {
                    let fname = fname_node.body->Identifier_0;
                    let scope = SpecScope::Lambda(st.lambda_count);
                    let st1 = SpecExpander { lambda_count: st.lambda_count + 1, ..st };
                    let ext = stack.push(scope);
                    lemma_bind_params_state(st1, spec_as_set(ext), params_n, 0);
                    let r1 = s_bind_params(st1, spec_as_set(ext), params_n, 0);
                    match r1.1 {
                        Err(e) => {},
                        Ok(params) => {
                            lemma_growth_many(r1.0, ext, elems.skip(2), 0);
                            assert(elems.skip(2).skip(0) =~= elems.skip(2));
                        },
                    }
                }
            } else if elems.len() == 3 && is_id_notation(elems[0], "define"@) {
                if elems[1].body is Identifier {
                    crate::notation::lemma_sizes_bound(elems, 2);
                    lemma_growth_expr(st, stack, elems[2]);
                }
            }
        },
        _ => {},
    }
}

/// Recording requires never touches the counters.
pub proof fn lemma_requires_state(st: SpecExpander, ns: Seq<SpecNotation>, i: int)
    ensures
        s_add_requires(st, ns, i).0.let_count == st.let_count,
        s_add_requires(st, ns, i).0.lambda_count == st.lambda_count,
    decreases ns.len() - i,
{
    if 0 <= i < ns.len() {
        match ns[i].body {
            SpecNotationBody::Identifier(name) => {
                let m2 = crate::ast::SpecModule {
                    requires: st.module.requires.push(crate::ast::SpecRequire { module: name }),
                    ..st.module
                };
                lemma_requires_state(SpecExpander { module: m2, ..st }, ns, i + 1);
            },
            _ => {},
        }
    }
}

/// One top-level form allocates at most one scope per node.
pub proof fn lemma_growth_top_level(st: SpecExpander, stack: Seq<SpecScope>, n: SpecNotation)
    ensures
        st.let_count <= s_expand_top_level(st, stack, n).0.let_count,
        st.lambda_count <= s_expand_top_level(st, stack, n).0.lambda_count,
        s_expand_top_level(st, stack, n).0.let_count <= st.let_count + spec_size(n),
        s_expand_top_level(st, stack, n).0.lambda_count <= st.lambda_count + spec_size(n),
{
    crate::notation::lemma_size_pos(n);
    if n.body is List && n.body->List_0.len() >= 1 && is_id_notation(
        n.body->List_0[0],
        "define"@,
    ) {
        lemma_growth_define(st, stack, n);
    } else if n.body is List && n.body->List_0.len() >= 1 && is_id_notation(
        n.body->List_0[0],
        ":"@,
    ) {
        lemma_claim_state(st, n);
    } else if n.body is List && n.body->List_0.len() >= 1 && is_id_notation(
        n.body->List_0[0],
        "require"@,
    ) {
        lemma_requires_state(st, n.body->List_0.skip(1), 0);
    }
}

/// A run of top-level forms allocates at most one scope per node.
pub proof fn lemma_growth_top_levels(
    st: SpecExpander,
    stack: Seq<SpecScope>,
    ns: Seq<SpecNotation>,
    i: int,
)
    ensures
        st.let_count <= s_expand_top_levels(st, stack, ns, i).0.let_count,
        st.lambda_count <= s_expand_top_levels(st, stack, ns, i).0.lambda_count,
        i >= 0 ==> s_expand_top_levels(st, stack, ns, i).0.let_count <= st.let_count + spec_sizes(
            ns.skip(if i <= ns.len() { i } else { ns.len() as int }),
        ),
        i >= 0 ==> s_expand_top_levels(st, stack, ns, i).0.lambda_count <= st.lambda_count
            + spec_sizes(ns.skip(if i <= ns.len() { i } else { ns.len() as int })),
    decreases ns.len() - i,
{
    if 0 <= i < ns.len() {
        crate::notation::lemma_sizes_cons(ns.skip(i));
        assert(ns.skip(i)[0] == ns[i]);
        assert(ns.skip(i).skip(1) =~= ns.skip(i + 1));
        lemma_growth_top_level(st, stack, ns[i]);
        let r1 = s_expand_top_level(st, stack, ns[i]);
        match r1.1 {
            Err(e) => {},
            Ok(u) => {
                lemma_growth_top_levels(r1.0, stack, ns, i + 1);
            },
        }
    } else if i >= ns.len() {
        assert(ns.skip(ns.len() as int) =~= Seq::<SpecNotation>::empty());
    }
}

} // verus!

verus! {

impl Expander {
    /// Expands a claim form `(: name : type...)` and records it.
    pub fn expand_claim(&mut self, notation: &Notation) -> (r: Result<(), CompileError>)
        ensures
            final(self)@ == s_expand_claim(old(self)@, notation@).0,
            match (r, s_expand_claim(old(self)@, notation@).1) {
                (Ok(u), Ok(su)) => true,
                (Err(c), Err(sc)) => c@ == sc,
                _ => false,
            },
    {
        let ghost n = notation@;
        let ghost st0 = self@;
        let mut matcher = Matcher::default();
        if matcher.ematch(notation, crate::matcher::pat_claim(":", "name", ":", "typ")) {
            proof {
                crate::matcher::lemma_match_claim(n, ":"@, "name"@, ":"@, "typ"@);
            }
            let ghost elems = n.body->List_0;
            let ghost caps = seq![
                ("name"@, SpecMatched::One(elems[1])),
                ("typ"@, SpecMatched::Many(elems.skip(3))),
            ];
            proof {
                assert(matcher@ =~= caps);
                assert(caps.drop_last() =~= seq![("name"@, SpecMatched::One(elems[1]))]);
                reveal_strlit("name");
                reveal_strlit("typ");
                assert("name"@ != "typ"@) by {
                    assert("name"@.len() == 4);
                    assert("typ"@.len() == 3);
                }
                assert(crate::matcher::spec_find(
                    seq![("name"@, SpecMatched::One(elems[1]))],
                    "name"@,
                ) == Some(SpecMatched::One(elems[1])));
                assert(crate::matcher::spec_find(caps, "name"@) == Some(
                    SpecMatched::One(elems[1]),
                ));
                assert(crate::matcher::spec_find(caps, "typ"@) == Some(
                    SpecMatched::Many(elems.skip(3)),
                ));
            }
            let name_node = match matcher.get_one("name") {
                Some(v) => v,
                None => {
                    proof {
                        assert(false);
                    }
                    return Err(CompileError::BadClaim { span: notation.span.duplicate() });
                },
            };
            let typ_vec = match matcher.get_many("typ") {
                Some(v) => v,
                None => {
                    proof {
                        assert(false);
                    }
                    return Err(CompileError::BadClaim { span: notation.span.duplicate() });
                },
            };
            match &name_node.body {
                NotationBody::Identifier(name) => {
                    match expand_type(&notation.span, typ_vec) {
                        Err(e) => Err(e),
                        Ok(t) => {
                            let id = Identifier::simple(name.clone());
                            let ghost claim_v = crate::ast::SpecClaim {
                                id: SpecIdent::Simple(name@),
                                typ: t@,
                            };
                            self.module.claim_forms.push(crate::ast::ClaimForm { id, typ: t });
                            proof {
                                assert(self@.module.claim_forms =~= st0.module.claim_forms.push(
                                    claim_v,
                                ));
                                assert(self@ =~= s_expand_claim(st0, n).0);
                            }
                            Ok(())
                        },
                    }
                },
                _ => Err(CompileError::BadClaim { span: notation.span.duplicate() }),
            }
        } else {
            proof {
                crate::matcher::lemma_match_claim(n, ":"@, "name"@, ":"@, "typ"@);
            }
            Err(CompileError::BadClaim { span: notation.span.duplicate() })
        }
    }

    /// Expands a define form, either the function shorthand
    /// `(define (f p...) body...)` or the constant form
    /// `(define name expr)`, and records the resulting definition.
    #[verifier::rlimit(100)]
    #[verifier::spinoff_prover]
    pub fn expand_define(&mut self, stack: &ScopeStack, notation: &Notation) -> (r: Result<
        (),
        CompileError,
    >)
        requires
            counters_ok(old(self)@, spec_size(notation@)),
        ensures
            final(self)@ == s_expand_define(old(self)@, stack@, notation@).0,
            match (r, s_expand_define(old(self)@, stack@, notation@).1) {
                (Ok(u), Ok(su)) => true,
                (Err(c), Err(sc)) => c@ == sc,
                _ => false,
            },
    {
        let ghost n = notation@;
        let ghost st0 = self@;
        proof {
            crate::notation::lemma_size_pos(n);
            if n.body is List {
                let elems = n.body->List_0;
                if elems.len() >= 1 {
                    crate::notation::lemma_sizes_cons(elems);
                    crate::notation::lemma_size_pos(elems[0]);
                }
                if elems.len() >= 2 {
                    crate::notation::lemma_sizes_cons(elems.skip(1));
                    assert(elems.skip(1)[0] == elems[1]);
                    assert(elems.skip(1).skip(1) =~= elems.skip(2));
                    crate::notation::lemma_size_pos(elems[1]);
                }
            }
        }
        let mut matcher = Matcher::default();
        if matcher.ematch(notation, crate::matcher::pat_kw_fnform("define", "name", "params", "body")) {
            proof {
                crate::matcher::lemma_match_kw_fnform(n, "define"@, "name"@, "params"@, "body"@);
            }
            let ghost elems = n.body->List_0;
            let ghost inner = elems[1].body->List_0;
            let ghost caps = seq![
                ("name"@, SpecMatched::One(inner[0])),
                ("params"@, SpecMatched::Many(inner.skip(1))),
                ("body"@, SpecMatched::Many(elems.skip(2))),
            ];
            proof {
                assert(matcher@ =~= caps);
                let ghost caps2 = seq![
                    ("name"@, SpecMatched::One(inner[0])),
                    ("params"@, SpecMatched::Many(inner.skip(1))),
                ];
                let ghost caps1 = seq![("name"@, SpecMatched::One(inner[0]))];
                assert(caps.drop_last() =~= caps2);
                assert(caps2.drop_last() =~= caps1);
                reveal_strlit("name");
                reveal_strlit("params");
                reveal_strlit("body");
                assert("name"@ != "params"@ && "params"@ != "body"@ && "name"@ != "body"@) by {
                    assert("name"@.len() == 4);
                    assert("params"@.len() == 6);
                    assert("body"@.len() == 4);
                    assert("name"@[0] == 'n');
                    assert("body"@[0] == 'b');
                }
                assert(crate::matcher::spec_find(caps1, "name"@) == Some(
                    SpecMatched::One(inner[0]),
                ));
                assert(crate::matcher::spec_find(caps2, "name"@) == Some(
                    SpecMatched::One(inner[0]),
                ));
                assert(crate::matcher::spec_find(caps2, "params"@) == Some(
                    SpecMatched::Many(inner.skip(1)),
                ));
                assert(crate::matcher::spec_find(caps, "name"@) == Some(
                    SpecMatched::One(inner[0]),
                ));
                assert(crate::matcher::spec_find(caps, "params"@) == Some(
                    SpecMatched::Many(inner.skip(1)),
                ));
                assert(crate::matcher::spec_find(caps, "body"@) == Some(
                    SpecMatched::Many(elems.skip(2)),
                ));
            }
            let name_node = match matcher.get_one("name") {
                Some(v) => v,
                None => {
                    proof {
                        assert(false);
                    }
                    return Err(CompileError::BadDefine { span: notation.span.duplicate() });
                },
            };
            let params_vec = match matcher.get_many("params") {
                Some(v) => v,
                None => {
                    proof {
                        assert(false);
                    }
                    return Err(CompileError::BadDefine { span: notation.span.duplicate() });
                },
            };
            let body_vec = match matcher.get_many("body") {
                Some(v) => v,
                None => {
                    proof {
                        assert(false);
                    }
                    return Err(CompileError::BadDefine { span: notation.span.duplicate() });
                },
            };
            match &name_node.body {
                NotationBody::Identifier(fname) => {
                    proof {
                        assert(st0.lambda_count < u64::MAX);
                    }
                    let scope = self.lambda_scope();
                    let ext = stack.extend(scope);
                    let ext_set = ext.as_set();
                    let ghost st1 = self@;
                    match self.bind_params(&ext_set, params_vec, 0) {
                        Err(e) => Err(e),
                        Ok(params) => {
                            proof {
                                lemma_bind_params_state(st1, ext_set@, inner.skip(1), 0);
                                assert(elems.skip(2).skip(0) =~= elems.skip(2));
                                assert(counters_ok(self@, spec_sizes(elems.skip(2))));
                            }
                            match self.expand_many_expr(&ext, body_vec, 0) {
                                Err(e) => Err(e),
                                Ok(exprs) => {
                                    if exprs.len() == 0 {
                                        Err(
                                            CompileError::BadDefine {
                                                span: notation.span.duplicate(),
                                            },
                                        )
                                    } else {
                                        let ghost se = crate::ast::expr::exprs_view(exprs@);
                                        let ghost st2 = self@;
                                        let mut exprs = exprs;
                                        let last = match exprs.pop() {
                                            Some(e) => e,
                                            None => {
                                                proof {
                                                    assert(false);
                                                }
                                                return Err(
                                                    CompileError::BadDefine {
                                                        span: notation.span.duplicate(),
                                                    },
                                                );
                                            },
                                        };
                                        proof {
                                            assert(crate::ast::expr::exprs_view(exprs@)
                                                =~= se.drop_last()) by {
                                                crate::ast::expr::lemma_exprs_view_index(exprs@);
                                            }
                                            assert(last@ == se.last());
                                        }
                                        let body = ExprBody::Begin(exprs, Box::new(last)).with_span(
                                            notation.span.duplicate(),
                                        );
                                        let id = Identifier::simple(fname.clone());
                                        let ghost def_v = crate::ast::SpecDefine::Function {
                                            span: n.span,
                                            id: SpecIdent::Simple(fname@),
                                            params: crate::ast::expr::idents_view(params@),
                                            body: body@,
                                        };
                                        self.module.define_forms.push(
                                            crate::ast::DefineForm::DefineFunction {
                                                span: notation.span.duplicate(),
                                                id,
                                                params,
                                                body,
                                            },
                                        );
                                        proof {
                                            assert(self@.module.define_forms
                                                =~= st2.module.define_forms.push(def_v));
                                            assert(self@ =~= s_expand_define(st0, stack@, n).0);
                                        }
                                        Ok(())
                                    }
                                },
                            }
                        },
                    }
                },
                _ => Err(CompileError::BadDefine { span: notation.span.duplicate() }),
            }
        } else if matcher.ematch(notation, crate::matcher::pat_kw_two("define", "name", "expr")) {
            proof {
                crate::matcher::lemma_match_kw_fnform(n, "define"@, "name"@, "params"@, "body"@);
                crate::matcher::lemma_match_kw_two(n, "define"@, "name"@, "expr"@);
            }
            let ghost elems = n.body->List_0;
            let ghost caps = seq![
                ("name"@, SpecMatched::One(elems[1])),
                ("expr"@, SpecMatched::One(elems[2])),
            ];
            proof {
                assert(matcher@ =~= caps);
                assert(caps.drop_last() =~= seq![("name"@, SpecMatched::One(elems[1]))]);
                reveal_strlit("name");
                reveal_strlit("expr");
                assert("name"@ != "expr"@) by {
                    assert("name"@[0] == 'n');
                    assert("expr"@[0] == 'e');
                }
                assert(crate::matcher::spec_find(
                    seq![("name"@, SpecMatched::One(elems[1]))],
                    "name"@,
                ) == Some(SpecMatched::One(elems[1])));
                assert(crate::matcher::spec_find(caps, "name"@) == Some(
                    SpecMatched::One(elems[1]),
                ));
                assert(crate::matcher::spec_find(caps, "expr"@) == Some(
                    SpecMatched::One(elems[2]),
                ));
            }
            let name_node = match matcher.get_one("name") {
                Some(v) => v,
                None => {
                    proof {
                        assert(false);
                    }
                    return Err(CompileError::BadDefine { span: notation.span.duplicate() });
                },
            };
            let expr_node = match matcher.get_one("expr") {
                Some(v) => v,
                None => {
                    proof {
                        assert(false);
                    }
                    return Err(CompileError::BadDefine { span: notation.span.duplicate() });
                },
            };
            match &name_node.body {
                NotationBody::Identifier(name) => {
                    proof {
                        crate::notation::lemma_sizes_bound(n.body->List_0, 2);
                    }
                    match self.expand_expr(stack, expr_node) {
                        Err(e) => Err(e),
                        Ok(e) => {
                            let ghost st1 = self@;
                            let ghost se = e@;
                            let id = Identifier::simple(name.clone());
                            let def = match e.body {
                                ExprBody::Lambda(params, body) => {
                                    proof {
                                        assert(se.body is Lambda);
                                    }
                                    crate::ast::DefineForm::DefineFunction {
                                        span: notation.span.duplicate(),
                                        id,
                                        params,
                                        body: *body,
                                    }
                                },
                                other => {
                                    let e2 = Expr { span: e.span, body: other };
                                    proof {
                                        assert(!(se.body is Lambda));
                                    }
                                    crate::ast::DefineForm::DefineConstant {
                                        span: notation.span.duplicate(),
                                        id,
                                        expr: e2,
                                    }
                                },
                            };
                            let ghost def_v = def@;
                            self.module.define_forms.push(def);
                            proof {
                                assert(self@.module.define_forms =~= st1.module.define_forms.push(
                                    def_v,
                                ));
                                assert(self@ =~= s_expand_define(st0, stack@, n).0);
                            }
                            Ok(())
                        },
                    }
                },
                _ => Err(CompileError::BadDefine { span: notation.span.duplicate() }),
            }
        } else {
            proof {
                crate::matcher::lemma_match_kw_fnform(n, "define"@, "name"@, "params"@, "body"@);
                crate::matcher::lemma_match_kw_two(n, "define"@, "name"@, "expr"@);
            }
            Err(CompileError::BadDefine { span: notation.span.duplicate() })
        }
    }

    /// Records `require` operands left to right; each must be a plain
    /// identifier.
    pub fn add_requires(&mut self, ns: &Vec<Notation>, i: usize) -> (r: Result<(), CompileError>)
        requires
            i <= ns@.len(),
        ensures
            final(self)@ == s_add_requires(old(self)@, notations_view(ns@), i as int).0,
            match (r, s_add_requires(old(self)@, notations_view(ns@), i as int).1) {
                (Ok(u), Ok(su)) => true,
                (Err(c), Err(sc)) => c@ == sc,
                _ => false,
            },
        decreases ns@.len() - i,
    {
        proof {
            crate::notation::lemma_notations_view_index(ns@);
        }
        let ghost nv = notations_view(ns@);
        let ghost st0 = self@;
        if i == ns.len() {
            Ok(())
        } else {
            match &ns[i].body {
                NotationBody::Identifier(name) => {
                    self.module.requires.push(crate::ast::Require { module: name.clone() });
                    proof {
                        assert(self@.module.requires =~= st0.module.requires.push(
                            crate::ast::SpecRequire { module: name@ },
                        ));
                        assert(self@ =~= (SpecExpander {
                            module: crate::ast::SpecModule {
                                requires: st0.module.requires.push(
                                    crate::ast::SpecRequire { module: name@ },
                                ),
                                ..st0.module
                            },
                            ..st0
                        }));
                    }
                    self.add_requires(ns, i + 1)
                },
                _ => Err(CompileError::BadRequire { span: ns[i].span.duplicate() }),
            }
        }
    }

    /// Dispatches one top-level form: `define`, then `:` claims, then
    /// `require`; anything else is kept verbatim in `other_forms`.
    pub fn expand_top_level(&mut self, stack: &ScopeStack, notation: &Notation) -> (r: Result<
        (),
        CompileError,
    >)
        requires
            counters_ok(old(self)@, spec_size(notation@)),
        ensures
            final(self)@ == s_expand_top_level(old(self)@, stack@, notation@).0,
            match (r, s_expand_top_level(old(self)@, stack@, notation@).1) {
                (Ok(u), Ok(su)) => true,
                (Err(c), Err(sc)) => c@ == sc,
                _ => false,
            },
    {
        let ghost n = notation@;
        let ghost st0 = self@;
        let mut matcher = Matcher::default();
        if matcher.ematch(notation, crate::matcher::pat_kw_rest("define", "rest")) {
            proof {
                crate::matcher::lemma_match_kw_rest(n, "define"@, "rest"@);
            }
            self.expand_define(stack, notation)
        } else if matcher.ematch(notation, crate::matcher::pat_kw_rest(":", "rest")) {
            proof {
                crate::matcher::lemma_match_kw_rest(n, "define"@, "rest"@);
                crate::matcher::lemma_match_kw_rest(n, ":"@, "rest"@);
            }
            self.expand_claim(notation)
        } else if matcher.ematch(notation, crate::matcher::pat_kw_rest("require", "module")) {
            proof {
                crate::matcher::lemma_match_kw_rest(n, "define"@, "rest"@);
                crate::matcher::lemma_match_kw_rest(n, ":"@, "rest"@);
                crate::matcher::lemma_match_kw_rest(n, "require"@, "module"@);
            }
            let ghost elems = n.body->List_0;
            let ghost caps = seq![("module"@, SpecMatched::Many(elems.skip(1)))];
            proof {
                assert(matcher@ =~= caps);
                assert(crate::matcher::spec_find(caps, "module"@) == Some(
                    SpecMatched::Many(elems.skip(1)),
                ));
            }
            let ops_vec = match matcher.get_many("module") {
                Some(v) => v,
                None => {
                    proof {
                        assert(false);
                    }
                    return Err(CompileError::BadRequire { span: notation.span.duplicate() });
                },
            };
            let r = self.add_requires(ops_vec, 0);
            proof {
                assert(notations_view(ops_vec@).skip(0) =~= notations_view(ops_vec@));
            }
            r
        } else {
            proof {
                crate::matcher::lemma_match_kw_rest(n, "define"@, "rest"@);
                crate::matcher::lemma_match_kw_rest(n, ":"@, "rest"@);
                crate::matcher::lemma_match_kw_rest(n, "require"@, "module"@);
            }
            let d = notation.duplicate();
            self.module.other_forms.push(d);
            proof {
                assert(self@.module.other_forms =~= st0.module.other_forms.push(n));
                assert(self@ =~= s_expand_top_level(st0, stack@, n).0);
            }
            Ok(())
        }
    }

    /// Expands every top-level form in order, stopping at the first
    /// error.
    pub fn expand_top_levels(&mut self, stack: &ScopeStack, ns: &Vec<Notation>, i: usize) -> (r:
        Result<(), CompileError>)
        requires
            i <= ns@.len(),
            counters_ok(old(self)@, spec_sizes(notations_view(ns@).skip(i as int))),
        ensures
            final(self)@ == s_expand_top_levels(old(self)@, stack@, notations_view(ns@), i as int).0,
            match (r, s_expand_top_levels(old(self)@, stack@, notations_view(ns@), i as int).1) {
                (Ok(u), Ok(su)) => true,
                (Err(c), Err(sc)) => c@ == sc,
                _ => false,
            },
        decreases ns@.len() - i,
    {
        proof {
            crate::notation::lemma_notations_view_index(ns@);
        }
        let ghost nv = notations_view(ns@);
        if i == ns.len() {
            Ok(())
        } else {
            proof {
                crate::notation::lemma_sizes_cons(nv.skip(i as int));
                assert(nv.skip(i as int)[0] == nv[i as int]);
                assert(nv.skip(i as int).skip(1) =~= nv.skip(i as int + 1));
            }
            match self.expand_top_level(stack, &ns[i]) {
                Err(e) => Err(e),
                Ok(u) => {
                    proof {
                        lemma_growth_top_level(old(self)@, stack@, nv[i as int]);
                    }
                    self.expand_top_levels(stack, ns, i + 1)
                },
            }
        }
    }
}

/// The state a fresh expansion run starts from: an empty module over
/// the given source, an empty rename table, and both counters at zero.
pub open spec fn s_initial_expander(source: (Seq<char>, Seq<char>)) -> SpecExpander {
    SpecExpander {
        module: crate::ast::SpecModule {
            source: source,
            requires: Seq::empty(),
            claim_forms: Seq::empty(),
            define_forms: Seq::empty(),
            other_forms: Seq::empty(),
        },
        rename: Seq::empty(),
        let_count: 0,
        lambda_count: 0,
    }
}

/// Expands a whole module: every top-level notation in order, under a
/// fresh module scope named after the module, with fresh counters, so
/// re-expanding a module from scratch always numbers its scopes from
/// zero.
pub fn expand_module(module_name: String, source: (String, String), notations: &Vec<Notation>) -> (r:
    Result<Module, CompileError>)
    requires
        spec_sizes(notations_view(notations@)) <= u64::MAX,
    ensures
        ({
            let run = s_expand_top_levels(
                s_initial_expander((source.0@, source.1@)),
                seq![SpecScope::Module(module_name@)],
                notations_view(notations@),
                0,
            );
            match (r, run.1) {
                (Ok(m), Ok(u)) => m@ == run.0.module,
                (Err(c), Err(sc)) => c@ == sc,
                _ => false,
            }
        }),
{
    let ghost source_v = (source.0@, source.1@);
    let module = Module::new(source);
    let mut expander = Expander::new(module);
    proof {
        assert(expander@ =~= s_initial_expander(source_v));
        assert(notations_view(notations@).skip(0) =~= notations_view(notations@));
    }
    let stack = ScopeStack::module(module_name);
    match expander.expand_top_levels(&stack, notations, 0) {
        Err(e) => Err(e),
        Ok(u) => Ok(expander.module),
    }
}

} // verus!
