//! The scope model: uniquely-counted scope tokens and the unordered
//! collections of them that binding and reference occurrences carry.

use vstd::prelude::*;
use vstd::string::StringExecFns;
use crate::render::spec_decimal;
use crate::render::u64_to_string;

verus! {

/// Mathematical model of a scope token.
pub ghost enum SpecScope {
    Module(Seq<char>),
    Let(nat),
    Lambda(nat),
    Intro(Seq<char>),
}

/// One lexical-context token.  A fresh token is allocated exactly once
/// per syntactic construct instance and never mutated afterwards.
#[derive(Debug, Clone)]
pub enum Scope {
    /// The scope of a whole module, carrying the module's name.
    Module(String),
    /// The scope of one `let` group, numbered per expansion run.
    Let(u64),
    /// The scope of one `lambda` (or function shorthand), numbered per run.
    Lambda(u64),
    /// Reserved for macro-introduced fragments.
    Intro(String),
}

impl View for Scope {
    type V = SpecScope;

    open spec fn view(&self) -> SpecScope {
        match self {
            Scope::Module(m) => SpecScope::Module(m@),
            Scope::Let(c) => SpecScope::Let(*c as nat),
            Scope::Lambda(c) => SpecScope::Lambda(*c as nat),
            Scope::Intro(t) => SpecScope::Intro(t@),
        }
    }
}

impl PartialEq for Scope {
    fn eq(&self, other: &Scope) -> (r: bool) {
        match (self, other) {
            (Scope::Module(a), Scope::Module(b)) => *a == *b,
            (Scope::Let(a), Scope::Let(b)) => *a == *b,
            (Scope::Lambda(a), Scope::Lambda(b)) => *a == *b,
            (Scope::Intro(a), Scope::Intro(b)) => *a == *b,
            _ => false,
        }
    }
}

impl vstd::std_specs::cmp::PartialEqSpecImpl for Scope {
    open spec fn obeys_eq_spec() -> bool {
        true
    }

    open spec fn eq_spec(&self, other: &Scope) -> bool {
        self@ == other@
    }
}

impl Eq for Scope {

}

/// The plain-text rendering of one scope token.
pub open spec fn spec_scope_text(s: SpecScope) -> Seq<char> {
    match s {
        SpecScope::Module(m) => "mod_"@ + m,
        SpecScope::Let(c) => "let_"@ + spec_decimal(c),
        SpecScope::Lambda(c) => "lam_"@ + spec_decimal(c),
        SpecScope::Intro(t) => "intro_"@ + t,
    }
}

impl Scope {
    /// A deep copy whose model is the same token.
    pub fn duplicate(&self) -> (r: Scope)
        ensures
            r@ == self@,
    {
        match self {
            Scope::Module(m) => Scope::Module(m.clone()),
            Scope::Let(c) => Scope::Let(*c),
            Scope::Lambda(c) => Scope::Lambda(*c),
            Scope::Intro(t) => Scope::Intro(t.clone()),
        }
    }

    /// Renders the token, e.g. `mod_main`, `let_0`, `lam_2`.
    pub fn to_text(&self) -> (r: String)
        ensures
            r@ == spec_scope_text(self@),
    {
        match self {
            Scope::Module(m) => {
                let mut r = "mod_".to_owned();
                r.append(m.as_str());
                r
            },
            Scope::Let(c) => {
                let mut r = "let_".to_owned();
                let d = u64_to_string(*c);
                r.append(d.as_str());
                r
            },
            Scope::Lambda(c) => {
                let mut r = "lam_".to_owned();
                let d = u64_to_string(*c);
                r.append(d.as_str());
                r
            },
            Scope::Intro(t) => {
                let mut r = "intro_".to_owned();
                r.append(t.as_str());
                r
            },
        }
    }
}

/// An unordered collection of scope tokens with no duplicates; the model
/// keeps the order in which tokens were first inserted (outermost first,
/// for sets built by walking a scope stack).
#[derive(Debug, Clone, PartialEq)]
pub struct ScopeSet {
    elems: Vec<Scope>,
}

impl View for ScopeSet {
    type V = Seq<SpecScope>;

    closed spec fn view(&self) -> Seq<SpecScope> {
        self.elems@.map_values(|s: Scope| s@)
    }
}

impl ScopeSet {
    /// No token occurs twice.
    pub open spec fn wf(&self) -> bool {
        forall|i: int, j: int| 0 <= i < j < self@.len() ==> self@[i] != self@[j]
    }

    /// The empty scope set.
    pub fn new() -> (r: ScopeSet)
        ensures
            r@ == Seq::<SpecScope>::empty(),
            r.wf(),
    {
        let r = ScopeSet { elems: Vec::new() };
        proof {
            assert(r@ =~= Seq::<SpecScope>::empty());
        }
        r
    }

    /// How many distinct tokens the set holds.
    pub fn len(&self) -> (r: usize)
        ensures
            r == self@.len(),
    {
        self.elems.len()
    }

    /// Whether the set is empty.
    pub fn is_empty(&self) -> (r: bool)
        ensures
            r == (self@.len() == 0),
    {
        self.elems.len() == 0
    }

    /// The token at position `i` of the insertion order.
    pub fn get(&self, i: usize) -> (r: &Scope)
        requires
            i < self@.len(),
        ensures
            r@ == self@[i as int],
    {
        &self.elems[i]
    }

    /// Whether `s` is in the set.
    pub fn contains(&self, s: &Scope) -> (r: bool)
        ensures
            r == self@.contains(s@),
    {
        let n = self.elems.len();
        let mut i: usize = 0;
        while i < n
            invariant
                n == self@.len(),
                0 <= i <= n,
                forall|k: int| 0 <= k < i ==> self@[k] != s@,
            decreases n - i,
        {
            proof {
                assert(self@[i as int] == self.elems@[i as int]@);
            }
            if &self.elems[i] == s {
                return true;
            }
            i += 1;
        }
        false
    }

    /// Inserts `s` unless it is already present.
    pub fn insert(&mut self, s: Scope)
        ensures
            final(self)@ == if old(self)@.contains(s@) {
                old(self)@
            } else {
                old(self)@.push(s@)
            },
            old(self).wf() ==> final(self).wf(),
    {
        if !self.contains(&s) {
            self.elems.push(s);
            proof {
                assert(self@ =~= old(self)@.push(s@));
            }
        }
    }

    /// Whether every token of this set also occurs in `other`.
    pub fn is_subset_of(&self, other: &ScopeSet) -> (r: bool)
        ensures
            r == forall|k: int| 0 <= k < self@.len() ==> other@.contains(self@[k]),
    {
        let n = self.elems.len();
        let mut i: usize = 0;
        while i < n
            invariant
                n == self@.len(),
                0 <= i <= n,
                forall|k: int| 0 <= k < i ==> other@.contains(self@[k]),
            decreases n - i,
        {
            proof {
                assert(self@[i as int] == self.elems@[i as int]@);
            }
            if !other.contains(&self.elems[i]) {
                proof {
                    assert(!other@.contains(self@[i as int]));
                }
                return false;
            }
            i += 1;
        }
        true
    }

    /// A deep copy whose model is the same set.
    pub fn duplicate(&self) -> (r: ScopeSet)
        ensures
            r@ == self@,
    {
        let n = self.elems.len();
        let mut elems: Vec<Scope> = Vec::new();
        let mut i: usize = 0;
        while i < n
            invariant
                n == self.elems@.len(),
                0 <= i <= n,
                elems@.len() == i,
                forall|k: int| 0 <= k < i ==> elems@[k]@ == self.elems@[k]@,
            decreases n - i,
        {
            elems.push(self.elems[i].duplicate());
            i += 1;
        }
        let r = ScopeSet { elems };
        proof {
            assert forall|k: int| 0 <= k < r@.len() implies r@[k] == self@[k] by {
                assert(r@[k] == r.elems@[k]@);
                assert(self@[k] == self.elems@[k]@);
            }
            assert(r@ =~= self@);
        }
        r
    }
}

} // verus!
