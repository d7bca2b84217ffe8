//! Variable environments: a chain of scopes, innermost first.
use vstd::prelude::*;
use crate::text::{str_eq, string_of};

verus! {

/// The bindings of one scope, as a map from names to values.
pub open spec fn vars_map<V>(vars: Seq<(String, V)>) -> Map<Seq<char>, V>
    decreases vars.len(),
{
    if vars.len() == 0 {
        Map::empty()
    } else {
        vars_map(vars.drop_last()).insert(vars.last().0@, vars.last().1)
    }
}

/// No name is bound twice in one scope.
pub open spec fn distinct_names<V>(vars: Seq<(String, V)>) -> bool {
    forall|i: int, j: int| 0 <= i < j < vars.len() ==> vars[i].0@ != vars[j].0@
}

/// The value of `name` in the innermost scope that binds it.
pub open spec fn lookup<V>(scopes: Seq<Map<Seq<char>, V>>, name: Seq<char>) -> Option<V>
    decreases scopes.len(),
{
    if scopes.len() == 0 {
        None
    } else if scopes[0].contains_key(name) {
        Some(scopes[0][name])
    } else {
        lookup(scopes.drop_first(), name)
    }
}

/// Assignment: the innermost scope that binds `name` gets the new value; if
/// none does, the innermost scope binds it.
pub open spec fn assign<V>(scopes: Seq<Map<Seq<char>, V>>, name: Seq<char>, v: V) -> Seq<Map<Seq<char>, V>>
    decreases scopes.len(),
{
    if scopes.len() == 0 {
        scopes
    } else if scopes[0].contains_key(name) || lookup(scopes.drop_first(), name) is None {
        scopes.update(0, scopes[0].insert(name, v))
    } else {
        seq![scopes[0]] + assign(scopes.drop_first(), name, v)
    }
}

/// A scope of variables with an optional enclosing scope.
#[verifier::reject_recursive_types(V)]
#[derive(Debug)]
pub struct Env<V> {
    vars: Vec<(String, V)>,
    parent: Option<Box<Env<V>>>,
}

impl<V> Env<V> {
    /// The scopes, innermost first.
    pub closed spec fn scopes(&self) -> Seq<Map<Seq<char>, V>>
        decreases self,
    {
        match self.parent {
            None => seq![vars_map(self.vars@)],
            Some(p) => seq![vars_map(self.vars@)] + p.scopes(),
        }
    }

    /// No scope binds a name twice.
    pub closed spec fn wf(&self) -> bool
        decreases self,
    {
        &&& distinct_names(self.vars@)
        &&& match self.parent {
            None => true,
            Some(p) => p.wf(),
        }
    }

    /// Every environment has at least one scope, the innermost.
    pub proof fn law_scopes_nonempty(&self)
        ensures
            self.scopes().len() >= 1,
    {
    }

    /// An environment with one empty scope.
    pub fn new() -> (r: Self)
        ensures
            r.wf(),
            r.scopes() == seq![Map::<Seq<char>, V>::empty()],
    {
        Env { vars: Vec::new(), parent: None }
    }

    /// A new empty scope inside `parent`.
    pub fn child(parent: Env<V>) -> (r: Self)
        requires
            parent.wf(),
        ensures
            r.wf(),
            r.scopes() == seq![Map::<Seq<char>, V>::empty()] + parent.scopes(),
    {
        Env { vars: Vec::new(), parent: Some(Box::new(parent)) }
    }

    /// Where `name` is bound in the innermost scope, if it is.
    fn find(&self, name: &str) -> (r: Option<usize>)
        requires
            self.wf(),
        ensures
            match r {
                Some(i) => i < self.vars@.len() && self.vars@[i as int].0@ == name@,
                None => forall|i: int| 0 <= i < self.vars@.len() ==> self.vars@[i].0@ != name@,
            },
    {
        let mut i: usize = 0;
        while i < self.vars.len()
            invariant
                i <= self.vars@.len(),
                forall|j: int| 0 <= j < i ==> self.vars@[j].0@ != name@,
            decreases self.vars.len() - i,
        {
            if str_eq(self.vars[i].0.as_str(), name) {
                return Some(i);
            }
            i = i + 1;
        }
        None
    }

    /// Whether some scope binds `name`.
    pub fn has(&self, name: &str) -> (r: bool)
        requires
            self.wf(),
        ensures
            r == lookup(self.scopes(), name@) is Some,
        decreases self,
    {
        proof {
            lemma_vars_map_keys(self.vars@, name@);
        }
        if self.find(name).is_some() {
            return true;
        }
        proof {
            let s = self.scopes();
            assert(s[0] == vars_map(self.vars@));
            assert(!s[0].contains_key(name@));
            assert(lookup(s, name@) == lookup(s.drop_first(), name@));
        }
        match &self.parent {
            Some(p) => {
                let r = p.has(name);
                proof {
                    assert(self.scopes().drop_first() =~= p.scopes());
                }
                r
            },
            None => {
                proof {
                    assert(self.scopes().drop_first() =~= Seq::<Map<Seq<char>, V>>::empty());
                }
                false
            },
        }
    }

    /// Binds `name` to `val` in the innermost scope.
    pub fn define(&mut self, name: &str, val: V)
        requires
            old(self).wf(),
        ensures
            final(self).wf(),
            final(self).scopes() == old(self).scopes().update(0, old(self).scopes()[0].insert(name@, val)),
    {
        proof {
            lemma_vars_map_keys(self.vars@, name@);
        }
        let ghost old_vars = self.vars@;
        match self.find(name) {
            Some(i) => {
                let key = string_of(name);
                self.vars.set(i, (key, val));
                proof {
                    lemma_vars_map_update(old_vars, i as int, key, val);
                }
            },
            None => {
                let key = string_of(name);
                self.vars.push((key, val));
                proof {
                    assert(self.vars@.drop_last() =~= old_vars);
                    assert(distinct_names(self.vars@));
                }
            },
        }
        proof {
            let old_scopes = old(self).scopes();
            assert(self.scopes() =~= old_scopes.update(0, old_scopes[0].insert(name@, val)));
        }
    }
}

/// `b` is a copy of the scopes `a`: the same names in each scope, each value
/// a clone of the one it copies.
pub open spec fn scopes_cloned<V: Clone>(a: Seq<Map<Seq<char>, V>>, b: Seq<Map<Seq<char>, V>>) -> bool {
    &&& a.len() == b.len()
    &&& forall|i: int| 0 <= i < a.len() ==> #[trigger] b[i].dom() == a[i].dom()
    &&& forall|i: int, k: Seq<char>|
        0 <= i < a.len() && #[trigger] b[i].contains_key(k) ==> cloned::<V>(a[i][k], b[i][k])
}

proof fn lemma_vars_cloned<V: Clone>(a: Seq<(String, V)>, b: Seq<(String, V)>)
    requires
        a.len() == b.len(),
        forall|j: int| 0 <= j < a.len() ==> #[trigger] b[j].0@ == a[j].0@ && cloned::<V>(a[j].1, b[j].1),
    ensures
        vars_map(b).dom() == vars_map(a).dom(),
        forall|k: Seq<char>| #[trigger] vars_map(b).contains_key(k) ==> cloned::<V>(vars_map(a)[k], vars_map(b)[k]),
        distinct_names(a) ==> distinct_names(b),
    decreases a.len(),
{
    if a.len() > 0 {
        let n = a.len() - 1;
        assert(b[n as int].0@ == a[n as int].0@);
        lemma_vars_cloned(a.drop_last(), b.drop_last());
        assert(vars_map(b).dom() =~= vars_map(a).dom());
    }
    if distinct_names(a) {
        assert forall|i: int, j: int| 0 <= i < j < b.len() implies b[i].0@ != b[j].0@ by {
            assert(b[i].0@ == a[i].0@);
            assert(b[j].0@ == a[j].0@);
        }
    }
}

impl<V: Clone> Env<V> {
    /// A copy of the environment: every scope with the same names, each
    /// value cloned.
    pub fn duplicate(&self) -> (r: Self)
        ensures
            self.wf() ==> r.wf(),
            scopes_cloned(self.scopes(), r.scopes()),
        decreases self,
    {
        let mut vars: Vec<(String, V)> = Vec::new();
        let mut i: usize = 0;
        while i < self.vars.len()
            invariant
                i <= self.vars@.len(),
                vars@.len() == i,
                forall|j: int| 0 <= j < i ==> #[trigger] vars@[j].0@ == self.vars@[j].0@
                    && cloned::<V>(self.vars@[j].1, vars@[j].1),
            decreases self.vars.len() - i,
        {
            let name = self.vars[i].0.clone();
            let val = self.vars[i].1.clone();
            vars.push((name, val));
            i = i + 1;
        }
        proof {
            lemma_vars_cloned(self.vars@, vars@);
        }
        let parent = match &self.parent {
            Some(p) => Some(Box::new(p.duplicate())),
            None => None,
        };
        let r = Env { vars, parent };
        proof {
            let a = self.scopes();
            let b = r.scopes();
            assert(b[0].dom() == a[0].dom());
            if self.parent is Some {
                {
                    let p = self.parent.unwrap();
                    assert(a.drop_first() =~= p.scopes());
                    assert(b.drop_first() =~= r.parent.unwrap().scopes());
                    assert forall|i: int| 0 < i < a.len() implies #[trigger] b[i].dom() == a[i].dom() by {
                        assert(a[i] == a.drop_first()[i - 1]);
                        assert(b[i] == b.drop_first()[i - 1]);
                    }
                    assert forall|i: int, k: Seq<char>|
                        0 <= i < a.len() && #[trigger] b[i].contains_key(k) implies cloned::<V>(a[i][k], b[i][k]) by {
                        if i > 0 {
                            assert(a[i] == a.drop_first()[i - 1]);
                            assert(b[i] == b.drop_first()[i - 1]);
                        }
                    }
                }
            }
        }
        r
    }

    /// The value of `name` in the innermost scope that binds it (a clone).
    pub fn get(&self, name: &str) -> (r: Option<V>)
        requires
            self.wf(),
        ensures
            match lookup(self.scopes(), name@) {
                Some(v) => r matches Some(w) && cloned(v, w),
                None => r is None,
            },
        decreases self,
    {
        proof {
            lemma_vars_map_keys(self.vars@, name@);
        }
        if let Some(i) = self.find(name) {
            proof {
                lemma_vars_map_value(self.vars@, i as int);
            }
            return Some(self.vars[i].1.clone());
        }
        proof {
            let s = self.scopes();
            assert(s[0] == vars_map(self.vars@));
            assert(!s[0].contains_key(name@));
            assert(lookup(s, name@) == lookup(s.drop_first(), name@));
        }
        match &self.parent {
            Some(p) => {
                let r = p.get(name);
                proof {
                    assert(self.scopes().drop_first() =~= p.scopes());
                }
                r
            },
            None => {
                proof {
                    assert(self.scopes().drop_first() =~= Seq::<Map<Seq<char>, V>>::empty());
                }
                None
            },
        }
    }
}

impl<V> Env<V> {
    /// Assigns `val` to `name` in the innermost scope that binds it, or binds
    /// it in the innermost scope if none does.
    pub fn set(&mut self, name: &str, val: V)
        requires
            old(self).wf(),
        ensures
            final(self).wf(),
            final(self).scopes() == assign(old(self).scopes(), name@, val),
        decreases old(self).scopes().len(),
    {
        proof {
            lemma_vars_map_keys(self.vars@, name@);
        }
        if self.find(name).is_some() {
            self.define(name, val);
            return;
        }
        let parent_has = match &self.parent {
            Some(p) => p.has(name),
            None => {
                proof {
                    assert(self.scopes().drop_first() =~= Seq::<Map<Seq<char>, V>>::empty());
                }
                false
            },
        };
        if parent_has {
            let ghost old_scopes = self.scopes();
            match &mut self.parent {
                Some(p) => {
                    proof {
                        assert(old_scopes.drop_first() =~= p.scopes());
                    }
                    p.set(name, val);
                },
                None => {},
            }
            proof {
                assert(self.scopes() =~= seq![old_scopes[0]] + assign(old_scopes.drop_first(), name@, val));
            }
        } else {
            proof {
                let s = self.scopes();
                match &self.parent {
                    Some(p) => assert(s.drop_first() =~= p.scopes()),
                    None => assert(s.drop_first() =~= Seq::<Map<Seq<char>, V>>::empty()),
                }
            }
            self.define(name, val);
        }
    }
}

pub proof fn lemma_vars_map_keys<V>(vars: Seq<(String, V)>, name: Seq<char>)
    ensures
        vars_map(vars).contains_key(name) <==> exists|i: int| 0 <= i < vars.len() && vars[i].0@ == name,
    decreases vars.len(),
{
    if vars.len() > 0 {
        lemma_vars_map_keys(vars.drop_last(), name);
        if vars_map(vars).contains_key(name) && vars.last().0@ != name {
            let i = choose|i: int| 0 <= i < vars.drop_last().len() && vars.drop_last()[i].0@ == name;
            assert(vars[i].0@ == name);
        }
        if exists|i: int| 0 <= i < vars.len() && vars[i].0@ == name {
            let i = choose|i: int| 0 <= i < vars.len() && vars[i].0@ == name;
            if i < vars.len() - 1 {
                assert(vars.drop_last()[i].0@ == name);
            }
        }
    }
}

pub proof fn lemma_vars_map_value<V>(vars: Seq<(String, V)>, i: int)
    requires
        distinct_names(vars),
        0 <= i < vars.len(),
    ensures
        vars_map(vars).contains_key(vars[i].0@),
        vars_map(vars)[vars[i].0@] == vars[i].1,
    decreases vars.len(),
{
    if i < vars.len() - 1 {
        lemma_vars_map_value(vars.drop_last(), i);
        assert(vars.drop_last()[i] == vars[i]);
    }
}

pub proof fn lemma_vars_map_update<V>(vars: Seq<(String, V)>, i: int, key: String, v: V)
    requires
        distinct_names(vars),
        0 <= i < vars.len(),
        vars[i].0@ == key@,
    ensures
        distinct_names(vars.update(i, (key, v))),
        vars_map(vars.update(i, (key, v))) == vars_map(vars).insert(key@, v),
    decreases vars.len(),
{
    let u = vars.update(i, (key, v));
    if i == vars.len() - 1 {
        assert(u.drop_last() =~= vars.drop_last());
        lemma_vars_map_keys(vars.drop_last(), key@);
        assert(!vars_map(vars.drop_last()).contains_key(key@)) by {
            if vars_map(vars.drop_last()).contains_key(key@) {
                let j = choose|j: int| 0 <= j < vars.drop_last().len() && vars.drop_last()[j].0@ == key@;
                assert(vars[j].0@ == key@);
            }
        }
        assert(vars_map(u) =~= vars_map(vars).insert(key@, v));
    } else {
        assert(u.drop_last() =~= vars.drop_last().update(i, (key, v)));
        lemma_vars_map_update(vars.drop_last(), i, key, v);
        assert(vars_map(u) =~= vars_map(vars).insert(key@, v));
    }
}


// ── Laws ─────────────────────────────────────────────────────────────────────

/// After `define(name, v)`, `get(name)` finds `v`.
pub proof fn law_get_after_define<V>(scopes: Seq<Map<Seq<char>, V>>, name: Seq<char>, v: V)
    requires
        scopes.len() >= 1,
    ensures
        lookup(scopes.update(0, scopes[0].insert(name, v)), name) == Some(v),
{
}

/// `define(name, v)` changes what no other name finds.
pub proof fn law_define_keeps_others<V>(scopes: Seq<Map<Seq<char>, V>>, name: Seq<char>, v: V, other: Seq<char>)
    requires
        scopes.len() >= 1,
        other != name,
    ensures
        lookup(scopes.update(0, scopes[0].insert(name, v)), other) == lookup(scopes, other),
{
    let s2 = scopes.update(0, scopes[0].insert(name, v));
    assert(s2.drop_first() =~= scopes.drop_first());
}

/// After `set(name, v)`, `get(name)` finds `v`.
pub proof fn law_get_after_set<V>(scopes: Seq<Map<Seq<char>, V>>, name: Seq<char>, v: V)
    requires
        scopes.len() >= 1,
    ensures
        lookup(assign(scopes, name, v), name) == Some(v),
    decreases scopes.len(),
{
    if !(scopes[0].contains_key(name) || lookup(scopes.drop_first(), name) is None) {
        let rest = scopes.drop_first();
        law_get_after_set(rest, name, v);
        let s2 = seq![scopes[0]] + assign(rest, name, v);
        assert(s2.drop_first() =~= assign(rest, name, v));
    }
}

/// `set(name, v)` changes what no other name finds.
pub proof fn law_set_keeps_others<V>(scopes: Seq<Map<Seq<char>, V>>, name: Seq<char>, v: V, other: Seq<char>)
    requires
        other != name,
    ensures
        lookup(assign(scopes, name, v), other) == lookup(scopes, other),
    decreases scopes.len(),
{
    if scopes.len() > 0 {
        let rest = scopes.drop_first();
        if scopes[0].contains_key(name) || lookup(rest, name) is None {
            let s2 = scopes.update(0, scopes[0].insert(name, v));
            assert(s2.drop_first() =~= rest);
        } else {
            law_set_keeps_others(rest, name, v, other);
            let s2 = seq![scopes[0]] + assign(rest, name, v);
            assert(s2.drop_first() =~= assign(rest, name, v));
        }
    }
}

/// `set` neither adds nor removes scopes.
pub proof fn law_set_keeps_depth<V>(scopes: Seq<Map<Seq<char>, V>>, name: Seq<char>, v: V)
    ensures
        assign(scopes, name, v).len() == scopes.len(),
    decreases scopes.len(),
{
    if scopes.len() > 0 && !(scopes[0].contains_key(name) || lookup(scopes.drop_first(), name) is None) {
        law_set_keeps_depth(scopes.drop_first(), name, v);
    }
}

/// A variable of an enclosing scope that an inner scope does not shadow is
/// assigned where it lives: leaving the inner scope, the enclosing scopes
/// hold the new value.
pub proof fn law_set_reaches_enclosing_scope<V>(inner: Map<Seq<char>, V>, outer: Seq<Map<Seq<char>, V>>, name: Seq<char>, v: V)
    requires
        !inner.contains_key(name),
        lookup(outer, name) is Some,
    ensures
        assign(seq![inner] + outer, name, v) == seq![inner] + assign(outer, name, v),
{
    let s = seq![inner] + outer;
    assert(s.drop_first() =~= outer);
}

/// A new inner scope hides nothing: every name finds what it found in the
/// enclosing scopes.
pub proof fn law_child_finds_enclosing<V>(outer: Seq<Map<Seq<char>, V>>, name: Seq<char>)
    ensures
        lookup(seq![Map::<Seq<char>, V>::empty()] + outer, name) == lookup(outer, name),
{
    let s = seq![Map::<Seq<char>, V>::empty()] + outer;
    assert(s.drop_first() =~= outer);
}

/// `has(name)` holds exactly when `get(name)` finds a value.
pub proof fn law_has_iff_found<V>(scopes: Seq<Map<Seq<char>, V>>, name: Seq<char>)
    ensures
        (lookup(scopes, name) is Some) <==> exists|i: int| 0 <= i < scopes.len() && scopes[i].contains_key(name),
    decreases scopes.len(),
{
    if scopes.len() > 0 {
        law_has_iff_found(scopes.drop_first(), name);
        if exists|i: int| 0 <= i < scopes.len() && scopes[i].contains_key(name) {
            let i = choose|i: int| 0 <= i < scopes.len() && scopes[i].contains_key(name);
            if i > 0 {
                assert(scopes.drop_first()[i - 1] == scopes[i]);
            }
        }
        if lookup(scopes.drop_first(), name) is Some && !scopes[0].contains_key(name) {
            let i = choose|i: int| 0 <= i < scopes.drop_first().len() && scopes.drop_first()[i].contains_key(name);
            assert(scopes[i + 1] == scopes.drop_first()[i]);
        }
    }
}

impl<V: Clone> Clone for Env<V> {
    fn clone(&self) -> (r: Self)
        ensures
            self.wf() ==> r.wf(),
            scopes_cloned(self.scopes(), r.scopes()),
    {
        self.duplicate()
    }
}

} // verus!
