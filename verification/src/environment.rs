//! Scopes: names bound to values, to type constraints or to function
//! signatures, each scope with an optional enclosing scope.

use crate::error::Error;
use crate::set::{set_contains, set_is_subset, set_view, CanonSet, SetLike, SetView};
use crate::value::{share, Val, ValView};
use std::rc::Rc;
use vstd::prelude::*;

verus! {

/// What a name is bound to.
#[derive(Debug)]
pub enum SymStore {
    /// A value, which the name keeps.
    Value(Val),
    /// The set that a value assigned later must belong to.
    Type(Rc<CanonSet>),
    /// The sets of the parameters and of the results of a function defined
    /// later.
    FuncType(Vec<Rc<CanonSet>>, Rc<CanonSet>),
}

pub ghost enum SymStoreView {
    Value(ValView),
    Type(SetView),
    FuncType(Seq<SetView>, SetView),
}

/// The views of a sequence of shared sets.
pub open spec fn sets_view(sets: Seq<Rc<CanonSet>>) -> Seq<SetView> {
    Seq::new(sets.len(), |i: int| set_view(*sets[i]))
}

impl View for SymStore {
    type V = SymStoreView;

    open spec fn view(&self) -> SymStoreView {
        match self {
            SymStore::Value(v) => SymStoreView::Value(v@),
            SymStore::Type(s) => SymStoreView::Type(s@),
            SymStore::FuncType(params, result) => SymStoreView::FuncType(
                sets_view(params@),
                result@,
            ),
        }
    }
}

pub(crate) fn share_all(sets: &Vec<Rc<CanonSet>>) -> (r: Vec<Rc<CanonSet>>)
    ensures
        r@ == sets@,
{
    let mut out: Vec<Rc<CanonSet>> = Vec::new();
    let mut i: usize = 0;
    while i < sets.len()
        invariant
            i <= sets.len(),
            out@ == sets@.take(i as int),
        decreases sets.len() - i,
    {
        out.push(share(&sets[i]));
        assert(out@ =~= sets@.take(i as int + 1));
        i += 1;
    }
    assert(out@ =~= sets@);
    out
}

impl Clone for SymStore {
    fn clone(&self) -> (r: Self)
        ensures
            r@ == self@,
    {
        match self {
            SymStore::Value(v) => SymStore::Value(v.clone()),
            SymStore::Type(s) => SymStore::Type(share(s)),
            SymStore::FuncType(params, result) => SymStore::FuncType(
                share_all(params),
                share(result),
            ),
        }
    }
}

/// Whether what a name is bound to lies within a set: a value where the set
/// holds it, a type constraint where it is within the set; a signature never
/// does.
pub open spec fn sym_subset_of(entry: SymStoreView, set: SetView) -> Result<bool, Error> {
    match entry {
        SymStoreView::Value(v) => set_contains(set, v),
        SymStoreView::Type(ts) => set_is_subset(ts, set),
        SymStoreView::FuncType(_, _) => Ok(false),
    }
}

impl SymStore {
    /// Whether what the name is bound to lies within the set.
    pub fn subset_of(&self, set: &Rc<CanonSet>) -> (r: Result<bool, Error>)
        ensures
            r == sym_subset_of(self@, set@),
    {
        match self {
            SymStore::Value(value) => set.contains(value),
            SymStore::Type(typeset) => typeset.is_subset(set),
            SymStore::FuncType(_, _) => Ok(false),
        }
    }
}

/// A scope: its bindings and the scope around it, by its place among the
/// scopes.
#[derive(Debug)]
pub struct Env {
    parent: Option<usize>,
    symbols: Vec<(String, SymStore)>,
}

pub ghost struct EnvView {
    pub parent: Option<nat>,
    pub symbols: Map<Seq<char>, SymStoreView>,
}

/// The bindings that a list of entries makes; a later entry for a name
/// replaces an earlier one.
pub open spec fn entries_map(entries: Seq<(String, SymStore)>) -> Map<Seq<char>, SymStoreView>
    decreases entries.len(),
{
    if entries.len() == 0 {
        Map::empty()
    } else {
        entries_map(entries.drop_last()).insert(entries.last().0@, entries.last().1@)
    }
}

proof fn lemma_entries_absent(entries: Seq<(String, SymStore)>, name: Seq<char>)
    requires
        forall|j: int| 0 <= j < entries.len() ==> (#[trigger] entries[j]).0@ != name,
    ensures
        !entries_map(entries).contains_key(name),
    decreases entries.len(),
{
    if entries.len() > 0 {
        let init = entries.drop_last();
        assert forall|j: int| 0 <= j < init.len() implies (#[trigger] init[j]).0@ != name by {
            assert(init[j] == entries[j]);
        }
        lemma_entries_absent(init, name);
        assert(entries.last() == entries[entries.len() - 1]);
    }
}

proof fn lemma_entries_present(entries: Seq<(String, SymStore)>, name: Seq<char>, k: int)
    requires
        0 <= k < entries.len(),
        entries[k].0@ == name,
        forall|j: int| k < j < entries.len() ==> (#[trigger] entries[j]).0@ != name,
    ensures
        entries_map(entries).contains_key(name),
        entries_map(entries)[name] == entries[k].1@,
    decreases entries.len(),
{
    if k < entries.len() - 1 {
        let init = entries.drop_last();
        assert(init[k] == entries[k]);
        assert forall|j: int| k < j < init.len() implies (#[trigger] init[j]).0@ != name by {
            assert(init[j] == entries[j]);
        }
        lemma_entries_present(init, name, k);
        assert(entries.last() == entries[entries.len() - 1]);
    }
}

impl View for Env {
    type V = EnvView;

    closed spec fn view(&self) -> EnvView {
        EnvView {
            parent: match self.parent {
                Some(p) => Some(p as nat),
                None => None,
            },
            symbols: entries_map(self.symbols@),
        }
    }
}

pub open spec fn opt_sym_view(entry: Option<SymStore>) -> Option<SymStoreView> {
    match entry {
        Some(e) => Some(e@),
        None => None,
    }
}

pub open spec fn opt_set_view(set: Option<Rc<CanonSet>>) -> Option<SetView> {
    match set {
        Some(s) => Some(s@),
        None => None,
    }
}

/// What `name` is bound to in the scope at `env` or, failing that, in the
/// scopes around it. A scope counts as enclosing only where it stands before
/// the scope it encloses.
pub open spec fn scope_lookup(scopes: Seq<EnvView>, env: nat, name: Seq<char>) -> Option<
    SymStoreView,
>
    decreases env,
{
    if env >= scopes.len() {
        None
    } else if scopes[env as int].symbols.contains_key(name) {
        Some(scopes[env as int].symbols[name])
    } else {
        match scopes[env as int].parent {
            Some(p) => if p < env {
                scope_lookup(scopes, p, name)
            } else {
                None
            },
            None => None,
        }
    }
}

/// The set that `name` holds as a value in the scope at `env` or, failing
/// that, in the scopes around it.
pub open spec fn scope_lookup_set(scopes: Seq<EnvView>, env: nat, name: Seq<char>) -> Option<
    SetView,
>
    decreases env,
{
    if env >= scopes.len() {
        None
    } else if local_set(scopes[env as int], name) is Some {
        local_set(scopes[env as int], name)
    } else {
        match scopes[env as int].parent {
            Some(p) => if p < env {
                scope_lookup_set(scopes, p, name)
            } else {
                None
            },
            None => None,
        }
    }
}

/// The set that `name` holds as a value in this scope itself.
pub open spec fn local_set(env: EnvView, name: Seq<char>) -> Option<SetView> {
    if env.symbols.contains_key(name) {
        match env.symbols[name] {
            SymStoreView::Value(ValView::SetValue(s)) => Some(s),
            _ => None,
        }
    } else {
        None
    }
}

/// What `name` is bound to in `env` or, failing that, in its enclosing scope
/// among `scopes` and the scopes around that.
pub open spec fn env_lookup(env: EnvView, scopes: Seq<EnvView>, name: Seq<char>) -> Option<
    SymStoreView,
> {
    if env.symbols.contains_key(name) {
        Some(env.symbols[name])
    } else {
        match env.parent {
            Some(p) => scope_lookup(scopes, p, name),
            None => None,
        }
    }
}

pub open spec fn env_lookup_set(env: EnvView, scopes: Seq<EnvView>, name: Seq<char>) -> Option<
    SetView,
> {
    if local_set(env, name) is Some {
        local_set(env, name)
    } else {
        match env.parent {
            Some(p) => scope_lookup_set(scopes, p, name),
            None => None,
        }
    }
}

impl Clone for Env {
    fn clone(&self) -> (r: Self)
        ensures
            r@ == self@,
    {
        let mut symbols: Vec<(String, SymStore)> = Vec::new();
        let mut i: usize = 0;
        while i < self.symbols.len()
            invariant
                i <= self.symbols.len(),
                symbols.len() == i,
                entries_map(symbols@) == entries_map(self.symbols@.take(i as int)),
            decreases self.symbols.len() - i,
        {
            let name = self.symbols[i].0.clone();
            let entry = self.symbols[i].1.clone();
            proof {
                assert(self.symbols@.take(i as int + 1).drop_last() =~= self.symbols@.take(
                    i as int,
                ));
                assert(symbols@.push((name, entry)).drop_last() =~= symbols@);
            }
            symbols.push((name, entry));
            i += 1;
        }
        assert(self.symbols@.take(self.symbols.len() as int) =~= self.symbols@);
        Env { parent: self.parent, symbols }
    }
}

impl Env {
    /// An empty scope within the scope at `parent`, or within none.
    pub fn new(parent: Option<usize>) -> (r: Self)
        ensures
            r@ == (EnvView {
                parent: match parent {
                    Some(p) => Some(p as nat),
                    None => None,
                },
                symbols: Map::empty(),
            }),
    {
        Env { parent, symbols: Vec::new() }
    }

    /// A copy of a scope.
    pub fn from_env(env: &Env) -> (r: Self)
        ensures
            r@ == env@,
    {
        env.clone()
    }

    /// The enclosing scope's place.
    pub fn parent(&self) -> (r: Option<usize>)
        ensures
            self@.parent == match r {
                Some(p) => Some(p as nat),
                None => None,
            },
    {
        self.parent
    }

    /// The place of the entry that binds `name` in this scope.
    fn find(&self, name: &String) -> (r: Option<usize>)
        ensures
            match r {
                Some(k) => k < self.symbols@.len() && self@.symbols.contains_key(name@)
                    && self@.symbols[name@] == self.symbols@[k as int].1@,
                None => !self@.symbols.contains_key(name@),
            },
    {
        let mut i: usize = self.symbols.len();
        while i > 0
            invariant
                i <= self.symbols.len(),
                forall|j: int| i <= j < self.symbols.len() ==> (#[trigger] self.symbols@[j]).0@ != name@,
            decreases i,
        {
            i -= 1;
            if self.symbols[i].0 == *name {
                proof {
                    lemma_entries_present(self.symbols@, name@, i as int);
                }
                return Some(i);
            }
        }
        proof {
            lemma_entries_absent(self.symbols@, name@);
        }
        None
    }

    /// What `name` is bound to in this scope itself.
    pub fn get_local(&self, name: &str) -> (r: Option<SymStore>)
        ensures
            opt_sym_view(r) == if self@.symbols.contains_key(name@) {
                Some(self@.symbols[name@])
            } else {
                None
            },
    {
        let key = String::from_str(name);
        match self.find(&key) {
            Some(k) => Some(self.symbols[k].1.clone()),
            None => None,
        }
    }

    /// What `name` is bound to here or in the scopes around this one.
    pub fn get(&self, scopes: &Scopes, name: &str) -> (r: Option<SymStore>)
        ensures
            opt_sym_view(r) == env_lookup(self@, scopes@, name@),
    {
        match self.get_local(name) {
            Some(entry) => Some(entry),
            None => match self.parent {
                Some(p) => scopes.get(p, name),
                None => None,
            },
        }
    }

    /// The set that `name` holds as a value here or in the scopes around this
    /// one.
    pub fn get_set(&self, scopes: &Scopes, set_name: &str) -> (r: Option<Rc<CanonSet>>)
        ensures
            opt_set_view(r) == env_lookup_set(self@, scopes@, set_name@),
    {
        match self.get_local(set_name) {
            Some(SymStore::Value(Val::SetValue(set))) => Some(set),
            _ => match self.parent {
                Some(p) => scopes.get_set(p, set_name),
                None => None,
            },
        }
    }

    /// Whether this scope itself binds the name.
    pub fn contains_key(&self, name: &str) -> (b: bool)
        ensures
            b == self@.symbols.contains_key(name@),
    {
        let key = String::from_str(name);
        self.find(&key).is_some()
    }

    /// Whether this scope itself binds the name to a value.
    pub fn is_sym_assigned(&self, name: &str) -> (b: bool)
        ensures
            b == (self@.symbols.contains_key(name@) && self@.symbols[name@] is Value),
    {
        match self.get_local(name) {
            Some(SymStore::Value(_)) => true,
            _ => false,
        }
    }

    fn insert(&mut self, name: String, entry: SymStore)
        ensures
            final(self)@ == (EnvView {
                parent: old(self)@.parent,
                symbols: old(self)@.symbols.insert(name@, entry@),
            }),
    {
        proof {
            assert(self.symbols@.push((name, entry)).drop_last() =~= self.symbols@);
        }
        self.symbols.push((name, entry));
    }

    /// Binds the name to a value.
    pub fn insert_sym(&mut self, name: String, value: Val)
        ensures
            final(self)@ == (EnvView {
                parent: old(self)@.parent,
                symbols: old(self)@.symbols.insert(name@, SymStoreView::Value(value@)),
            }),
    {
        self.insert(name, SymStore::Value(value));
    }

    /// Binds the name to the set that its value must belong to.
    pub fn insert_sym_type(&mut self, name: String, set: Rc<CanonSet>)
        ensures
            final(self)@ == (EnvView {
                parent: old(self)@.parent,
                symbols: old(self)@.symbols.insert(name@, SymStoreView::Type(set@)),
            }),
    {
        self.insert(name, SymStore::Type(set));
    }

    /// Binds the name to the signature of a function.
    pub fn insert_sym_func_type(
        &mut self,
        name: String,
        args: Vec<Rc<CanonSet>>,
        codomain: Rc<CanonSet>,
    )
        ensures
            final(self)@ == (EnvView {
                parent: old(self)@.parent,
                symbols: old(self)@.symbols.insert(
                    name@,
                    SymStoreView::FuncType(sets_view(args@), codomain@),
                ),
            }),
    {
        self.insert(name, SymStore::FuncType(args, codomain));
    }
}

/// All the scopes of an interpreter; a scope is known by its place here.
#[derive(Debug)]
pub struct Scopes {
    envs: Vec<Env>,
}

impl View for Scopes {
    type V = Seq<EnvView>;

    closed spec fn view(&self) -> Seq<EnvView> {
        Seq::new(self.envs@.len(), |i: int| self.envs@[i]@)
    }
}

impl Scopes {
    pub fn new() -> (r: Self)
        ensures
            r@ == Seq::<EnvView>::empty(),
    {
        let r = Scopes { envs: Vec::new() };
        assert(r@ =~= Seq::<EnvView>::empty());
        r
    }

    pub fn len(&self) -> (n: usize)
        ensures
            n == self@.len(),
    {
        self.envs.len()
    }

    /// Adds a scope and gives its place.
    pub fn push(&mut self, env: Env) -> (id: usize)
        ensures
            id == old(self)@.len(),
            final(self)@ == old(self)@.push(env@),
    {
        let id = self.envs.len();
        self.envs.push(env);
        assert(self@ =~= old(self)@.push(env@));
        id
    }

    /// The scope at `env`.
    pub fn scope(&self, env: usize) -> (r: Option<&Env>)
        ensures
            match r {
                Some(e) => env < self@.len() && e@ == self@[env as int],
                None => env >= self@.len(),
            },
    {
        if env < self.envs.len() {
            Some(&self.envs[env])
        } else {
            None
        }
    }

    /// What `name` is bound to in the scope at `env` or in the scopes around
    /// it.
    pub fn get(&self, env: usize, name: &str) -> (r: Option<SymStore>)
        ensures
            opt_sym_view(r) == scope_lookup(self@, env as nat, name@),
    {
        let mut cur = env;
        loop
            invariant
                scope_lookup(self@, env as nat, name@) == scope_lookup(self@, cur as nat, name@),
            decreases cur,
        {
            if cur >= self.envs.len() {
                return None;
            }
            match self.envs[cur].get_local(name) {
                Some(entry) => {
                    return Some(entry);
                },
                None => {},
            }
            match self.envs[cur].parent {
                Some(p) => {
                    if p < cur {
                        cur = p;
                    } else {
                        return None;
                    }
                },
                None => {
                    return None;
                },
            }
        }
    }

    /// The set that `name` holds as a value in the scope at `env` or in the
    /// scopes around it.
    pub fn get_set(&self, env: usize, set_name: &str) -> (r: Option<Rc<CanonSet>>)
        ensures
            opt_set_view(r) == scope_lookup_set(self@, env as nat, set_name@),
    {
        let mut cur = env;
        loop
            invariant
                scope_lookup_set(self@, env as nat, set_name@) == scope_lookup_set(
                    self@,
                    cur as nat,
                    set_name@,
                ),
            decreases cur,
        {
            if cur >= self.envs.len() {
                return None;
            }
            match self.envs[cur].get_local(set_name) {
                Some(SymStore::Value(Val::SetValue(set))) => {
                    return Some(set);
                },
                _ => {},
            }
            match self.envs[cur].parent {
                Some(p) => {
                    if p < cur {
                        cur = p;
                    } else {
                        return None;
                    }
                },
                None => {
                    return None;
                },
            }
        }
    }

    /// Binds a name in the scope at `env`; nothing changes where there is no
    /// such scope.
    pub fn insert(&mut self, env: usize, name: String, entry: SymStore)
        ensures
            final(self)@ == scopes_insert(old(self)@, env as nat, name@, entry@),
    {
        if env < self.envs.len() {
            self.envs[env].insert(name, entry);
            assert(self@ =~= scopes_insert(old(self)@, env as nat, name@, entry@));
        }
    }
}

/// The scopes after `name` is bound to `entry` in the scope at `env`.
pub open spec fn scopes_insert(
    scopes: Seq<EnvView>,
    env: nat,
    name: Seq<char>,
    entry: SymStoreView,
) -> Seq<EnvView> {
    if env < scopes.len() {
        scopes.update(
            env as int,
            EnvView {
                parent: scopes[env as int].parent,
                symbols: scopes[env as int].symbols.insert(name, entry),
            },
        )
    } else {
        scopes
    }
}

} // verus!
