//! Scopes and the manager that owns them. A scope is named by a handle: its
//! index in the manager. Scopes are never removed, and a scope's parent is
//! always an older scope.
use vstd::prelude::*;
use crate::value::{Value, ValueView};

verus! {

/// A scope as the contracts see it: its parent and its bindings, each name
/// at most once in effect (the first binding of a name is the one read).
pub struct ContextView {
    pub parent: Option<usize>,
    pub symbols: Seq<(Seq<char>, ValueView)>,
}

/// The manager as the contracts see it: its scopes by handle, and how
/// many bindings were ever made (a bound on how far pointers can chain).
pub struct ManagerView {
    pub scopes: Seq<ContextView>,
    pub bindings: nat,
}

pub open spec fn symbols_view(v: Seq<(String, Value)>) -> Seq<(Seq<char>, ValueView)> {
    v.map_values(|p: (String, Value)| (p.0@, p.1@))
}

/// The first index at or after `i` where `name` is bound.
pub open spec fn find_from(syms: Seq<(Seq<char>, ValueView)>, name: Seq<char>, i: int) -> Option<int>
    decreases syms.len() - i,
{
    if i < 0 || i >= syms.len() {
        None
    } else if syms[i].0 == name {
        Some(i)
    } else {
        find_from(syms, name, i + 1)
    }
}

/// What `name` is bound to in the scope itself.
pub open spec fn local(c: ContextView, name: Seq<char>) -> Option<ValueView> {
    match find_from(c.symbols, name, 0) {
        Some(k) => Some(c.symbols[k].1),
        None => None,
    }
}

/// What `name` is bound to as seen from scope `h`: in `h` itself, else in
/// its parent, and so on up the chain.
pub open spec fn lookup(m: ManagerView, h: int, name: Seq<char>) -> Option<ValueView>
    decreases h,
{
    if h < 0 || h >= m.scopes.len() {
        None
    } else {
        match local(m.scopes[h], name) {
            Some(v) => Some(v),
            None => match m.scopes[h].parent {
                Some(p) => if p < h {
                    lookup(m, p as int, name)
                } else {
                    None
                },
                None => None,
            },
        }
    }
}

pub open spec fn count_up(n: nat) -> nat {
    if n < u64::MAX { n + 1 } else { n }
}

/// The manager after binding `name` to `v` in scope `h` alone: an existing
/// binding there is overwritten, else a new one is added. A handle with no
/// scope changes nothing.
pub open spec fn assign(m: ManagerView, h: int, name: Seq<char>, v: ValueView) -> ManagerView {
    if h < 0 || h >= m.scopes.len() {
        m
    } else {
        let c = m.scopes[h];
        match find_from(c.symbols, name, 0) {
            Some(k) => ManagerView {
                scopes: m.scopes.update(h, ContextView { parent: c.parent, symbols: c.symbols.update(k, (name, v)) }),
                bindings: m.bindings,
            },
            None => ManagerView {
                scopes: m.scopes.update(h, ContextView { parent: c.parent, symbols: c.symbols.push((name, v)) }),
                bindings: count_up(m.bindings),
            },
        }
    }
}

/// The manager with one more, empty scope.
pub open spec fn with_scope(m: ManagerView, parent: Option<usize>) -> ManagerView {
    ManagerView {
        scopes: m.scopes.push(ContextView { parent, symbols: Seq::empty() }),
        bindings: m.bindings,
    }
}

/// How many bindings the scopes hold together.
pub open spec fn total_bindings(scopes: Seq<ContextView>) -> nat
    decreases scopes.len(),
{
    if scopes.len() == 0 {
        0
    } else {
        total_bindings(scopes.drop_last()) + scopes.last().symbols.len()
    }
}

/// The manager's invariant: every parent is an older scope, and the
/// binding counter is at least the number of bindings held (or has
/// reached its ceiling).
pub open spec fn manager_wf(m: ManagerView) -> bool {
    &&& forall|i: int|
        0 <= i < m.scopes.len() && (#[trigger] m.scopes[i]).parent is Some ==> m.scopes[i].parent->Some_0 < i
    &&& (m.bindings >= total_bindings(m.scopes) || m.bindings == u64::MAX)
    &&& m.bindings <= u64::MAX
}

pub proof fn lemma_total_update(s: Seq<ContextView>, i: int, c: ContextView)
    requires
        0 <= i < s.len(),
    ensures
        total_bindings(s.update(i, c)) + s[i].symbols.len() == total_bindings(s) + c.symbols.len(),
    decreases s.len(),
{
    if i < s.len() - 1 {
        assert(s.update(i, c).drop_last() =~= s.drop_last().update(i, c));
        lemma_total_update(s.drop_last(), i, c);
    } else {
        assert(s.update(i, c).drop_last() =~= s.drop_last());
    }
}

/// No scope holds more bindings than all of them together.
pub proof fn lemma_total_covers(s: Seq<ContextView>, i: int)
    requires
        0 <= i < s.len(),
    ensures
        s[i].symbols.len() <= total_bindings(s),
    decreases s.len(),
{
    if i < s.len() - 1 {
        lemma_total_covers(s.drop_last(), i);
    }
}

pub proof fn lemma_find_in_range(syms: Seq<(Seq<char>, ValueView)>, name: Seq<char>, i: int)
    ensures
        find_from(syms, name, i) matches Some(k) ==> 0 <= i <= k < syms.len() && syms[k].0 == name,
    decreases syms.len() - i,
{
    if 0 <= i < syms.len() && syms[i].0 != name {
        lemma_find_in_range(syms, name, i + 1);
    }
}

/// Binding keeps the manager's invariant.
pub proof fn lemma_assign_wf(m: ManagerView, h: int, name: Seq<char>, v: ValueView)
    requires
        manager_wf(m),
    ensures
        manager_wf(assign(m, h, name, v)),
{
    if 0 <= h < m.scopes.len() {
        let c = m.scopes[h];
        match find_from(c.symbols, name, 0) {
            Some(k) => {
                lemma_find_in_range(c.symbols, name, 0);
                lemma_total_update(
                    m.scopes,
                    h,
                    ContextView { parent: c.parent, symbols: c.symbols.update(k, (name, v)) },
                );
            },
            None => {
                lemma_total_update(m.scopes, h, ContextView { parent: c.parent, symbols: c.symbols.push((name, v)) });
            },
        }
        let m2 = assign(m, h, name, v);
        assert forall|i: int| 0 <= i < m2.scopes.len() && (#[trigger] m2.scopes[i]).parent is Some implies m2.scopes[
            i
        ].parent->Some_0 < i by {
            assert(m2.scopes[i].parent == m.scopes[i].parent);
        }
    }
}

/// A new scope whose parent exists keeps the manager's invariant.
pub proof fn lemma_with_scope_wf(m: ManagerView, parent: Option<usize>)
    requires
        manager_wf(m),
        parent is None || parent->Some_0 < m.scopes.len(),
    ensures
        manager_wf(with_scope(m, parent)),
{
    let m2 = with_scope(m, parent);
    assert(m2.scopes.drop_last() =~= m.scopes);
    assert forall|i: int| 0 <= i < m2.scopes.len() && (#[trigger] m2.scopes[i]).parent is Some implies m2.scopes[
        i
    ].parent->Some_0 < i by {
        if i < m.scopes.len() {
            assert(m2.scopes[i] == m.scopes[i]);
        }
    }
}

/// One scope: an optional parent handle and a table of bindings.
pub struct Context {
    pub parent: Option<usize>,
    symbols: Vec<(String, Value)>,
}

impl Context {
    pub closed spec fn view(&self) -> ContextView {
        ContextView { parent: self.parent, symbols: symbols_view(self.symbols@) }
    }

    /// An empty scope.
    pub fn new(parent: Option<usize>) -> (r: Context)
        ensures
            r.view() == (ContextView { parent, symbols: Seq::empty() }),
    {
        let r = Context { parent, symbols: Vec::new() };
        assert(symbols_view(r.symbols@) =~= Seq::empty());
        r
    }

    fn find(&self, name: &String) -> (r: Option<usize>)
        ensures
            r matches Some(k) ==> find_from(self.view().symbols, name@, 0) == Some(k as int),
            r is None ==> find_from(self.view().symbols, name@, 0) is None,
            r matches Some(k) ==> k < self.symbols@.len(),
    {
        let ghost syms = self.view().symbols;
        let mut i: usize = 0;
        while i < self.symbols.len()
            invariant
                i <= self.symbols@.len(),
                syms == self.view().symbols,
                find_from(syms, name@, 0) == find_from(syms, name@, i as int),
            decreases self.symbols@.len() - i,
        {
            if self.symbols[i].0 == *name {
                return Some(i);
            }
            i = i + 1;
        }
        None
    }

    /// What `name` is bound to in this scope itself.
    pub fn get(&self, name: &str) -> (r: Option<&Value>)
        ensures
            match r {
                Some(v) => local(self.view(), name@) == Some(v.view()),
                None => local(self.view(), name@) is None,
            },
    {
        let key = String::from_str(name);
        self.get_named(&key)
    }

    fn get_named(&self, name: &String) -> (r: Option<&Value>)
        ensures
            match r {
                Some(v) => local(self.view(), name@) == Some(v.view()),
                None => local(self.view(), name@) is None,
            },
    {
        match self.find(name) {
            Some(k) => Some(&self.symbols[k].1),
            None => None,
        }
    }

    /// Binds `name` to `value` here; says whether the name is new here.
    fn set(&mut self, name: &String, value: Value) -> (fresh: bool)
        ensures
            fresh == find_from(old(self).view().symbols, name@, 0) is None,
            final(self).view() == (match find_from(old(self).view().symbols, name@, 0) {
                Some(k) => ContextView {
                    parent: old(self).parent,
                    symbols: old(self).view().symbols.update(k, (name@, value.view())),
                },
                None => ContextView {
                    parent: old(self).parent,
                    symbols: old(self).view().symbols.push((name@, value.view())),
                },
            }),
    {
        let ghost v = value.view();
        match self.find(name) {
            Some(k) => {
                self.symbols.set(k, (name.clone(), value));
                assert(symbols_view(self.symbols@) =~= symbols_view(old(self).symbols@).update(k as int, (name@, v)));
                false
            },
            None => {
                self.symbols.push((name.clone(), value));
                assert(symbols_view(self.symbols@) =~= symbols_view(old(self).symbols@).push((name@, v)));
                true
            },
        }
    }
}

/// Owns every scope; hands out handles and mediates reading and binding.
pub struct ContextManager {
    contexts: Vec<Context>,
    bindings: u64,
}

impl ContextManager {
    pub closed spec fn view(&self) -> ManagerView {
        ManagerView {
            scopes: Seq::new(self.contexts@.len(), |i: int| self.contexts@[i].view()),
            bindings: self.bindings as nat,
        }
    }

    /// Every parent is an older scope, and the binding counter covers the
    /// bindings held.
    pub open spec fn wf(&self) -> bool {
        manager_wf(self.view())
    }

    /// A manager with no scopes.
    pub fn new() -> (r: ContextManager)
        ensures
            r.wf(),
            r.view().scopes.len() == 0,
            r.view().bindings == 0,
    {
        let r = ContextManager { contexts: Vec::new(), bindings: 0 };
        assert(r.view().scopes =~= Seq::<ContextView>::empty());
        r
    }

    /// How many bindings were ever made; saturates at `u64::MAX`.
    pub fn bindings(&self) -> (r: u64)
        ensures
            r == self.view().bindings,
    {
        self.bindings
    }

    /// What `name` is bound to as seen from scope `context_id`, walking up
    /// the parents.
    pub fn get(&self, context_id: usize, name: &str) -> (r: Option<&Value>)
        ensures
            match r {
                Some(v) => lookup(self.view(), context_id as int, name@) == Some(v.view()),
                None => lookup(self.view(), context_id as int, name@) is None,
            },
    {
        let key = String::from_str(name);
        self.get_named(context_id, &key)
    }

    pub fn get_named(&self, context_id: usize, name: &String) -> (r: Option<&Value>)
        ensures
            match r {
                Some(v) => lookup(self.view(), context_id as int, name@) == Some(v.view()),
                None => lookup(self.view(), context_id as int, name@) is None,
            },
        decreases context_id,
    {
        if context_id >= self.contexts.len() {
            return None;
        }
        let context = &self.contexts[context_id];
        match context.get_named(name) {
            Some(v) => Some(v),
            None => match context.parent {
                Some(p) => if p < context_id {
                    self.get_named(p, name)
                } else {
                    None
                },
                None => None,
            },
        }
    }

    /// Binds `name` to `value` in scope `context_id` alone; says whether
    /// that scope exists.
    pub fn set(&mut self, context_id: usize, name: &str, value: Value) -> (r: bool)
        requires
            old(self).wf(),
        ensures
            final(self).wf(),
            r == (context_id < old(self).view().scopes.len()),
            final(self).view() == assign(old(self).view(), context_id as int, name@, value.view()),
    {
        let key = String::from_str(name);
        self.set_named(context_id, &key, value)
    }

    pub fn set_named(&mut self, context_id: usize, name: &String, value: Value) -> (r: bool)
        requires
            old(self).wf(),
        ensures
            final(self).wf(),
            r == (context_id < old(self).view().scopes.len()),
            final(self).view() == assign(old(self).view(), context_id as int, name@, value.view()),
    {
        if context_id >= self.contexts.len() {
            return false;
        }
        let ghost v = value.view();
        let fresh = self.contexts[context_id].set(name, value);
        if fresh && self.bindings < u64::MAX {
            self.bindings = self.bindings + 1;
        }
        assert(self.view().scopes =~= assign(old(self).view(), context_id as int, name@, v).scopes);
        proof {
            lemma_assign_wf(old(self).view(), context_id as int, name@, v);
        }
        true
    }

    /// Adds an empty scope and returns its handle. Its parent, if any,
    /// must already exist.
    pub fn add_context(&mut self, context: Context) -> (h: usize)
        requires
            old(self).wf(),
            old(self).view().scopes.len() < usize::MAX,
            context.view().symbols.len() == 0,
            context.view().parent is None || context.view().parent->Some_0 < old(self).view().scopes.len(),
        ensures
            final(self).wf(),
            h == old(self).view().scopes.len(),
            final(self).view() == (ManagerView {
                scopes: old(self).view().scopes.push(context.view()),
                bindings: old(self).view().bindings,
            }),
    {
        let h = self.contexts.len();
        self.contexts.push(context);
        assert(self.view().scopes =~= old(self).view().scopes.push(context.view()));
        proof {
            assert(context.view().symbols =~= Seq::<(Seq<char>, ValueView)>::empty());
            assert(context.view() == (ContextView { parent: context.view().parent, symbols: Seq::empty() }));
            lemma_with_scope_wf(old(self).view(), context.view().parent);
        }
        h
    }

    /// Creates an empty scope with the given parent, which must already
    /// exist, and returns its handle, which no other scope has.
    pub fn create_context(&mut self, parent: Option<usize>) -> (h: usize)
        requires
            old(self).wf(),
            old(self).view().scopes.len() < usize::MAX,
            parent is None || parent->Some_0 < old(self).view().scopes.len(),
        ensures
            final(self).wf(),
            h == old(self).view().scopes.len(),
            final(self).view() == with_scope(old(self).view(), parent),
    {
        let context = Context::new(parent);
        self.add_context(context)
    }

    /// Whether a scope has the handle `id`.
    pub fn has_id(&self, id: usize) -> (r: bool)
        ensures
            r == (id < self.view().scopes.len()),
    {
        id < self.contexts.len()
    }

    /// How many scopes there are.
    pub fn len(&self) -> (r: usize)
        ensures
            r == self.view().scopes.len(),
    {
        self.contexts.len()
    }
}

} // verus!
