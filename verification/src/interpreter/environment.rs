//! Scopes.
//!
//! The scopes of a run live side by side in one table and name their parent
//! by its place in the table. A parent always comes before its children, so
//! every chain of scopes ends.

use super::value::Value;
use vstd::prelude::*;

verus! {

/// One scope: its bindings, the latest first in line, and its parent.
struct Scope<'a> {
    parent: Option<usize>,
    names: Vec<String>,
    values: Vec<Value<'a>>,
}

impl<'a> Scope<'a> {
    spec fn wf(self) -> bool {
        self.names.len() == self.values.len()
    }

    /// The place of the latest binding of `name` among the first `below`.
    spec fn find(self, name: Seq<char>, below: int) -> Option<int>
        decreases below,
    {
        if below <= 0 {
            None
        } else if self.names[below - 1]@ == name {
            Some(below - 1)
        } else {
            self.find(name, below - 1)
        }
    }

    spec fn local(self, name: Seq<char>) -> Option<Value<'a>> {
        match self.find(name, self.names.len() as int) {
            Some(place) => Some(self.values[place]),
            None => None,
        }
    }

    proof fn lemma_find_bounds(self, name: Seq<char>, below: int)
        requires
            below <= self.names.len(),
        ensures
            self.find(name, below) matches Some(place) ==> 0 <= place < below && self.names[place]@
                == name,
        decreases below,
    {
        if below > 0 && self.names[below - 1]@ != name {
            self.lemma_find_bounds(name, below - 1);
        }
    }

    /// Two scopes that agree on their first `below` names find the same places.
    proof fn lemma_find_same_names(self, other: Scope<'a>, name: Seq<char>, below: int)
        requires
            below <= self.names.len(),
            below <= other.names.len(),
            forall|i: int| 0 <= i < below ==> self.names[i]@ == other.names[i]@,
        ensures
            self.find(name, below) == other.find(name, below),
        decreases below,
    {
        if below > 0 {
            self.lemma_find_same_names(other, name, below - 1);
        }
    }

    fn position(&self, name: &String) -> (place: Option<usize>)
        requires
            self.wf(),
        ensures
            match place {
                Some(place) => self.find(name@, self.names.len() as int) == Some(place as int)
                    && place < self.names.len(),
                None => self.find(name@, self.names.len() as int) is None,
            },
    {
        let mut below = self.names.len();
        while below > 0
            invariant
                below <= self.names.len(),
                self.find(name@, self.names.len() as int) == self.find(name@, below as int),
            decreases below,
        {
            if self.names[below - 1] == *name {
                return Some(below - 1);
            }
            below -= 1;
        }
        None
    }
}

/// The scopes of a run.
pub struct Environment<'a> {
    scopes: Vec<Scope<'a>>,
}

impl<'a> Environment<'a> {
    /// How many scopes there are. Scopes are numbered from 0, the global one.
    pub closed spec fn count(self) -> nat {
        self.scopes.len() as nat
    }

    /// The scope that encloses `scope`; the global scope has none.
    pub closed spec fn parent(self, scope: int) -> Option<usize> {
        self.scopes[scope].parent
    }

    /// The value that `name` is bound to in `scope` itself.
    pub closed spec fn local(self, scope: int, name: Seq<char>) -> Option<Value<'a>> {
        self.scopes[scope].local(name)
    }

    /// There is a global scope, and every other scope was made after its parent.
    pub closed spec fn wf(self) -> bool {
        &&& self.scopes.len() >= 1
        &&& forall|i: int| 0 <= i < self.scopes.len() ==> (#[trigger] self.scopes[i]).wf()
        &&& forall|i: int|
            0 <= i < self.scopes.len() ==> ((#[trigger] self.scopes[i]).parent matches Some(parent)
                ==> parent < i)
    }

    /// The innermost scope, from `scope` outwards, that binds `name`.
    pub open spec fn resolve(self, scope: int, name: Seq<char>) -> Option<int>
        decreases scope,
    {
        if scope < 0 || scope >= self.count() {
            None
        } else if self.local(scope, name) is Some {
            Some(scope)
        } else {
            match self.parent(scope) {
                Some(parent) => if parent < scope {
                    self.resolve(parent as int, name)
                } else {
                    None
                },
                None => None,
            }
        }
    }

    /// The value that `name` stands for in `scope`: that of the innermost
    /// scope, from `scope` outwards, that binds it.
    pub open spec fn lookup(self, scope: int, name: Seq<char>) -> Option<Value<'a>> {
        match self.resolve(scope, name) {
            Some(binder) => self.local(binder, name),
            None => None,
        }
    }

    /// `self` is `before` with `name` bound to `value` in `scope`, and
    /// nothing else changed.
    pub open spec fn binds(self, before: Environment<'a>, scope: int, name: Seq<char>, value: Value<'a>) -> bool {
        &&& self.wf()
        &&& self.count() == before.count()
        &&& forall|other: int| 0 <= other < self.count() ==> self.parent(other) == before.parent(other)
        &&& forall|other: int, any: Seq<char>|
            0 <= other < self.count() ==> #[trigger] self.local(other, any) == if other == scope
                && any == name {
                Some(value)
            } else {
                before.local(other, any)
            }
    }

    /// `self` is `before` with one more scope, which is empty and has
    /// `parent` for its parent.
    pub open spec fn opens(self, before: Environment<'a>, parent: usize) -> bool {
        &&& self.wf()
        &&& self.count() == before.count() + 1
        &&& self.parent(before.count() as int) == Some(parent)
        &&& forall|any: Seq<char>| #[trigger] self.local(before.count() as int, any) is None
        &&& forall|other: int|
            0 <= other < before.count() ==> self.parent(other) == before.parent(other)
        &&& forall|other: int, any: Seq<char>|
            0 <= other < before.count() ==> #[trigger] self.local(other, any) == before.local(
                other,
                any,
            )
    }

    /// An environment with the global scope alone, which binds nothing.
    pub fn new() -> (environment: Self)
        ensures
            environment.wf(),
            environment.count() == 1,
            environment.parent(0) is None,
            forall|name: Seq<char>| #[trigger] environment.local(0, name) is None,
    {
        let mut scopes: Vec<Scope<'a>> = Vec::new();
        scopes.push(Scope { parent: None, names: Vec::new(), values: Vec::new() });
        Environment { scopes }
    }

    /// How many scopes there are.
    pub fn len(&self) -> (count: usize)
        ensures
            count == self.count(),
    {
        self.scopes.len()
    }

    /// Opens a new, empty scope inside `parent` and returns its number.
    pub fn close_over(&mut self, parent: usize) -> (scope: usize)
        requires
            old(self).wf(),
            parent < old(self).count(),
        ensures
            scope == old(self).count(),
            final(self).opens(*old(self), parent),
    {
        let scope = self.scopes.len();
        self.scopes.push(Scope { parent: Some(parent), names: Vec::new(), values: Vec::new() });
        scope
    }

    /// Binds `name` to `value` in `scope` itself, whether or not the scope
    /// or one around it binds the name already.
    pub fn define(&mut self, scope: usize, name: String, value: Value<'a>)
        requires
            old(self).wf(),
            scope < old(self).count(),
        ensures
            final(self).binds(*old(self), scope as int, name@, value),
    {
        let ghost before = self.scopes[scope as int];
        let target = &mut self.scopes[scope];
        target.names.push(name);
        target.values.push(value);
        proof {
            let after = self.scopes[scope as int];
            assert forall|any: Seq<char>| #[trigger] after.local(any) == if any == name@ {
                Some(value)
            } else {
                before.local(any)
            } by {
                if any != name@ {
                    before.lemma_find_same_names(after, any, before.names.len() as int);
                    before.lemma_find_bounds(any, before.names.len() as int);
                }
            }
        }
    }

    /// The value that `name` stands for in `scope`, if any scope from
    /// `scope` outwards binds it.
    pub fn get(&self, scope: usize, name: &String) -> (value: Option<Value<'a>>)
        requires
            self.wf(),
            scope < self.count(),
        ensures
            value == self.lookup(scope as int, name@),
    {
        match self.binder(scope, name) {
            Some((binder, place)) => Some(self.scopes[binder].values[place].duplicate()),
            None => None,
        }
    }

    /// Finds the innermost scope, from `scope` outwards, that binds `name`,
    /// and the place of the binding in it.
    fn binder(&self, scope: usize, name: &String) -> (found: Option<(usize, usize)>)
        requires
            self.wf(),
            scope < self.count(),
        ensures
            match found {
                Some((binder, place)) => {
                    &&& self.resolve(scope as int, name@) == Some(binder as int)
                    &&& binder < self.count()
                    &&& self.scopes[binder as int].find(
                        name@,
                        self.scopes[binder as int].names.len() as int,
                    ) == Some(place as int)
                    &&& place < self.scopes[binder as int].names.len()
                },
                None => self.resolve(scope as int, name@) is None,
            },
    {
        let mut current = scope;
        loop
            invariant
                self.wf(),
                current < self.count(),
                self.resolve(scope as int, name@) == self.resolve(current as int, name@),
            decreases current,
        {
            match self.scopes[current].position(name) {
                Some(place) => {
                    return Some((current, place));
                },
                None => {},
            }
            match self.scopes[current].parent {
                Some(parent) => {
                    current = parent;
                },
                None => {
                    return None;
                },
            }
        }
    }

    /// Gives `name` the value `value` in the innermost scope, from `scope`
    /// outwards, that binds it. Where no scope binds it, nothing changes:
    /// assignment never makes a binding.
    pub fn assign(&mut self, scope: usize, name: &String, value: Value<'a>) -> (result: Result<(), ()>)
        requires
            old(self).wf(),
            scope < old(self).count(),
        ensures
            match old(self).resolve(scope as int, name@) {
                Some(binder) => result is Ok && final(self).binds(*old(self), binder, name@, value),
                None => result is Err && *final(self) == *old(self),
            },
    {
        match self.binder(scope, name) {
            Some((binder, place)) => {
                let ghost before = self.scopes[binder as int];
                let target = &mut self.scopes[binder];
                target.values[place] = value;
                proof {
                    let after = self.scopes[binder as int];
                    assert forall|any: Seq<char>| #[trigger] after.local(any) == if any == name@ {
                        Some(value)
                    } else {
                        before.local(any)
                    } by {
                        before.lemma_find_same_names(after, any, before.names.len() as int);
                        before.lemma_find_bounds(any, before.names.len() as int);
                        before.lemma_find_bounds(name@, before.names.len() as int);
                    }
                }
                Ok(())
            },
            None => Err(()),
        }
    }

    /// There is always the global scope.
    pub proof fn lemma_has_global(self)
        requires
            self.wf(),
        ensures
            self.count() >= 1,
    {
    }

    /// A name is bound in the scope that it resolves to, which is one of
    /// the scopes.
    pub proof fn lemma_resolve_binds(self, scope: int, name: Seq<char>)
        ensures
            self.resolve(scope, name) matches Some(binder) ==> 0 <= binder < self.count()
                && binder <= scope && self.local(binder, name) is Some,
        decreases scope,
    {
        if 0 <= scope < self.count() && self.local(scope, name) is None {
            match self.parent(scope) {
                Some(parent) => {
                    if parent < scope {
                        self.lemma_resolve_binds(parent as int, name);
                    }
                },
                None => {},
            }
        }
    }

    /// Two environments that agree on a scope and on all the scopes before
    /// it resolve every name from that scope alike.
    pub proof fn lemma_resolve_agrees(self, other: Environment<'a>, scope: int, name: Seq<char>)
        requires
            0 <= scope < self.count(),
            scope < other.count(),
            forall|inner: int| 0 <= inner <= scope ==> self.parent(inner) == other.parent(inner),
            forall|inner: int|
                0 <= inner <= scope ==> #[trigger] self.local(inner, name) == other.local(
                    inner,
                    name,
                ),
        ensures
            self.resolve(scope, name) == other.resolve(scope, name),
            self.lookup(scope, name) == other.lookup(scope, name),
        decreases scope,
    {
        if self.local(scope, name) is None {
            match self.parent(scope) {
                Some(parent) => {
                    if parent < scope {
                        self.lemma_resolve_agrees(other, parent as int, name);
                    }
                },
                None => {},
            }
        }
    }

    /// A binding made in a scope hides the bindings of the same name around
    /// it, and the scopes around it do not see it.
    pub proof fn lemma_shadowing(
        self,
        before: Environment<'a>,
        scope: int,
        name: Seq<char>,
        value: Value<'a>,
        outer: int,
    )
        requires
            before.wf(),
            0 <= outer < scope < before.count(),
            self.binds(before, scope, name, value),
        ensures
            self.lookup(scope, name) == Some(value),
            self.lookup(outer, name) == before.lookup(outer, name),
    {
        self.lemma_resolve_unchanged_below(before, scope, name, value, outer, name);
    }

    /// A binding made in a scope changes nothing for the scopes made before it.
    pub proof fn lemma_resolve_unchanged_below(
        self,
        before: Environment<'a>,
        scope: int,
        name: Seq<char>,
        value: Value<'a>,
        outer: int,
        any: Seq<char>,
    )
        requires
            before.wf(),
            0 <= outer < scope < before.count(),
            self.binds(before, scope, name, value),
        ensures
            self.resolve(outer, any) == before.resolve(outer, any),
            self.lookup(outer, any) == before.lookup(outer, any),
        decreases outer,
    {
        if self.local(outer, any) is None {
            match self.parent(outer) {
                Some(parent) => {
                    if parent < outer {
                        self.lemma_resolve_unchanged_below(
                            before,
                            scope,
                            name,
                            value,
                            parent as int,
                            any,
                        );
                    }
                },
                None => {},
            }
        }
    }
}

} // verus!
