//! Scopes: a chain of maps from names to values, innermost first.

use std::rc::Rc;
use vstd::prelude::*;
use crate::error::RuntimeError;
use crate::value::{Value, ValueView};

verus! {

/// The mathematical model of one scope.
pub type ScopeView = Map<Seq<char>, ValueView>;

/// The mathematical model of an [`Environment`]: its scopes, the innermost
/// at index 0, the global one last. It is never empty.
pub type EnvironmentView = Seq<ScopeView>;

/// The map that a list of bindings stands for: of two bindings of one name
/// the earlier counts.
pub open spec fn bindings_view(entries: Seq<(String, Value)>) -> ScopeView
    decreases entries.len(),
{
    if entries.len() == 0 {
        Map::empty()
    } else {
        bindings_view(entries.drop_first()).insert(entries[0].0@, entries[0].1@)
    }
}

/// The value that the chain gives to `name`: that of the innermost scope
/// that binds it.
pub open spec fn lookup(scopes: EnvironmentView, name: Seq<char>) -> Option<ValueView>
    decreases scopes.len(),
{
    if scopes.len() == 0 {
        None
    } else if scopes[0].contains_key(name) {
        Some(scopes[0][name])
    } else {
        lookup(scopes.drop_first(), name)
    }
}

/// The chain after `name` is defined in its innermost scope.
pub open spec fn define_in(scopes: EnvironmentView, name: Seq<char>, value: ValueView)
    -> EnvironmentView {
    scopes.update(0, scopes[0].insert(name, value))
}

/// Whether an assignment to `name` is accepted: the innermost scope binds it.
pub open spec fn assignable(scopes: EnvironmentView, name: Seq<char>) -> bool {
    scopes.len() > 0 && scopes[0].contains_key(name)
}

/// The chain with one fresh, empty scope in front.
pub open spec fn enter_scope(scopes: EnvironmentView) -> EnvironmentView {
    seq![Map::<Seq<char>, ValueView>::empty()] + scopes
}

/// A scope and, through `parent`, the scopes around it.
pub struct Environment {
    values: Vec<(String, Value)>,
    parent: Option<Rc<Environment>>,
}

impl View for Environment {
    type V = EnvironmentView;

    closed spec fn view(&self) -> EnvironmentView {
        environment_view(*self)
    }
}

/// The scopes of an environment, innermost first.
pub closed spec fn environment_view(env: Environment) -> EnvironmentView
    decreases env,
{
    seq![bindings_view(env.values@)] + match env.parent {
        Some(parent) => environment_view(*parent),
        None => Seq::empty(),
    }
}

/// No binding of `entries` before index `end` has the name `name`.
spec fn absent_before(entries: Seq<(String, Value)>, name: Seq<char>, end: int) -> bool {
    forall|j: int| 0 <= j < end ==> (#[trigger] entries[j]).0@ != name
}

/// A name that no binding has is not in the map.
proof fn lemma_absent(entries: Seq<(String, Value)>, name: Seq<char>)
    requires
        absent_before(entries, name, entries.len() as int),
    ensures
        !bindings_view(entries).contains_key(name),
    decreases entries.len(),
{
    if entries.len() > 0 {
        let rest = entries.drop_first();
        assert forall|j: int| 0 <= j < rest.len() implies (#[trigger] rest[j]).0@ != name by {
            assert(rest[j] == entries[j + 1]);
        }
        lemma_absent(rest, name);
    }
}

/// The first binding of a name is the one that the map holds.
proof fn lemma_first_match(entries: Seq<(String, Value)>, name: Seq<char>, i: int)
    requires
        0 <= i < entries.len(),
        entries[i].0@ == name,
        absent_before(entries, name, i),
    ensures
        bindings_view(entries).contains_key(name),
        bindings_view(entries)[name] == entries[i].1@,
    decreases entries.len(),
{
    if i > 0 {
        let rest = entries.drop_first();
        assert forall|j: int| 0 <= j < i - 1 implies (#[trigger] rest[j]).0@ != name by {
            assert(rest[j] == entries[j + 1]);
        }
        assert(rest[i - 1] == entries[i]);
        lemma_first_match(rest, name, i - 1);
        assert(entries[0].0@ != name);
    }
}

/// Replacing the value of the first binding of a name is an insertion.
proof fn lemma_replace_first(
    entries: Seq<(String, Value)>,
    i: int,
    key: String,
    value: Value,
)
    requires
        0 <= i < entries.len(),
        entries[i].0@ == key@,
        absent_before(entries, key@, i),
    ensures
        bindings_view(entries.update(i, (key, value))) == bindings_view(entries).insert(
            key@,
            value@,
        ),
    decreases entries.len(),
{
    let updated = entries.update(i, (key, value));
    if i == 0 {
        assert(updated.drop_first() =~= entries.drop_first());
        assert(bindings_view(updated) =~= bindings_view(entries).insert(key@, value@));
    } else {
        let rest = entries.drop_first();
        assert forall|j: int| 0 <= j < i - 1 implies (#[trigger] rest[j]).0@ != key@ by {
            assert(rest[j] == entries[j + 1]);
        }
        assert(rest[i - 1] == entries[i]);
        lemma_replace_first(rest, i - 1, key, value);
        assert(updated.drop_first() =~= rest.update(i - 1, (key, value)));
        assert(entries[0].0@ != key@);
        assert(updated[0] == entries[0]);
        assert(bindings_view(updated) =~= bindings_view(entries).insert(key@, value@));
    }
}

/// Appending a binding of a name that no binding has is an insertion.
proof fn lemma_push_absent(entries: Seq<(String, Value)>, key: String, value: Value)
    requires
        absent_before(entries, key@, entries.len() as int),
    ensures
        bindings_view(entries.push((key, value))) == bindings_view(entries).insert(key@, value@),
    decreases entries.len(),
{
    let pushed = entries.push((key, value));
    if entries.len() == 0 {
        assert(pushed.drop_first() =~= entries);
        assert(bindings_view(pushed) =~= bindings_view(entries).insert(key@, value@));
    } else {
        let rest = entries.drop_first();
        assert forall|j: int| 0 <= j < rest.len() implies (#[trigger] rest[j]).0@ != key@ by {
            assert(rest[j] == entries[j + 1]);
        }
        lemma_push_absent(rest, key, value);
        assert(pushed.drop_first() =~= rest.push((key, value)));
        assert(entries[0].0@ != key@);
        assert(pushed[0] == entries[0]);
        assert(bindings_view(pushed) =~= bindings_view(entries).insert(key@, value@));
    }
}

/// The index of the first binding of `name`, if there is one.
fn find(entries: &Vec<(String, Value)>, name: &str) -> (found: Option<usize>)
    ensures
        match found {
            Some(i) => i < entries.len() && entries[i as int].0@ == name@ && absent_before(
                entries@,
                name@,
                i as int,
            ),
            None => absent_before(entries@, name@, entries.len() as int),
        },
{
    let wanted: String = name.to_owned();
    let mut i: usize = 0;
    while i < entries.len()
        invariant
            i <= entries.len(),
            wanted@ == name@,
            absent_before(entries@, name@, i as int),
        decreases entries.len() - i,
    {
        if entries[i].0 == wanted {
            return Some(i);
        }
        i += 1;
    }
    None
}

impl Environment {
    /// A chain of one empty scope.
    pub fn new() -> (env: Environment)
        ensures
            env@ == seq![Map::<Seq<char>, ValueView>::empty()],
    {
        let env = Environment { values: Vec::new(), parent: None };
        assert(env@ =~= seq![Map::<Seq<char>, ValueView>::empty()]);
        env
    }

    /// A fresh, empty scope in front of the scopes of `parent`.
    pub fn with_parent(parent: Environment) -> (env: Environment)
        ensures
            env@ == enter_scope(parent@),
    {
        Environment { values: Vec::new(), parent: Some(Rc::new(parent)) }
    }

    /// An environment always has an innermost scope.
    pub proof fn lemma_nonempty(&self)
        ensures
            self@.len() > 0,
    {
    }

    /// Binds `name` to `value` in the innermost scope, whatever it was
    /// bound to there or further out.
    pub fn define(&mut self, name: String, value: Value)
        ensures
            final(self)@ == define_in(old(self)@, name@, value@),
    {
        let found = find(&self.values, name.as_str());
        match found {
            Some(i) => {
                proof {
                    lemma_replace_first(self.values@, i as int, name, value);
                }
                self.values.set(i, (name, value));
            },
            None => {
                proof {
                    lemma_push_absent(self.values@, name, value);
                }
                self.values.push((name, value));
            },
        }
        assert(final(self)@ =~= define_in(old(self)@, name@, value@));
    }

    /// The value of `name` in the innermost scope that binds it.
    pub fn get(&self, name: &str) -> (found: Option<&Value>)
        ensures
            match found {
                Some(value) => lookup(self@, name@) == Some(value@),
                None => lookup(self@, name@) is None,
            },
        decreases *self,
    {
        let at = find(&self.values, name);
        proof {
            assert(self@[0] == bindings_view(self.values@));
            assert(self@.drop_first() =~= match self.parent {
                Some(parent) => parent@,
                None => Seq::empty(),
            });
        }
        match at {
            Some(i) => {
                proof {
                    lemma_first_match(self.values@, name@, i as int);
                }
                Some(&self.values[i].1)
            },
            None => {
                proof {
                    lemma_absent(self.values@, name@);
                }
                match &self.parent {
                    Some(parent) => {
                        parent.get(name)
                    },
                    None => {
                        assert(lookup(self@.drop_first(), name@) is None);
                        None
                    },
                }
            },
        }
    }

    /// Gives `name` a new value in the innermost scope, if that scope binds
    /// it; the scopes around it are never written.
    pub fn assign(&mut self, name: &str, value: Value) -> (done: Result<(), RuntimeError>)
        ensures
            assignable(old(self)@, name@) ==> done is Ok && final(self)@ == define_in(
                old(self)@,
                name@,
                value@,
            ),
            !assignable(old(self)@, name@) ==> final(self)@ == old(self)@ && done is Err
                && done->Err_0@ == crate::error::RuntimeErrorView::UndefinedVariable(name@),
    {
        let found = find(&self.values, name);
        match found {
            Some(i) => {
                let key: String = name.to_owned();
                proof {
                    lemma_first_match(self.values@, name@, i as int);
                    lemma_replace_first(self.values@, i as int, key, value);
                }
                self.values.set(i, (key, value));
                assert(final(self)@ =~= define_in(old(self)@, name@, value@));
                Ok(())
            },
            None => {
                proof {
                    lemma_absent(self.values@, name@);
                }
                Err(RuntimeError::UndefinedVariable(name.to_owned()))
            },
        }
    }
}

impl Clone for Environment {
    /// A copy of the innermost scope that shares the scopes around it.
    fn clone(&self) -> (copy: Environment)
        ensures
            copy@ == self@,
    {
        let mut values: Vec<(String, Value)> = Vec::new();
        let mut i: usize = 0;
        while i < self.values.len()
            invariant
                i <= self.values.len(),
                values.len() == i,
                forall|j: int|
                    0 <= j < i ==> values[j].0@ == self.values[j].0@ && values[j].1@
                        == self.values[j].1@,
            decreases self.values.len() - i,
        {
            values.push((self.values[i].0.clone(), self.values[i].1.clone()));
            i += 1;
        }
        proof {
            lemma_same_bindings(values@, self.values@);
        }
        let parent = match &self.parent {
            Some(p) => Some(Rc::clone(p)),
            None => None,
        };
        Environment { values, parent }
    }
}

/// Lists of bindings with the same names and values stand for the same map.
proof fn lemma_same_bindings(a: Seq<(String, Value)>, b: Seq<(String, Value)>)
    requires
        a.len() == b.len(),
        forall|j: int| 0 <= j < a.len() ==> a[j].0@ == b[j].0@ && a[j].1@ == b[j].1@,
    ensures
        bindings_view(a) == bindings_view(b),
    decreases a.len(),
{
    if a.len() > 0 {
        lemma_same_bindings(a.drop_first(), b.drop_first());
    }
}

} // verus!
