//! The variable environment: a single flat mapping from variable names to
//! values, modelled as a `Map<Seq<char>, Val>`.

use vstd::prelude::*;

use crate::token::LiteralValue;
use crate::value::{Val, lit_view};

verus! {

/// The message reported when a name is read or assigned without having been
/// defined.
pub open spec fn undefined_msg(n: Seq<char>) -> Seq<char> {
    "Undefined variable '"@ + n + "'"@
}

/// Build the undefined-variable message for `name`.
pub fn make_undefined_msg(name: &String) -> (r: String)
    ensures
        r@ == undefined_msg(name@),
{
    let mut s = String::from_str("Undefined variable '");
    s.append(name.as_str());
    s.append("'");
    s
}

/// The mapping an entry list stands for; later entries override earlier ones.
pub open spec fn env_map(es: Seq<(String, LiteralValue)>) -> Map<Seq<char>, Val>
    decreases es.len(),
{
    if es.len() == 0 {
        Map::<Seq<char>, Val>::empty()
    } else {
        env_map(es.drop_last()).insert(es.last().0@, lit_view(es.last().1))
    }
}

/// The name-to-value store for the program's single global scope.
pub struct Environment {
    entries: Vec<(String, LiteralValue)>,
}

pub open spec fn unique_keys(es: Seq<(String, LiteralValue)>) -> bool {
    forall|i: int, j: int|
        0 <= i < j < es.len() ==> (#[trigger] es[i]).0@ != (#[trigger] es[j]).0@
}

proof fn lemma_env_map_absent(es: Seq<(String, LiteralValue)>, n: Seq<char>)
    requires
        forall|k: int| 0 <= k < es.len() ==> (#[trigger] es[k]).0@ != n,
    ensures
        !env_map(es).contains_key(n),
    decreases es.len(),
{
    if es.len() > 0 {
        lemma_env_map_absent(es.drop_last(), n);
    }
}

proof fn lemma_env_map_found(es: Seq<(String, LiteralValue)>, i: int)
    requires
        unique_keys(es),
        0 <= i < es.len(),
    ensures
        env_map(es).contains_key(es[i].0@),
        env_map(es)[es[i].0@] == lit_view(es[i].1),
    decreases es.len(),
{
    if i == es.len() - 1 {
    } else {
        lemma_env_map_found(es.drop_last(), i);
        assert(es.drop_last()[i] == es[i]);
        assert(es[i].0@ != es.last().0@);
    }
}

proof fn lemma_env_map_update(es: Seq<(String, LiteralValue)>, i: int, p: (String, LiteralValue))
    requires
        unique_keys(es),
        0 <= i < es.len(),
        p.0@ == es[i].0@,
    ensures
        env_map(es.update(i, p)) =~= env_map(es).insert(p.0@, lit_view(p.1)),
    decreases es.len(),
{
    let es2 = es.update(i, p);
    if i == es.len() - 1 {
        assert(es2.drop_last() =~= es.drop_last());
        assert(es2.last() == p);
    } else {
        assert(es2.last() == es.last());
        assert(es2.drop_last() =~= es.drop_last().update(i, p));
        assert(es.drop_last()[i] == es[i]);
        lemma_env_map_update(es.drop_last(), i, p);
        assert(es[i].0@ != es.last().0@);
    }
}

impl View for Environment {
    type V = Map<Seq<char>, Val>;

    closed spec fn view(&self) -> Map<Seq<char>, Val> {
        env_map(self.entries@)
    }
}

impl Environment {
    /// Each name is bound at most once in the entry list.
    pub closed spec fn wf(&self) -> bool {
        unique_keys(self.entries@)
    }

    /// Create an empty environment.
    pub fn new() -> (r: Self)
        ensures
            r.wf(),
            r@ == Map::<Seq<char>, Val>::empty(),
    {
        Environment { entries: Vec::new() }
    }

    fn find(&self, name: &String) -> (r: Option<usize>)
        ensures
            match r {
                Some(i) => i < self.entries@.len() && self.entries@[i as int].0@ == name@,
                None => forall|k: int|
                    0 <= k < self.entries@.len() ==> (#[trigger] self.entries@[k]).0@ != name@,
            },
    {
        let mut i: usize = 0;
        while i < self.entries.len()
            invariant
                i <= self.entries@.len(),
                forall|k: int| 0 <= k < i ==> (#[trigger] self.entries@[k]).0@ != name@,
            decreases self.entries@.len() - i,
        {
            if self.entries[i].0 == *name {
                return Some(i);
            }
            i = i + 1;
        }
        None
    }

    /// Bind `name` to `value`, inserting or overwriting: defining always
    /// succeeds.
    pub fn define(&mut self, name: String, value: LiteralValue)
        requires
            old(self).wf(),
        ensures
            final(self).wf(),
            final(self)@ == old(self)@.insert(name@, lit_view(value)),
    {
        match self.find(&name) {
            Some(i) => {
                proof {
                    lemma_env_map_update(self.entries@, i as int, (name, value));
                }
                self.entries[i] = (name, value);
            },
            None => {
                proof {
                    let ghost es = self.entries@.push((name, value));
                    assert(es.drop_last() =~= self.entries@);
                    assert(forall|k: int, l: int|
                        0 <= k < l < es.len() ==> (#[trigger] es[k]).0@ != (#[trigger] es[l]).0@);
                }
                self.entries.push((name, value));
            },
        }
    }

    /// Look `name` up; fails with the undefined-variable message iff the
    /// name is unbound.
    pub fn get(&self, name: &String) -> (r: Result<LiteralValue, String>)
        requires
            self.wf(),
        ensures
            match r {
                Ok(v) => self@.contains_key(name@) && lit_view(v) == self@[name@],
                Err(m) => !self@.contains_key(name@) && m@ == undefined_msg(name@),
            },
    {
        match self.find(name) {
            Some(i) => {
                proof {
                    lemma_env_map_found(self.entries@, i as int);
                }
                Ok(self.entries[i].1.clone())
            },
            None => {
                proof {
                    lemma_env_map_absent(self.entries@, name@);
                }
                Err(make_undefined_msg(name))
            },
        }
    }

    /// Update an existing binding; fails with the undefined-variable message
    /// iff `name` was never defined. Assignment is not implicit declaration.
    pub fn assign(&mut self, name: &String, value: LiteralValue) -> (r: Result<(), String>)
        requires
            old(self).wf(),
        ensures
            final(self).wf(),
            match r {
                Ok(()) => old(self)@.contains_key(name@) && final(self)@ == old(self)@.insert(
                    name@,
                    lit_view(value),
                ),
                Err(m) => !old(self)@.contains_key(name@) && final(self)@ == old(self)@ && m@
                    == undefined_msg(name@),
            },
    {
        match self.find(name) {
            Some(i) => {
                proof {
                    lemma_env_map_found(self.entries@, i as int);
                    lemma_env_map_update(
                        self.entries@,
                        i as int,
                        (self.entries@[i as int].0, value),
                    );
                }
                let key = self.entries[i].0.clone();
                self.entries[i] = (key, value);
                Ok(())
            },
            None => {
                proof {
                    lemma_env_map_absent(self.entries@, name@);
                }
                Err(make_undefined_msg(name))
            },
        }
    }
}

} // verus!
