//! The variables of a running program and their values.

use vstd::prelude::*;

use crate::object::{Object, ObjectView};
use crate::text::text;
use crate::token::Token;

verus! {

/// A variable and its value.
struct Binding {
    name: String,
    value: Object,
}

/// The variables declared so far, each bound to its current value. A name is
/// bound at most once: declaring it again replaces its value.
pub struct Environment {
    bindings: Vec<Binding>,
}

impl Environment {
    /// No name is bound twice.
    #[verifier::type_invariant]
    spec fn names_distinct(self) -> bool {
        forall|i: int, j: int|
            0 <= i < j < self.bindings@.len() ==> #[trigger] self.bindings@[i].name@
                != #[trigger] self.bindings@[j].name@
    }

    /// Whether a name is bound.
    pub closed spec fn binds(self, name: Seq<char>) -> bool {
        exists|i: int| 0 <= i < self.bindings@.len() && #[trigger] self.bindings@[i].name@ == name
    }

    /// The position of a bound name.
    spec fn position(self, name: Seq<char>) -> int {
        choose|i: int| 0 <= i < self.bindings@.len() && #[trigger] self.bindings@[i].name@ == name
    }
}

impl View for Environment {
    type V = Map<Seq<char>, ObjectView>;

    /// Each bound name and its value.
    closed spec fn view(&self) -> Map<Seq<char>, ObjectView> {
        Map::new(|k: Seq<char>| self.binds(k), |k: Seq<char>| self.bindings@[self.position(k)].value@)
    }
}

impl Default for Environment {
    /// An environment where no name is bound.
    fn default() -> (r: Self)
        ensures
            r@ == Map::<Seq<char>, ObjectView>::empty(),
    {
        let r = Environment { bindings: Vec::new() };
        assert(r@ =~= Map::<Seq<char>, ObjectView>::empty());
        r
    }
}

impl Environment {
    /// The position of a name, if it is bound.
    fn find(&self, name: &String) -> (r: Option<usize>)
        ensures
            match r {
                Some(i) => i < self.bindings@.len() && self.bindings@[i as int].name@ == name@,
                None => !self.binds(name@),
            },
    {
        let mut i: usize = 0;
        while i < self.bindings.len()
            invariant
                i <= self.bindings@.len(),
                forall|j: int| 0 <= j < i ==> #[trigger] self.bindings@[j].name@ != name@,
            decreases self.bindings.len() - i,
        {
            if self.bindings[i].name == *name {
                return Some(i);
            }
            i = i + 1;
        }
        None
    }

    /// Binds a name to a value, replacing the value it had if it was bound;
    /// gives the value.
    pub fn define(&mut self, name: &str, value: Object) -> (r: Object)
        ensures
            final(self)@ == old(self)@.insert(name@, value@),
            r == value,
    {
        proof {
            use_type_invariant(&*self);
        }
        let key = text(name);
        let ret = value.clone();
        let found = self.find(&key);
        let mut bindings: Vec<Binding> = Vec::new();
        std::mem::swap(&mut bindings, &mut self.bindings);
        match found {
            Some(i) => {
                bindings.set(i, Binding { name: key, value });
                proof {
                    Environment { bindings }.lemma_view_updated(*old(self), i as int);
                }
            },
            None => {
                bindings.push(Binding { name: key, value });
                proof {
                    assert(bindings@.drop_last() =~= old(self).bindings@);
                    Environment { bindings }.lemma_view_pushed(*old(self));
                }
            },
        }
        self.bindings = bindings;
        ret
    }

    /// Replaces the value of a bound name and gives the new value; gives
    /// nothing, and changes nothing, when the token's name is not bound.
    pub fn assign(&mut self, token: &Token, value: Object) -> (r: Option<Object>)
        ensures
            old(self)@.contains_key(token.lexeme@) ==> final(self)@ == old(self)@.insert(token.lexeme@, value@)
                && r == Some(value),
            !old(self)@.contains_key(token.lexeme@) ==> final(self)@ == old(self)@ && r is None,
    {
        proof {
            use_type_invariant(&*self);
        }
        let ret = value.clone();
        match self.find(&token.lexeme) {
            Some(i) => {
                let key = token.lexeme.clone();
                let mut bindings: Vec<Binding> = Vec::new();
                std::mem::swap(&mut bindings, &mut self.bindings);
                bindings.set(i, Binding { name: key, value });
                proof {
                    Environment { bindings }.lemma_view_updated(*old(self), i as int);
                }
                self.bindings = bindings;
                Some(ret)
            },
            None => None,
        }
    }

    /// The value of the token's name, if it is bound.
    pub fn get(&self, token: &Token) -> (r: Option<Object>)
        ensures
            match r {
                Some(o) => self@.contains_key(token.lexeme@) && o@ == self@[token.lexeme@],
                None => !self@.contains_key(token.lexeme@),
            },
    {
        proof {
            use_type_invariant(self);
        }
        match self.find(&token.lexeme) {
            Some(i) => {
                proof {
                    let p = self.position(token.lexeme@);
                    assert(self.binds(token.lexeme@));
                    assert(p == i);
                }
                Some(self.bindings[i].value.clone())
            },
            None => None,
        }
    }

    /// After the binding at `i` got a new value under its own name, the
    /// view maps that name to the new value and is otherwise unchanged.
    proof fn lemma_view_updated(self, prev: Environment, i: int)
        requires
            prev.names_distinct(),
            0 <= i < prev.bindings@.len(),
            self.bindings@ == prev.bindings@.update(i, self.bindings@[i]),
            self.bindings@[i].name@ == prev.bindings@[i].name@,
        ensures
            self.names_distinct(),
            self@ == prev@.insert(self.bindings@[i].name@, self.bindings@[i].value@),
    {
        let k = self.bindings@[i].name@;
        assert forall|a: int, b: int| 0 <= a < b < self.bindings@.len() implies #[trigger] self.bindings@[a].name@
            != #[trigger] self.bindings@[b].name@ by {
            assert(prev.bindings@[a].name@ != prev.bindings@[b].name@);
        }
        assert forall|x: Seq<char>| #[trigger] self.binds(x) == (prev.binds(x) || x == k) by {
            if self.binds(x) {
                let j = choose|j: int| 0 <= j < self.bindings@.len() && #[trigger] self.bindings@[j].name@ == x;
                assert(prev.bindings@[j].name@ == x);
            }
            if prev.binds(x) {
                let j = choose|j: int| 0 <= j < prev.bindings@.len() && #[trigger] prev.bindings@[j].name@ == x;
                assert(self.bindings@[j].name@ == x);
            }
            if x == k {
                assert(self.bindings@[i].name@ == x);
            }
        }
        assert forall|x: Seq<char>| #[trigger] self.binds(x) implies self.bindings@[self.position(x)].value@
            == prev.insert_value(k, self.bindings@[i].value@, x) by {
            let p = self.position(x);
            if x != k {
                let q = prev.position(x);
                assert(prev.bindings@[q].name@ == x);
                assert(self.bindings@[q].name@ == x);
                assert(p == q);
            } else {
                assert(p == i);
            }
        }
        assert(self@ =~= prev@.insert(k, self.bindings@[i].value@));
    }

    /// The value a name has after another name is bound to `v`.
    spec fn insert_value(self, k: Seq<char>, v: ObjectView, x: Seq<char>) -> ObjectView {
        if x == k {
            v
        } else {
            self.bindings@[self.position(x)].value@
        }
    }

    /// After a binding of a name that was not bound was added, the view maps
    /// that name to its value and is otherwise unchanged.
    proof fn lemma_view_pushed(self, prev: Environment)
        requires
            prev.names_distinct(),
            self.bindings@.len() == prev.bindings@.len() + 1,
            self.bindings@.drop_last() == prev.bindings@,
            !prev.binds(self.bindings@.last().name@),
        ensures
            self.names_distinct(),
            self@ == prev@.insert(self.bindings@.last().name@, self.bindings@.last().value@),
    {
        let n = prev.bindings@.len() as int;
        let k = self.bindings@[n].name@;
        assert forall|a: int| 0 <= a < n implies self.bindings@[a] == prev.bindings@[a] by {
            assert(self.bindings@.drop_last()[a] == self.bindings@[a]);
        }
        assert forall|a: int, b: int| 0 <= a < b < self.bindings@.len() implies #[trigger] self.bindings@[a].name@
            != #[trigger] self.bindings@[b].name@ by {
            if b == n {
                assert(prev.bindings@[a].name@ == self.bindings@[a].name@);
            } else {
                assert(prev.bindings@[a].name@ != prev.bindings@[b].name@);
            }
        }
        assert forall|x: Seq<char>| #[trigger] self.binds(x) == (prev.binds(x) || x == k) by {
            if self.binds(x) {
                let j = choose|j: int| 0 <= j < self.bindings@.len() && #[trigger] self.bindings@[j].name@ == x;
                if j < n {
                    assert(prev.bindings@[j].name@ == x);
                }
            }
            if prev.binds(x) {
                let j = choose|j: int| 0 <= j < prev.bindings@.len() && #[trigger] prev.bindings@[j].name@ == x;
                assert(self.bindings@[j].name@ == x);
            }
            if x == k {
                assert(self.bindings@[n].name@ == x);
            }
        }
        assert forall|x: Seq<char>| #[trigger] self.binds(x) implies self.bindings@[self.position(x)].value@
            == prev.insert_value(k, self.bindings@[n].value@, x) by {
            let p = self.position(x);
            if x != k {
                let q = prev.position(x);
                assert(prev.bindings@[q].name@ == x);
                assert(self.bindings@[q].name@ == x);
                assert(p == q);
            } else {
                assert(p == n);
            }
        }
        assert(self@ =~= prev@.insert(k, self.bindings@[n].value@));
    }
}

/// Reading a variable after binding it gives the value it was bound to,
/// and binding a name leaves every other name as it was.
pub proof fn lemma_define_then_get(env: Map<Seq<char>, ObjectView>, name: Seq<char>, value: ObjectView, other: Seq<char>)
    ensures
        env.insert(name, value).contains_key(name),
        env.insert(name, value)[name] == value,
        other != name ==> (env.insert(name, value).contains_key(other) == env.contains_key(other)),
        other != name && env.contains_key(other) ==> env.insert(name, value)[other] == env[other],
{
}

} // verus!
