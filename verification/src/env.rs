//! The variables and functions that a running script has defined.

use vstd::prelude::*;

use crate::ast::FunctionBody;
use crate::word::copy_bytes;

verus! {

/// What an environment defines: a value for each variable and a body for each function.
pub struct Scope {
    pub vars: Map<Seq<u8>, Seq<u8>>,
    pub funcs: Map<Seq<u8>, FunctionBody>,
}

/// The values that a list of pairs gives to names: the last pair of a name counts.
pub open spec fn values_of(pairs: Seq<(Vec<u8>, Vec<u8>)>) -> Map<Seq<u8>, Seq<u8>>
    decreases pairs.len(),
{
    if pairs.len() == 0 {
        Map::empty()
    } else {
        values_of(pairs.drop_last()).insert(pairs.last().0@, pairs.last().1@)
    }
}

/// The bodies that a list of pairs gives to names: the last pair of a name counts.
pub open spec fn bodies_of(pairs: Seq<(Vec<u8>, &FunctionBody)>) -> Map<Seq<u8>, FunctionBody>
    decreases pairs.len(),
{
    if pairs.len() == 0 {
        Map::empty()
    } else {
        bodies_of(pairs.drop_last()).insert(pairs.last().0@, *pairs.last().1)
    }
}

/// The variables and functions of a running script. Functions are borrowed from its syntax tree.
#[derive(Debug)]
pub struct Environment<'a> {
    vars: Vec<(Vec<u8>, Vec<u8>)>,
    funcs: Vec<(Vec<u8>, &'a FunctionBody)>,
}

impl<'a> View for Environment<'a> {
    type V = Scope;

    closed spec fn view(&self) -> Scope {
        Scope { vars: values_of(self.vars@), funcs: bodies_of(self.funcs@) }
    }
}

/// Giving a new value to the last pair of a name gives the name that value.
proof fn lemma_values_update(pairs: Seq<(Vec<u8>, Vec<u8>)>, i: int, pair: (Vec<u8>, Vec<u8>))
    requires
        0 <= i < pairs.len(),
        pair.0@ == pairs[i].0@,
        forall|j: int| i < j < pairs.len() ==> (#[trigger] pairs[j]).0@ != pair.0@,
    ensures
        values_of(pairs.update(i, pair)) == values_of(pairs).insert(pair.0@, pair.1@),
    decreases pairs.len(),
{
    let updated = pairs.update(i, pair);
    if i == pairs.len() - 1 {
        assert(updated.drop_last() =~= pairs.drop_last());
    } else {
        assert(updated.drop_last() =~= pairs.drop_last().update(i, pair));
        lemma_values_update(pairs.drop_last(), i, pair);
        assert(pairs.last().0@ != pair.0@);
    }
    assert(values_of(updated) =~= values_of(pairs).insert(pair.0@, pair.1@));
}

/// Giving a new body to the last pair of a name gives the name that body.
proof fn lemma_bodies_update(
    pairs: Seq<(Vec<u8>, &FunctionBody)>,
    i: int,
    pair: (Vec<u8>, &FunctionBody),
)
    requires
        0 <= i < pairs.len(),
        pair.0@ == pairs[i].0@,
        forall|j: int| i < j < pairs.len() ==> (#[trigger] pairs[j]).0@ != pair.0@,
    ensures
        bodies_of(pairs.update(i, pair)) == bodies_of(pairs).insert(pair.0@, *pair.1),
    decreases pairs.len(),
{
    let updated = pairs.update(i, pair);
    if i == pairs.len() - 1 {
        assert(updated.drop_last() =~= pairs.drop_last());
    } else {
        assert(updated.drop_last() =~= pairs.drop_last().update(i, pair));
        lemma_bodies_update(pairs.drop_last(), i, pair);
        assert(pairs.last().0@ != pair.0@);
    }
    assert(bodies_of(updated) =~= bodies_of(pairs).insert(pair.0@, *pair.1));
}

/// A name has the body of its last pair.
proof fn lemma_bodies_last(pairs: Seq<(Vec<u8>, &FunctionBody)>, name: Seq<u8>, i: int)
    requires
        -1 <= i < pairs.len(),
        i >= 0 ==> pairs[i].0@ == name,
        forall|j: int| i < j < pairs.len() ==> (#[trigger] pairs[j]).0@ != name,
    ensures
        bodies_of(pairs).contains_key(name) == (i >= 0),
        i >= 0 ==> bodies_of(pairs)[name] == *pairs[i].1,
    decreases pairs.len(),
{
    if pairs.len() > 0 && i < pairs.len() - 1 {
        assert(pairs.last().0@ != name);
        lemma_bodies_last(pairs.drop_last(), name, i);
    }
}

/// Tells whether two byte strings are equal.
fn same_bytes(a: &Vec<u8>, b: &Vec<u8>) -> (same: bool)
    ensures
        same == (a@ == b@),
{
    if a.len() != b.len() {
        return false;
    }
    for i in 0..a.len()
        invariant
            a@.len() == b@.len(),
            forall|j: int| 0 <= j < i ==> a@[j] == b@[j],
    {
        if a[i] != b[i] {
            return false;
        }
    }
    assert(a@ =~= b@);
    true
}

impl<'a> Environment<'a> {
    /// An environment that defines nothing.
    pub fn new() -> (env: Self)
        ensures
            env@.vars == Map::<Seq<u8>, Seq<u8>>::empty(),
            env@.funcs == Map::<Seq<u8>, FunctionBody>::empty(),
    {
        Environment { vars: Vec::new(), funcs: Vec::new() }
    }

    /// Gives the variable a value.
    pub fn set_var(&mut self, name: &Vec<u8>, value: Vec<u8>)
        ensures
            final(self)@.vars == old(self)@.vars.insert(name@, value@),
            final(self)@.funcs == old(self)@.funcs,
    {
        let pair = (copy_bytes(name.as_slice()), value);
        let mut n: usize = self.vars.len();
        while n > 0
            invariant
                n <= self.vars@.len(),
                pair.0@ == name@,
                forall|j: int| n <= j < self.vars@.len() ==> (#[trigger] self.vars@[j]).0@ != name@,
                *self == *old(self),
            ensures
                *self == *old(self),
                n <= self.vars@.len(),
                n > 0 ==> self.vars@[n - 1].0@ == name@,
                forall|j: int| n <= j < self.vars@.len() ==> (#[trigger] self.vars@[j]).0@ != name@,
            decreases n,
        {
            if same_bytes(&self.vars[n - 1].0, name) {
                break;
            }
            n = n - 1;
        }
        if n > 0 {
            proof {
                lemma_values_update(self.vars@, n - 1, pair);
            }
            self.vars.set(n - 1, pair);
        } else {
            self.vars.push(pair);
            assert(self.vars@.drop_last() =~= old(self).vars@);
        }
    }

    /// Gives the function a body.
    pub fn set_func(&mut self, name: &Vec<u8>, body: &'a FunctionBody)
        ensures
            final(self)@.vars == old(self)@.vars,
            final(self)@.funcs == old(self)@.funcs.insert(name@, *body),
    {
        let pair = (copy_bytes(name.as_slice()), body);
        let mut n: usize = self.funcs.len();
        while n > 0
            invariant
                n <= self.funcs@.len(),
                forall|j: int|
                    n <= j < self.funcs@.len() ==> (#[trigger] self.funcs@[j]).0@ != name@,
                *self == *old(self),
            ensures
                *self == *old(self),
                n <= self.funcs@.len(),
                n > 0 ==> self.funcs@[n - 1].0@ == name@,
                forall|j: int|
                    n <= j < self.funcs@.len() ==> (#[trigger] self.funcs@[j]).0@ != name@,
            decreases n,
        {
            if same_bytes(&self.funcs[n - 1].0, name) {
                break;
            }
            n = n - 1;
        }
        if n > 0 {
            proof {
                lemma_bodies_update(self.funcs@, n - 1, pair);
            }
            self.funcs.set(n - 1, pair);
        } else {
            self.funcs.push(pair);
            assert(self.funcs@.drop_last() =~= old(self).funcs@);
        }
    }

    /// The body of the function, where it is defined.
    pub fn get_func(&self, name: &Vec<u8>) -> (body: Option<&'a FunctionBody>)
        ensures
            body is Some == self@.funcs.contains_key(name@),
            body matches Some(body) ==> *body == self@.funcs[name@],
    {
        let mut n: usize = self.funcs.len();
        while n > 0
            invariant
                n <= self.funcs@.len(),
                forall|j: int|
                    n <= j < self.funcs@.len() ==> (#[trigger] self.funcs@[j]).0@ != name@,
            decreases n,
        {
            if same_bytes(&self.funcs[n - 1].0, name) {
                proof {
                    lemma_bodies_last(self.funcs@, name@, n - 1);
                }
                return Some(self.funcs[n - 1].1);
            }
            n = n - 1;
        }
        proof {
            lemma_bodies_last(self.funcs@, name@, -1);
        }
        None
    }

    /// The variables with their values, as pairs of which the last of a name counts.
    pub fn iter(&self) -> (pairs: Vec<(Vec<u8>, Vec<u8>)>)
        ensures
            values_of(pairs@) == self@.vars,
    {
        let mut pairs: Vec<(Vec<u8>, Vec<u8>)> = Vec::new();
        for i in 0..self.vars.len()
            invariant
                pairs@.len() == i,
                values_of(pairs@) == values_of(self.vars@.take(i as int)),
        {
            let ghost before = pairs@;
            let name = copy_bytes(self.vars[i].0.as_slice());
            let value = copy_bytes(self.vars[i].1.as_slice());
            pairs.push((name, value));
            assert(pairs@.drop_last() =~= before);
            assert(self.vars@.take(i + 1).drop_last() =~= self.vars@.take(i as int));
        }
        assert(self.vars@.take(self.vars@.len() as int) =~= self.vars@);
        pairs
    }
}

} // verus!
