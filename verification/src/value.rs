//! Run-time values and the environment that binds names to them.

use vstd::prelude::*;
use crate::token::{duplicate_all, duplicate_names, names_of, nodes_of, Node, Token};

verus! {

/// A run-time value.
#[derive(Debug, PartialEq)]
pub enum StrawberryValue {
    String(String),
    /// A number, as the bit pattern of a 64-bit binary floating-point value.
    Number(u64),
    Boolean(bool),
    /// An operation of the host, known by its label.
    NativeFunction(String),
    /// A function of the program: its name, its parameters and its body.
    Function(String, Vec<String>, Vec<Token>),
    /// A block that has not been evaluated.
    Block(Vec<Token>),
    Empty,
}

/// The mathematical content of a [`StrawberryValue`].
pub ghost enum Value {
    String(Seq<char>),
    Number(u64),
    Boolean(bool),
    NativeFunction(Seq<char>),
    Function(Seq<char>, Seq<Seq<char>>, Seq<Node>),
    Block(Seq<Node>),
    Empty,
}

impl View for StrawberryValue {
    type V = Value;

    open spec fn view(&self) -> Value {
        match self {
            StrawberryValue::String(text) => Value::String(text@),
            StrawberryValue::Number(bits) => Value::Number(*bits),
            StrawberryValue::Boolean(value) => Value::Boolean(*value),
            StrawberryValue::NativeFunction(label) => Value::NativeFunction(label@),
            StrawberryValue::Function(name, parameters, body) => Value::Function(
                name@,
                names_of(*parameters),
                nodes_of(*body),
            ),
            StrawberryValue::Block(body) => Value::Block(nodes_of(*body)),
            StrawberryValue::Empty => Value::Empty,
        }
    }
}

impl StrawberryValue {
    /// A copy with the same content.
    pub fn duplicate(&self) -> (copy: StrawberryValue)
        ensures
            copy@ == self@,
    {
        match self {
            StrawberryValue::String(text) => StrawberryValue::String(text.clone()),
            StrawberryValue::Number(bits) => StrawberryValue::Number(*bits),
            StrawberryValue::Boolean(value) => StrawberryValue::Boolean(*value),
            StrawberryValue::NativeFunction(label) => StrawberryValue::NativeFunction(
                label.clone(),
            ),
            StrawberryValue::Function(name, parameters, body) => StrawberryValue::Function(
                name.clone(),
                duplicate_names(parameters),
                duplicate_all(body),
            ),
            StrawberryValue::Block(body) => StrawberryValue::Block(duplicate_all(body)),
            StrawberryValue::Empty => StrawberryValue::Empty,
        }
    }
}

impl Clone for StrawberryValue {
    fn clone(&self) -> (copy: Self)
        ensures
            copy@ == self@,
    {
        self.duplicate()
    }
}

/// The content of each value of `values`.
pub open spec fn values_of(values: Vec<StrawberryValue>) -> Seq<Value> {
    Seq::new(values.len() as nat, |i: int| values[i]@)
}

/// What an environment holds: the value of each name that is bound.
pub type Bindings = Map<Seq<char>, Value>;

/// A mapping from names to values. No name is bound twice: binding a name
/// that is bound already replaces its value.
#[derive(Debug)]
pub struct Environment {
    entries: Vec<(String, StrawberryValue)>,
}

impl Environment {
    #[verifier::type_invariant]
    spec fn distinct(&self) -> bool {
        forall|i: int, j: int|
            0 <= i < j < self.entries.len() ==> (#[trigger] self.entries[i]).0@
                != (#[trigger] self.entries[j]).0@
    }

    spec fn binds(&self, name: Seq<char>, i: int) -> bool {
        0 <= i < self.entries.len() && self.entries[i].0@ == name
    }

    /// The value of each name that is bound.
    pub closed spec fn view(&self) -> Bindings {
        Map::new(
            |name: Seq<char>| exists|i: int| self.binds(name, i),
            |name: Seq<char>| self.entries[choose|i: int| self.binds(name, i)].1@,
        )
    }

    /// An environment that binds nothing.
    pub fn new() -> (environment: Self)
        ensures
            environment@ == Map::<Seq<char>, Value>::empty(),
    {
        let environment = Environment { entries: Vec::new() };
        assert(environment@ =~= Map::<Seq<char>, Value>::empty());
        environment
    }

    fn find(&self, name: &String) -> (found: Option<usize>)
        ensures
            match found {
                Some(i) => self.binds(name@, i as int),
                None => forall|i: int| !self.binds(name@, i),
            },
    {
        let mut i: usize = 0;
        while i < self.entries.len()
            invariant
                i <= self.entries.len(),
                forall|j: int| 0 <= j < i ==> !self.binds(name@, j),
            decreases self.entries.len() - i,
        {
            if self.entries[i].0 == *name {
                return Some(i);
            }
            i += 1;
        }
        None
    }

    /// The value bound to `name`, if any.
    pub fn get(&self, name: &String) -> (value: Option<&StrawberryValue>)
        ensures
            match value {
                Some(value) => self@.contains_key(name@) && self@[name@] == value@,
                None => !self@.contains_key(name@),
            },
    {
        proof {
            use_type_invariant(self);
        }
        match self.find(name) {
            Some(i) => {
                assert(self.binds(name@, i as int));
                Some(&self.entries[i].1)
            },
            None => None,
        }
    }

    /// Binds `name` to `value`, in place of what it was bound to.
    pub fn insert(&mut self, name: String, value: StrawberryValue)
        ensures
            final(self)@ == old(self)@.insert(name@, value@),
    {
        proof {
            use_type_invariant(&*self);
        }
        let ghost before = *self;
        let found = self.find(&name);
        let mut taken = Environment { entries: Vec::new() };
        std::mem::swap(self, &mut taken);
        let mut entries = taken.entries;
        match found {
            Some(i) => {
                entries.set(i, (name, value));
                let after = Environment { entries };
                assert forall|key: Seq<char>, j: int| after.binds(key, j) == before.binds(key, j) by {}
                assert(after@ =~= before@.insert(name@, value@)) by {
                    assert(after.binds(name@, i as int));
                    assert forall|key: Seq<char>| #[trigger]
                        after@.contains_key(key) && key != name@ implies after@[key]
                        == before@[key] by {
                        let a = choose|j: int| after.binds(key, j);
                        assert(before.binds(key, a));
                    }
                }
                *self = after;
            },
            None => {
                let ghost last = before.entries.len() as int;
                let ghost key = name@;
                entries.push((name, value));
                assert forall|i: int, j: int| 0 <= i < j < entries.len() implies (
                #[trigger] entries[i]).0@ != (#[trigger] entries[j]).0@ by {
                    if j == last {
                        assert(!before.binds(key, i));
                    } else {
                        assert(before.entries[i].0@ != before.entries[j].0@);
                    }
                }
                let after = Environment { entries };
                assert forall|key: Seq<char>, j: int| before.binds(key, j) implies after.binds(
                    key,
                    j,
                ) by {}
                assert(after@ =~= before@.insert(name@, value@)) by {
                    assert(after.binds(name@, last));
                    assert forall|key: Seq<char>| #[trigger]
                        after@.contains_key(key) && key != name@ implies before@.contains_key(key)
                        && after@[key] == before@[key] by {
                        let a = choose|j: int| after.binds(key, j);
                        assert(before.binds(key, a));
                        let b = choose|j: int| before.binds(key, j);
                        assert(after.binds(key, b));
                    }
                    assert forall|key: Seq<char>| #[trigger]
                        before@.contains_key(key) implies after@.contains_key(key) by {
                        let b = choose|j: int| before.binds(key, j);
                        assert(after.binds(key, b));
                    }
                }
                *self = after;
            },
        }
    }

    /// A copy with the same bindings.
    pub fn duplicate(&self) -> (copy: Environment)
        ensures
            copy@ == self@,
    {
        proof {
            use_type_invariant(self);
        }
        let mut entries: Vec<(String, StrawberryValue)> = Vec::new();
        let mut i: usize = 0;
        while i < self.entries.len()
            invariant
                i <= self.entries.len(),
                entries.len() == i,
                forall|j: int|
                    0 <= j < i ==> (#[trigger] entries[j]).0@ == self.entries[j].0@ && entries[j].1@
                        == self.entries[j].1@,
            decreases self.entries.len() - i,
        {
            entries.push((self.entries[i].0.clone(), self.entries[i].1.duplicate()));
            i += 1;
        }
        let copy = Environment { entries };
        assert(copy@ =~= self@) by {
            assert forall|key: Seq<char>, j: int| copy.binds(key, j) == self.binds(key, j) by {}
        }
        copy
    }

    /// How many names are bound.
    pub fn len(&self) -> (count: usize)
        ensures
            count == self@.dom().len(),
    {
        proof {
            use_type_invariant(self);
            self.lemma_count(self.entries.len() as int);
            assert(self.prefix(self.entries.len() as int) =~= self@.dom());
        }
        self.entries.len()
    }

    spec fn prefix(&self, n: int) -> Set<Seq<char>> {
        Set::new(|name: Seq<char>| exists|i: int| 0 <= i < n && self.binds(name, i))
    }

    proof fn lemma_count(&self, n: int)
        requires
            self.distinct(),
            0 <= n <= self.entries.len(),
        ensures
            self.prefix(n).finite(),
            self.prefix(n).len() == n,
        decreases n,
    {
        if n == 0 {
            assert(self.prefix(0) =~= Set::<Seq<char>>::empty());
        } else {
            self.lemma_count(n - 1);
            let name = self.entries[n - 1].0@;
            assert(self.binds(name, n - 1));
            assert(self.prefix(n) =~= self.prefix(n - 1).insert(name));
            assert(!self.prefix(n - 1).contains(name));
        }
    }
}

impl Clone for Environment {
    fn clone(&self) -> (copy: Self)
        ensures
            copy@ == self@,
    {
        self.duplicate()
    }
}

} // verus!
