//! The value that a parser reports, and the three ways in which combinators shape it.

use vstd::prelude::*;

verus! {

/// What a successful parse contributes.
#[derive(Debug, PartialEq)]
pub enum Value {
    /// Input was consumed, nothing is reported.
    Empty,
    /// A captured piece of text.
    Leaf(String),
    /// Several values, in the order they were parsed.
    List(Vec<Value>),
}

/// The mathematical content of a [`Value`].
pub ghost enum Tree {
    Empty,
    Leaf(Seq<char>),
    List(Seq<Tree>),
}

impl View for Value {
    type V = Tree;

    open spec fn view(&self) -> Tree
        decreases self,
    {
        match self {
            Value::Empty => Tree::Empty,
            Value::Leaf(text) => Tree::Leaf(text@),
            Value::List(items) => Tree::List(
                Seq::new(
                    items.len() as nat,
                    |i: int|
                        if 0 <= i < items.len() {
                            items[i]@
                        } else {
                            Tree::Empty
                        },
                ),
            ),
        }
    }
}

/// The trees of a sequence of values, one for one.
pub open spec fn trees(items: Seq<Value>) -> Seq<Tree> {
    Seq::new(items.len(), |i: int| items[i]@)
}

/// What a value adds to the list that a repetition collects: nothing if it is empty,
/// itself otherwise.
pub open spec fn kept(t: Tree) -> Seq<Tree> {
    if t is Empty {
        Seq::empty()
    } else {
        seq![t]
    }
}

/// The value of a sequence of two parsers: the list of the two values where neither
/// is empty, else the one that is not empty, else empty.
pub open spec fn joined(first: Tree, second: Tree) -> Tree {
    if first is Empty {
        second
    } else if second is Empty {
        first
    } else {
        Tree::List(seq![first, second])
    }
}

/// A non-empty value wrapped as a list of one; an empty one stays empty.
pub open spec fn promoted(t: Tree) -> Tree {
    if t is Empty {
        Tree::Empty
    } else {
        Tree::List(seq![t])
    }
}

/// What one element of a list turns into when the list is flattened: the elements
/// of an inner list as they are, nothing for an empty value, a leaf itself.
pub open spec fn spliced(t: Tree) -> Seq<Tree> {
    match t {
        Tree::List(inner) => inner,
        Tree::Empty => Seq::empty(),
        Tree::Leaf(_) => seq![t],
    }
}

/// The elements of a list after every inner list was opened, one level deep.
pub open spec fn spliced_all(items: Seq<Tree>) -> Seq<Tree> {
    items.map_values(|t: Tree| spliced(t)).flatten()
}

/// A list with its inner lists opened one level and its empty elements dropped;
/// empty if nothing is left. A value that is no list is unchanged.
pub open spec fn flattened(t: Tree) -> Tree {
    match t {
        Tree::List(items) => if spliced_all(items).len() == 0 {
            Tree::Empty
        } else {
            Tree::List(spliced_all(items))
        },
        _ => t,
    }
}

/// The view of a list is the list of its elements' views.
pub proof fn list_view(items: Vec<Value>)
    ensures
        Value::List(items)@ == Tree::List(trees(items@)),
{
    assert(Value::List(items)@->List_0 =~= trees(items@));
}

impl Clone for Value {
    /// A copy with the same content.
    fn clone(&self) -> (r: Value)
        ensures
            r@ == self@,
        decreases self,
    {
        match self {
            Value::Empty => Value::Empty,
            Value::Leaf(text) => Value::Leaf(text.clone()),
            Value::List(items) => {
                let mut copies: Vec<Value> = Vec::new();
                let mut i: usize = 0;
                while i < items.len()
                    invariant
                        i <= items.len(),
                        copies.len() == i,
                        forall|j: int| 0 <= j < i ==> copies[j]@ == items[j]@,
                        *self == Value::List(*items),
                    decreases items.len() - i,
                {
                    assert(decreases_to!(*self => self->List_0));
                    assert(decreases_to!(*items => items[i as int]));
                    copies.push(items[i].clone());
                    i += 1;
                }
                proof {
                    list_view(*items);
                    list_view(copies);
                    assert(trees(copies@) =~= trees(items@));
                }
                Value::List(copies)
            },
        }
    }
}

impl Value {
    /// Whether the value reports nothing.
    pub fn is_empty(&self) -> (b: bool)
        ensures
            b == (self@ is Empty),
    {
        match self {
            Value::Empty => true,
            _ => false,
        }
    }

    /// The value of `self` followed by `second`, as a sequence of two parsers reports it.
    pub fn join(self, second: Value) -> (r: Value)
        ensures
            r@ == joined(self@, second@),
    {
        if self.is_empty() {
            second
        } else if second.is_empty() {
            self
        } else {
            let ghost a = self@;
            let ghost b = second@;
            let mut both: Vec<Value> = Vec::new();
            both.push(self);
            both.push(second);
            proof {
                list_view(both);
                assert(trees(both@) =~= seq![a, b]);
            }
            Value::List(both)
        }
    }

    /// Wraps a non-empty value as a list of one.
    pub fn promote(self) -> (r: Value)
        ensures
            r@ == promoted(self@),
    {
        if self.is_empty() {
            self
        } else {
            let ghost a = self@;
            let mut one: Vec<Value> = Vec::new();
            one.push(self);
            proof {
                list_view(one);
                assert(trees(one@) =~= seq![a]);
            }
            Value::List(one)
        }
    }

    /// Opens the inner lists of a list, one level deep, and drops its empty elements.
    pub fn flatten(self) -> (r: Value)
        ensures
            r@ == flattened(self@),
    {
        match self {
            Value::List(items) => {
                let ghost whole = trees(items@);
                proof {
                    list_view(items);
                }
                let mut out: Vec<Value> = Vec::new();
                for item in it: items
                    invariant
                        it.seq() == items@,
                        whole == trees(items@),
                        trees(out@) == spliced_all(whole.take(it.index() as int)),
                {
                    let ghost before = out@;
                    let ghost t = item@;
                    match item {
                        Value::List(mut inner) => {
                            proof {
                                list_view(inner);
                            }
                            out.append(&mut inner);
                        },
                        Value::Empty => {},
                        leaf => {
                            out.push(leaf);
                        },
                    }
                    proof {
                        let k = it.index() as int;
                        assert(0 <= k < whole.len() && whole[k] == t);
                        assert(trees(out@) =~= trees(before) + spliced(t));
                        assert(whole.take(k + 1) =~= whole.take(k).push(whole[k]));
                        let pieces = whole.take(k).map_values(|t: Tree| spliced(t));
                        assert(whole.take(k + 1).map_values(|t: Tree| spliced(t)) =~= pieces.push(
                            spliced(t),
                        ));
                        pieces.lemma_flatten_push(spliced(t));
                    }
                }
                proof {
                    assert(whole.take(items@.len() as int) =~= whole);
                    list_view(out);
                }
                if out.len() == 0 {
                    Value::Empty
                } else {
                    Value::List(out)
                }
            },
            other => other,
        }
    }
}

} // verus!
