//! What holds of every grammar on every input.

use crate::grammar::{eval, eval_repeat, Grammar};
use crate::outcome::{merged, run_of, trailing_input, Failure, Hit, Miss, Success};
use crate::parser::parse_result;
use crate::value::{kept, spliced, spliced_all, Tree};
use vstd::prelude::*;

verus! {

/// A parse is a function of the grammar and the input: two parses of one input by
/// one grammar end alike, in the same success or the same failure, or both without
/// an outcome.
pub proof fn parse_is_repeatable(
    g: Grammar,
    input: Seq<char>,
    first: Option<Result<Success, Failure>>,
    second: Option<Result<Success, Failure>>,
)
    requires
        run_of(first) == parse_result(g, input),
        run_of(second) == parse_result(g, input),
    ensures
        run_of(first) == run_of(second),
{
}

/// Whether the grammar is built without a reference to the root.
pub open spec fn rootless(g: Grammar) -> bool
    decreases g,
{
    match g {
        Grammar::Atom { .. } => true,
        Grammar::Root => false,
        Grammar::And(p, q) => rootless(*p) && rootless(*q),
        Grammar::Or(p, q) => rootless(*p) && rootless(*q),
        Grammar::Repeat(p) => rootless(*p),
        Grammar::List(p) => rootless(*p),
        Grammar::Flat(p) => rootless(*p),
    }
}

/// A grammar without a reference to the root has the same outcome whatever parse it
/// is part of.
pub proof fn rootless_ignores_root(
    g: Grammar,
    input: Seq<char>,
    position: int,
    root1: Grammar,
    entry1: int,
    root2: Grammar,
    entry2: int,
)
    requires
        rootless(g),
    ensures
        eval(g, root1, input, position, entry1) == eval(g, root2, input, position, entry2),
    decreases g, 0nat,
{
    match g {
        Grammar::Atom { .. } => {},
        Grammar::Root => {},
        Grammar::And(p, q) => {
            rootless_ignores_root(*p, input, position, root1, entry1, root2, entry2);
            match eval(*p, root1, input, position, entry1) {
                Some(Ok(first)) => {
                    rootless_ignores_root(*q, input, first.position, root1, entry1, root2, entry2);
                },
                _ => {},
            }
        },
        Grammar::Or(p, q) => {
            rootless_ignores_root(*p, input, position, root1, entry1, root2, entry2);
            rootless_ignores_root(*q, input, position, root1, entry1, root2, entry2);
        },
        Grammar::Repeat(p) => {
            rootless_repeat_ignores_root(
                *p,
                input,
                position,
                Seq::empty(),
                root1,
                entry1,
                root2,
                entry2,
            );
        },
        Grammar::List(p) => {
            rootless_ignores_root(*p, input, position, root1, entry1, root2, entry2);
        },
        Grammar::Flat(p) => {
            rootless_ignores_root(*p, input, position, root1, entry1, root2, entry2);
        },
    }
}

/// The same of a repetition under way.
pub proof fn rootless_repeat_ignores_root(
    p: Grammar,
    input: Seq<char>,
    position: int,
    found: Seq<Tree>,
    root1: Grammar,
    entry1: int,
    root2: Grammar,
    entry2: int,
)
    requires
        rootless(p),
    ensures
        eval_repeat(p, root1, input, position, entry1, found) == eval_repeat(
            p,
            root2,
            input,
            position,
            entry2,
            found,
        ),
    decreases p, 1 + input.len() - position,
{
    if position <= input.len() {
        rootless_ignores_root(p, input, position, root1, entry1, root2, entry2);
        match eval(p, root1, input, position, entry1) {
            Some(Ok(hit)) => {
                if position < hit.position <= input.len() {
                    rootless_repeat_ignores_root(
                        p,
                        input,
                        hit.position,
                        found + kept(hit.value),
                        root1,
                        entry1,
                        root2,
                        entry2,
                    );
                }
            },
            _ => {},
        }
    }
}

/// An atom that fails, fails at the place where it was applied, and expects its pattern.
pub proof fn atom_fails_in_place(
    pattern: Seq<char>,
    group: int,
    root: Grammar,
    input: Seq<char>,
    position: int,
    entry: int,
)
    ensures
        eval(Grammar::Atom { pattern, group }, root, input, position, entry) matches Some(
            Err(miss),
        ) ==> miss == (Miss { position, expected: seq![pattern] }),
{
}

/// An atom without a capture reports nothing; one with a capture reports a piece of text.
pub proof fn atom_reports_its_capture(
    pattern: Seq<char>,
    group: int,
    root: Grammar,
    input: Seq<char>,
    position: int,
    entry: int,
)
    ensures
        eval(Grammar::Atom { pattern, group }, root, input, position, entry) matches Some(
            Ok(hit),
        ) ==> if group < 0 {
            hit.value is Empty
        } else {
            hit.value is Leaf
        },
{
}

/// A parse that succeeds has come to the end of the input or beyond; one that stopped
/// before the end fails at the place where it stopped, for the trailing input.
pub proof fn parse_asks_for_the_whole_input(g: Grammar, input: Seq<char>)
    ensures
        parse_result(g, input) matches Some(Ok(hit)) ==> hit.position >= input.len(),
        eval(g, g, input, 0, 0) matches Some(Ok(hit)) ==> (hit.position < input.len()
            ==> parse_result(g, input) == Some(
            Err::<Hit, Miss>(Miss { position: hit.position, expected: seq![trailing_input()] }),
        )),
{
}

/// Where both sides of a choice fail, the choice fails at the further of the two
/// positions. It expects what the side that came further expected, and where both came
/// equally far, what the first expected followed by what the second expected.
pub proof fn choice_fails_furthest(
    p: Grammar,
    q: Grammar,
    root: Grammar,
    input: Seq<char>,
    position: int,
    entry: int,
    a: Miss,
    b: Miss,
)
    requires
        eval(p, root, input, position, entry) == Some(Err::<Hit, Miss>(a)),
        eval(q, root, input, position, entry) == Some(Err::<Hit, Miss>(b)),
    ensures
        eval(Grammar::Or(Box::new(p), Box::new(q)), root, input, position, entry) == Some(
            Err::<Hit, Miss>(merged(a, b)),
        ),
        merged(a, b).position == if a.position >= b.position {
            a.position
        } else {
            b.position
        },
        a.position > b.position ==> merged(a, b).expected == a.expected,
        a.position < b.position ==> merged(a, b).expected == b.expected,
        a.position == b.position ==> merged(a, b).expected == a.expected + b.expected,
{
    assert(Seq::<Seq<char>>::empty() + b.expected =~= b.expected);
    assert(a.expected + Seq::<Seq<char>>::empty() =~= a.expected);
}

/// A reference to the root runs the root at the same place, and is the root's outcome
/// there, provided that the parse has moved on since it entered the root.
pub proof fn root_runs_the_root(root: Grammar, input: Seq<char>, position: int, entry: int)
    ensures
        eval(Grammar::Root, root, input, position, entry) == if entry < position <= input.len() {
            eval(root, root, input, position, position)
        } else {
            None
        },
{
}

/// A sequence fails as its first parser fails, and otherwise as its second parser
/// fails where the first ended.
pub proof fn sequence_fails_first(
    p: Grammar,
    q: Grammar,
    root: Grammar,
    input: Seq<char>,
    position: int,
    entry: int,
)
    ensures
        ({
            let both = eval(Grammar::And(Box::new(p), Box::new(q)), root, input, position, entry);
            match eval(p, root, input, position, entry) {
                Some(Err(miss)) => both == Some(Err::<Hit, Miss>(miss)),
                Some(Ok(first)) => match eval(q, root, input, first.position, entry) {
                    Some(Err(miss)) => both == Some(Err::<Hit, Miss>(miss)),
                    Some(Ok(second)) => both matches Some(Ok(hit)) && hit.position
                        == second.position,
                    None => both is None,
                },
                None => both is None,
            }
        }),
{
}

/// A choice is decided by its first parser wherever that succeeds.
pub proof fn choice_prefers_first(
    p: Grammar,
    q: Grammar,
    root: Grammar,
    input: Seq<char>,
    position: int,
    entry: int,
    hit: Hit,
)
    requires
        eval(p, root, input, position, entry) == Some(Ok::<Hit, Miss>(hit)),
    ensures
        eval(Grammar::Or(Box::new(p), Box::new(q)), root, input, position, entry) == Some(
            Ok::<Hit, Miss>(hit),
        ),
{
}

/// A repetition never fails, and what it reports is a list: the values collected
/// before, followed by those of the rounds still made.
pub proof fn repetition_never_fails(
    p: Grammar,
    root: Grammar,
    input: Seq<char>,
    position: int,
    entry: int,
    found: Seq<Tree>,
)
    ensures
        !(eval_repeat(p, root, input, position, entry, found) matches Some(Err(_))),
        eval_repeat(p, root, input, position, entry, found) matches Some(Ok(hit)) ==> position
            <= hit.position <= input.len() && (hit.value matches Tree::List(items)
            && found.is_prefix_of(items)),
    decreases 1 + input.len() - position,
{
    if position <= input.len() {
        match eval(p, root, input, position, entry) {
            Some(Ok(hit)) => {
                if position < hit.position <= input.len() {
                    repetition_never_fails(
                        p,
                        root,
                        input,
                        hit.position,
                        entry,
                        found + kept(hit.value),
                    );
                }
            },
            _ => {},
        }
    }
}

/// The same of the repetition as a grammar: it ends in a success whose value is a
/// list, or it has no outcome.
pub proof fn repeat_yields_list(
    p: Grammar,
    root: Grammar,
    input: Seq<char>,
    position: int,
    entry: int,
)
    ensures
        match eval(Grammar::Repeat(Box::new(p)), root, input, position, entry) {
            Some(Ok(hit)) => hit.value is List,
            Some(Err(_)) => false,
            None => true,
        },
{
    repetition_never_fails(p, root, input, position, entry, Seq::empty());
}

/// A success never ends before the place where the parser began.
pub proof fn success_moves_forward(
    g: Grammar,
    root: Grammar,
    input: Seq<char>,
    position: int,
    entry: int,
)
    ensures
        eval(g, root, input, position, entry) matches Some(Ok(hit)) ==> position <= hit.position,
    decreases input.len() - entry, g, 0nat,
{
    match g {
        Grammar::Atom { .. } => {},
        Grammar::Root => {
            if entry < position <= input.len() {
                success_moves_forward(root, root, input, position, position);
            }
        },
        Grammar::And(p, q) => {
            success_moves_forward(*p, root, input, position, entry);
            match eval(*p, root, input, position, entry) {
                Some(Ok(first)) => {
                    success_moves_forward(*q, root, input, first.position, entry);
                },
                _ => {},
            }
        },
        Grammar::Or(p, q) => {
            success_moves_forward(*p, root, input, position, entry);
            success_moves_forward(*q, root, input, position, entry);
        },
        Grammar::Repeat(p) => {
            repetition_never_fails(*p, root, input, position, entry, Seq::empty());
        },
        Grammar::List(p) => {
            success_moves_forward(*p, root, input, position, entry);
        },
        Grammar::Flat(p) => {
            success_moves_forward(*p, root, input, position, entry);
        },
    }
}

/// Whether no list in the value, at any depth, holds an empty value.
pub open spec fn dense(t: Tree) -> bool
    decreases t,
{
    match t {
        Tree::List(items) => forall|i: int|
            0 <= i < items.len() ==> !(#[trigger] items[i] is Empty) && dense(items[i]),
        _ => true,
    }
}

/// Whether the values are dense and none of them is empty.
pub open spec fn all_dense(items: Seq<Tree>) -> bool {
    forall|i: int| 0 <= i < items.len() ==> !(#[trigger] items[i] is Empty) && dense(items[i])
}

/// Opening the inner lists of dense values that are not empty leaves such values.
pub proof fn spliced_all_dense(items: Seq<Tree>)
    requires
        all_dense(items),
    ensures
        all_dense(spliced_all(items)),
    decreases items.len(),
{
    if items.len() == 0 {
        assert(items.map_values(|t: Tree| spliced(t)) =~= Seq::<Seq<Tree>>::empty());
    } else {
        let front = items.drop_last();
        let last = items.last();
        spliced_all_dense(front);
        let pieces = front.map_values(|t: Tree| spliced(t));
        assert(items.map_values(|t: Tree| spliced(t)) =~= pieces.push(spliced(last)));
        pieces.lemma_flatten_push(spliced(last));
        assert(spliced_all(items) =~= spliced_all(front) + spliced(last));
        assert(all_dense(spliced(last))) by {
            assert(dense(last));
        }
    }
}

/// Every value that a grammar reports is dense: the combinators drop empty values
/// where they build lists.
pub proof fn values_are_dense(
    g: Grammar,
    root: Grammar,
    input: Seq<char>,
    position: int,
    entry: int,
)
    ensures
        eval(g, root, input, position, entry) matches Some(Ok(hit)) ==> dense(hit.value),
    decreases input.len() - entry, g, 0nat,
{
    match g {
        Grammar::Atom { .. } => {},
        Grammar::Root => {
            if entry < position <= input.len() {
                values_are_dense(root, root, input, position, position);
            }
        },
        Grammar::And(p, q) => {
            values_are_dense(*p, root, input, position, entry);
            match eval(*p, root, input, position, entry) {
                Some(Ok(first)) => {
                    values_are_dense(*q, root, input, first.position, entry);
                },
                _ => {},
            }
        },
        Grammar::Or(p, q) => {
            values_are_dense(*p, root, input, position, entry);
            values_are_dense(*q, root, input, position, entry);
        },
        Grammar::Repeat(p) => {
            repetition_is_dense(*p, root, input, position, entry, Seq::empty());
        },
        Grammar::List(p) => {
            values_are_dense(*p, root, input, position, entry);
        },
        Grammar::Flat(p) => {
            values_are_dense(*p, root, input, position, entry);
            match eval(*p, root, input, position, entry) {
                Some(Ok(hit)) => {
                    if let Tree::List(items) = hit.value {
                        spliced_all_dense(items);
                    }
                },
                _ => {},
            }
        },
    }
}

/// The same of a repetition under way.
pub proof fn repetition_is_dense(
    p: Grammar,
    root: Grammar,
    input: Seq<char>,
    position: int,
    entry: int,
    found: Seq<Tree>,
)
    requires
        all_dense(found),
    ensures
        eval_repeat(p, root, input, position, entry, found) matches Some(Ok(hit)) ==> dense(
            hit.value,
        ),
    decreases input.len() - entry, p, 1 + input.len() - position,
{
    if position <= input.len() {
        values_are_dense(p, root, input, position, entry);
        match eval(p, root, input, position, entry) {
            Some(Ok(hit)) => {
                if position < hit.position <= input.len() {
                    repetition_is_dense(
                        p,
                        root,
                        input,
                        hit.position,
                        entry,
                        found + kept(hit.value),
                    );
                }
            },
            _ => {},
        }
    }
}

} // verus!
