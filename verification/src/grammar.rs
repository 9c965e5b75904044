//! What a grammar means: the outcome of every parser on every input, as mathematics.

use crate::atom::{anchored, atom_result, regex_captures};
use crate::outcome::{merged, Hit, Miss};
use crate::value::{flattened, joined, kept, promoted, Tree};
use vstd::prelude::*;

verus! {

/// The shape of a parser.
pub ghost enum Grammar {
    /// A pattern, and the capture asked for (none if negative).
    Atom { pattern: Seq<char>, group: int },
    /// The parser that the running parse was started on.
    Root,
    /// One parser, then another where the first ended.
    And(Box<Grammar>, Box<Grammar>),
    /// One parser, or else another at the same place.
    Or(Box<Grammar>, Box<Grammar>),
    /// One parser, as often as it matches.
    Repeat(Box<Grammar>),
    /// One parser, its value wrapped as a list.
    List(Box<Grammar>),
    /// One parser, its list value flattened.
    Flat(Box<Grammar>),
}

/// The outcome of the grammar `g` on `input` from `position` on, within a parse that
/// was started on `root`; `None` where there is none.
///
/// `entry` is the position at which `root` was entered last. A run has no outcome
/// where it would never end: where it comes back to the root at the position at which
/// it entered it, or where the parser under a repetition matches without moving on.
/// It has none either where an atom's capture group took no part in its match.
pub open spec fn eval(g: Grammar, root: Grammar, input: Seq<char>, position: int, entry: int) -> Option<
    Result<Hit, Miss>,
>
    decreases input.len() - entry, g, 0nat,
{
    match g {
        Grammar::Atom { pattern, group } => atom_result(
            pattern,
            group,
            position,
            regex_captures(anchored(pattern), input.skip(position)),
        ),
        Grammar::Root => if entry < position <= input.len() {
            eval(root, root, input, position, position)
        } else {
            None
        },
        Grammar::And(p, q) => match eval(*p, root, input, position, entry) {
            Some(Ok(first)) => match eval(*q, root, input, first.position, entry) {
                Some(Ok(second)) => Some(
                    Ok(
                        Hit {
                            position: second.position,
                            value: joined(first.value, second.value),
                        },
                    ),
                ),
                other => other,
            },
            other => other,
        },
        Grammar::Or(p, q) => match eval(*p, root, input, position, entry) {
            Some(Err(first)) => match eval(*q, root, input, position, entry) {
                Some(Err(second)) => Some(Err(merged(first, second))),
                other => other,
            },
            other => other,
        },
        Grammar::Repeat(p) => eval_repeat(*p, root, input, position, entry, Seq::empty()),
        Grammar::List(p) => match eval(*p, root, input, position, entry) {
            Some(Ok(hit)) => Some(Ok(Hit { position: hit.position, value: promoted(hit.value) })),
            other => other,
        },
        Grammar::Flat(p) => match eval(*p, root, input, position, entry) {
            Some(Ok(hit)) => Some(Ok(Hit { position: hit.position, value: flattened(hit.value) })),
            other => other,
        },
    }
}

/// The outcome of a repetition of `p` that has reached `position` and has collected
/// `found` so far: it goes on while `p` matches, and ends where `p` fails, with a
/// success at that place whose value is the list of what was collected.
pub open spec fn eval_repeat(
    p: Grammar,
    root: Grammar,
    input: Seq<char>,
    position: int,
    entry: int,
    found: Seq<Tree>,
) -> Option<Result<Hit, Miss>>
    decreases input.len() - entry, p, 1 + input.len() - position,
{
    if position > input.len() {
        None
    } else {
        match eval(p, root, input, position, entry) {
            None => None,
            Some(Err(_)) => Some(Ok(Hit { position, value: Tree::List(found) })),
            Some(Ok(hit)) => if position < hit.position <= input.len() {
                eval_repeat(p, root, input, hit.position, entry, found + kept(hit.value))
            } else {
                None
            },
        }
    }
}

} // verus!
