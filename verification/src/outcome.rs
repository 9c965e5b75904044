//! The two ways a parser application ends, and how two failures combine.
//!
//! Every position in this crate counts code points (`char`s) from the start of the
//! input: the positions in a [`Success`] and a [`Failure`], the place where a pattern
//! is anchored, and the length that a complete parse must reach.

use crate::value::{Tree, Value};
use vstd::prelude::*;

verus! {

/// A parser matched: where the next parser resumes, and what was found.
#[derive(Debug)]
pub struct Success {
    pub position: i32,
    pub value: Value,
}

/// A parser did not match: the furthest position reached, and what would have
/// allowed progress there.
#[derive(Debug)]
pub struct Failure {
    pub position: i32,
    pub expected: Vec<String>,
}

/// The mathematical content of a [`Success`].
pub ghost struct Hit {
    pub position: int,
    pub value: Tree,
}

/// The mathematical content of a [`Failure`].
pub ghost struct Miss {
    pub position: int,
    pub expected: Seq<Seq<char>>,
}

/// The characters of each string, one for one.
pub open spec fn texts(strings: Seq<String>) -> Seq<Seq<char>> {
    strings.map_values(|t: String| t@)
}

impl View for Success {
    type V = Hit;

    open spec fn view(&self) -> Hit {
        Hit { position: self.position as int, value: self.value@ }
    }
}

impl View for Failure {
    type V = Miss;

    open spec fn view(&self) -> Miss {
        Miss { position: self.position as int, expected: texts(self.expected@) }
    }
}

/// The mathematical content of an outcome.
pub open spec fn outcome_of(reply: Result<Success, Failure>) -> Result<Hit, Miss> {
    match reply {
        Ok(success) => Ok(success@),
        Err(failure) => Err(failure@),
    }
}

/// The mathematical content of a run that may have no outcome.
pub open spec fn run_of(run: Option<Result<Success, Failure>>) -> Option<Result<Hit, Miss>> {
    match run {
        Some(reply) => Some(outcome_of(reply)),
        None => None,
    }
}

/// Two failures at one choice point as one: the further position, with the
/// expectations of whichever failure reached it, the first failure's first.
pub open spec fn merged(first: Miss, second: Miss) -> Miss {
    Miss {
        position: if first.position >= second.position {
            first.position
        } else {
            second.position
        },
        expected: (if first.position >= second.position {
            first.expected
        } else {
            Seq::empty()
        }) + (if first.position <= second.position {
            second.expected
        } else {
            Seq::empty()
        }),
    }
}

/// The text that a parse reports when the grammar matched only a prefix of the input.
pub open spec fn trailing_input() -> Seq<char> {
    "no length"@
}

/// An outcome held to the whole input: a success that stops before `len` becomes a
/// failure at its end position; every other outcome stands.
pub open spec fn completed(outcome: Result<Hit, Miss>, len: int) -> Result<Hit, Miss> {
    match outcome {
        Ok(hit) => if hit.position < len {
            Err(Miss { position: hit.position, expected: seq![trailing_input()] })
        } else {
            outcome
        },
        Err(_) => outcome,
    }
}

/// Holds an outcome to an input of `len` code points.
pub fn complete(reply: Result<Success, Failure>, len: i32) -> (r: Result<Success, Failure>)
    ensures
        outcome_of(r) == completed(outcome_of(reply), len as int),
{
    match reply {
        Ok(success) => {
            if success.position < len {
                let mut expected: Vec<String> = Vec::new();
                expected.push("no length".to_owned());
                assert(texts(expected@) =~= seq![trailing_input()]);
                Err(Failure { position: success.position, expected })
            } else {
                Ok(success)
            }
        },
        Err(failure) => Err(failure),
    }
}

/// Read access to an outcome.
pub trait Reply {
    /// The outcome that `self` stands for.
    spec fn outcome(&self) -> Result<Hit, Miss>;

    /// The position of the outcome, of either kind.
    fn position(&self) -> (p: i32)
        ensures
            p == match self.outcome() {
                Ok(hit) => hit.position,
                Err(miss) => miss.position,
            },
    ;

    /// The position of a failure; -1 for a success.
    fn err_position(&self) -> (p: i32)
        ensures
            p == match self.outcome() {
                Ok(_) => -1,
                Err(miss) => miss.position,
            },
    ;

    /// A copy of the value of a success.
    fn value(&self) -> (v: Value)
        requires
            self.outcome() is Ok,
        ensures
            v@ == self.outcome()->Ok_0.value,
    ;

    /// A copy of the expectations of a failure.
    fn expected(&self) -> (e: Vec<String>)
        requires
            self.outcome() is Err,
        ensures
            texts(e@) == self.outcome()->Err_0.expected,
    ;
}

impl Reply for Result<Success, Failure> {
    open spec fn outcome(&self) -> Result<Hit, Miss> {
        outcome_of(*self)
    }

    fn position(&self) -> (p: i32) {
        match self {
            Ok(success) => success.position,
            Err(failure) => failure.position,
        }
    }

    fn err_position(&self) -> (p: i32) {
        match self {
            Ok(_) => -1,
            Err(failure) => failure.position,
        }
    }

    fn value(&self) -> (v: Value) {
        match self {
            Ok(success) => success.value.clone(),
            Err(_) => vstd::pervasive::unreached(),
        }
    }

    fn expected(&self) -> (e: Vec<String>) {
        match self {
            Ok(_) => vstd::pervasive::unreached(),
            Err(failure) => {
                let mut copies: Vec<String> = Vec::new();
                let mut i: usize = 0;
                while i < failure.expected.len()
                    invariant
                        i <= failure.expected.len(),
                        copies.len() == i,
                        forall|j: int| 0 <= j < i ==> copies[j]@ == failure.expected[j]@,
                    decreases failure.expected.len() - i,
                {
                    copies.push(failure.expected[i].clone());
                    i += 1;
                }
                assert(texts(copies@) =~= texts(failure.expected@));
                copies
            },
        }
    }
}

} // verus!
