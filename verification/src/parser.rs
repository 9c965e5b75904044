//! Parsers as values: the atoms, the combinators that build on them, and the driver.

use crate::atom::{
    anchored, atom_outcome, captures, found_of, group_of, pieces, placed, regex_accepts,
    regex_source, Piece,
};
use crate::grammar::{eval, eval_repeat, Grammar};
use crate::outcome::{complete, completed, merged, run_of, texts, Failure, Hit, Miss, Success};
use crate::text::after_prefix;
use crate::value::{kept, list_view, trees, Tree, Value};
use regex::Regex;
use std::rc::Rc;
use vstd::prelude::*;
use vstd::string::StrSliceExecFns;
use vstd::string::StringExecFns;

verus! {

/// A parser: a grammar that can be run on an input. Parsers are built from atoms by
/// the combinators, never changed afterwards, and share the parsers they are built of.
pub enum Parser {
    /// A pattern with its compiled form, and the capture asked for (none if negative).
    Atom { pattern: String, regex: Regex, group: isize },
    /// Stands for the parser on which the running parse was started.
    Root,
    /// One parser, then another where the first ended.
    And(Rc<Parser>, Rc<Parser>),
    /// One parser, or else another at the same place.
    Or(Rc<Parser>, Rc<Parser>),
    /// One parser, as often as it matches.
    Repeat(Rc<Parser>),
    /// One parser, its value wrapped as a list.
    List(Rc<Parser>),
    /// One parser, its list value flattened.
    Flat(Rc<Parser>),
}

impl Parser {
    /// The grammar that the parser runs.
    pub open spec fn grammar(self) -> Grammar
        decreases self,
    {
        match self {
            Parser::Atom { pattern, regex, group } => Grammar::Atom {
                pattern: pattern@,
                group: group as int,
            },
            Parser::Root => Grammar::Root,
            Parser::And(p, q) => Grammar::And(Box::new((*p).grammar()), Box::new((*q).grammar())),
            Parser::Or(p, q) => Grammar::Or(Box::new((*p).grammar()), Box::new((*q).grammar())),
            Parser::Repeat(p) => Grammar::Repeat(Box::new((*p).grammar())),
            Parser::List(p) => Grammar::List(Box::new((*p).grammar())),
            Parser::Flat(p) => Grammar::Flat(Box::new((*p).grammar())),
        }
    }

    /// Every atom holds the compiled form of its own pattern, anchored.
    pub open spec fn wf(self) -> bool
        decreases self,
    {
        match self {
            Parser::Atom { pattern, regex, group } => regex_source(regex) == anchored(pattern@),
            Parser::Root => true,
            Parser::And(p, q) => (*p).wf() && (*q).wf(),
            Parser::Or(p, q) => (*p).wf() && (*q).wf(),
            Parser::Repeat(p) => (*p).wf(),
            Parser::List(p) => (*p).wf(),
            Parser::Flat(p) => (*p).wf(),
        }
    }
}

/// `Rc::clone`: another handle to the same parser.
#[verifier::external_body]
fn share(p: &Rc<Parser>) -> (r: Rc<Parser>)
    ensures
        r == p,
{
    Rc::clone(p)
}

impl Clone for Parser {
    /// A parser that runs the same grammar and shares the parsers that `self` is built of.
    fn clone(&self) -> (r: Parser)
        ensures
            r@ == self@,
            r.wf() == self.wf(),
    {
        match self {
            Parser::Atom { pattern, regex, group } => Parser::Atom {
                pattern: pattern.clone(),
                regex: regex.clone(),
                group: *group,
            },
            Parser::Root => Parser::Root,
            Parser::And(p, q) => Parser::And(share(p), share(q)),
            Parser::Or(p, q) => Parser::Or(share(p), share(q)),
            Parser::Repeat(p) => Parser::Repeat(share(p)),
            Parser::List(p) => Parser::List(share(p)),
            Parser::Flat(p) => Parser::Flat(share(p)),
        }
    }
}

impl View for Parser {
    type V = Grammar;

    open spec fn view(&self) -> Grammar {
        self.grammar()
    }
}

/// The outcome of a parse of the whole `input` by `g`: that of `g` from the start,
/// with itself as the root, held to the end of the input.
pub open spec fn parse_result(g: Grammar, input: Seq<char>) -> Option<Result<Hit, Miss>> {
    match eval(g, g, input, 0, 0) {
        Some(outcome) => Some(completed(outcome, input.len() as int)),
        None => None,
    }
}

/// The mathematical content of a step: that of its outcome, without the input left over.
spec fn stepped(r: Option<Result<(Success, &str), Failure>>) -> Option<Result<Hit, Miss>> {
    match r {
        Some(Ok((success, _))) => Some(Ok(success@)),
        Some(Err(failure)) => Some(Err(failure@)),
        None => None,
    }
}

/// The haystack without what the match consumed: without the text of the whole match
/// where that begins the haystack, all of it otherwise.
fn unmatched<'a>(haystack: &'a str, found: &Option<Vec<Option<Piece<'a>>>>) -> (tail: &'a str)
    requires
        found_of(*found) matches Some(groups) ==> placed(groups, haystack@),
    ensures
        tail@ == match found_of(*found) {
            Some(groups) => match group_of(groups, 0) {
                Some(whole) => if whole.start == 0 {
                    haystack@.skip(whole.text.len() as int)
                } else {
                    haystack@
                },
                None => haystack@,
            },
            None => haystack@,
        },
{
    match found {
        Some(groups) => {
            if groups.len() == 0 {
                return haystack;
            }
            assert(group_of(pieces(groups@), 0) == pieces(groups@)[0]);
            match &groups[0] {
                Some(whole) => {
                    if whole.start == 0 {
                        after_prefix(haystack, whole.text)
                    } else {
                        haystack
                    }
                },
                None => haystack,
            }
        },
        None => haystack,
    }
}

/// The text that is compiled for a pattern.
fn anchored_text(pattern: &str) -> (source: String)
    ensures
        source@ == anchored(pattern@),
{
    let mut source = "^(".to_owned();
    source.append(pattern);
    source.append(")");
    proof {
        reveal_strlit("^(");
        reveal_strlit(")");
        assert(source@ =~= anchored(pattern@));
    }
    source
}

impl Parser {
    /// A parser that is defined in terms of the parser that a parse is started on.
    /// `builder` is handed [`Parser::Root`], which stands for that parser, and returns
    /// the parser to run.
    pub fn new<F: Fn(&Parser) -> Parser>(builder: F) -> (p: Parser)
        requires
            builder.requires((&Parser::Root,)),
        ensures
            builder.ensures((&Parser::Root,), p),
    {
        let root = Parser::Root;
        builder(&root)
    }

    /// The atom for `pattern` that reports the text of the capture group `group`:
    /// the whole match for 0, the pattern's own groups from 1, nothing if negative.
    pub fn regex(pattern: &str, group: isize) -> (p: Parser)
        requires
            regex_accepts(anchored(pattern@)),
        ensures
            p@ == (Grammar::Atom { pattern: pattern@, group: group as int }),
            p.wf(),
    {
        let source = anchored_text(pattern);
        match Regex::new(source.as_str()) {
            Ok(regex) => Parser::Atom { pattern: pattern.to_owned(), regex, group },
            Err(_) => vstd::pervasive::unreached(),
        }
    }

    /// The atom for `pattern` as [`Parser::regex`] builds it, or `None` where the
    /// pattern does not compile.
    pub fn try_regex(pattern: &str, group: isize) -> (r: Option<Parser>)
        ensures
            r is Some == regex_accepts(anchored(pattern@)),
            r matches Some(p) ==> p@ == (Grammar::Atom { pattern: pattern@, group: group as int })
                && p.wf(),
    {
        let source = anchored_text(pattern);
        if Regex::new(source.as_str()).is_ok() {
            Some(Parser::regex(pattern, group))
        } else {
            None
        }
    }

    /// The atom for `pattern` that consumes input and reports nothing.
    pub fn skip(pattern: &str) -> (p: Parser)
        requires
            regex_accepts(anchored(pattern@)),
        ensures
            p@ == (Grammar::Atom { pattern: pattern@, group: -1 }),
            p.wf(),
    {
        Parser::regex(pattern, -1)
    }

    /// The atom for `pattern` as [`Parser::skip`] builds it, or `None` where the
    /// pattern does not compile.
    pub fn try_skip(pattern: &str) -> (r: Option<Parser>)
        ensures
            r is Some == regex_accepts(anchored(pattern@)),
            r matches Some(p) ==> p@ == (Grammar::Atom { pattern: pattern@, group: -1 }) && p.wf(),
    {
        let source = anchored_text(pattern);
        if Regex::new(source.as_str()).is_ok() {
            Some(Parser::skip(pattern))
        } else {
            None
        }
    }

    /// `self`, then `p` where `self` ended.
    pub fn and(self, p: Parser) -> (r: Parser)
        ensures
            r@ == Grammar::And(Box::new(self@), Box::new(p@)),
            r.wf() == (self.wf() && p.wf()),
    {
        Parser::And(Rc::new(self), Rc::new(p))
    }

    /// `self`, or else `p` at the same place.
    pub fn or(self, p: Parser) -> (r: Parser)
        ensures
            r@ == Grammar::Or(Box::new(self@), Box::new(p@)),
            r.wf() == (self.wf() && p.wf()),
    {
        Parser::Or(Rc::new(self), Rc::new(p))
    }

    /// `self`, as often as it matches.
    pub fn repeat(self) -> (r: Parser)
        ensures
            r@ == Grammar::Repeat(Box::new(self@)),
            r.wf() == self.wf(),
    {
        Parser::Repeat(Rc::new(self))
    }

    /// `self`, with a value that is not empty wrapped as a list of one.
    pub fn list(self) -> (r: Parser)
        ensures
            r@ == Grammar::List(Box::new(self@)),
            r.wf() == self.wf(),
    {
        Parser::List(Rc::new(self))
    }

    /// `self`, with a list value flattened by one level.
    pub fn flat(self) -> (r: Parser)
        ensures
            r@ == Grammar::Flat(Box::new(self@)),
            r.wf() == self.wf(),
    {
        Parser::Flat(Rc::new(self))
    }

    /// Runs the parser on `input`, which is `len` code points long, from `position` on,
    /// within a parse that was started on `root` and entered it last at `entry`.
    /// `rest` is the input from `position` on; a success comes with the input from its
    /// own position on.
    fn step<'a>(
        &self,
        root: &Parser,
        input: &'a str,
        len: i32,
        rest: &'a str,
        position: i32,
        entry: i32,
    ) -> (r: Option<Result<(Success, &'a str), Failure>>)
        requires
            self.wf(),
            root.wf(),
            input@.len() == len,
            0 <= entry <= position <= len,
            rest@ == input@.skip(position as int),
        ensures
            stepped(r) == eval(self@, root@, input@, position as int, entry as int),
            r matches Some(Ok((success, tail))) ==> position <= success.position <= len && tail@
                == input@.skip(success.position as int),
            r matches Some(Err(failure)) ==> position <= failure.position <= len,
        decreases len - entry, self,
    {
        match self {
            Parser::Atom { pattern, regex, group } => {
                let found = captures(regex, rest);
                let tail = unmatched(rest, &found);
                match atom_outcome(pattern.as_str(), *group, position, found) {
                    Some(Ok(success)) => {
                        assert(rest@.skip(success.position - position) =~= input@.skip(
                            success.position as int,
                        ));
                        Some(Ok((success, tail)))
                    },
                    Some(Err(failure)) => Some(Err(failure)),
                    None => None,
                }
            },
            Parser::Root => {
                if entry < position {
                    root.step(root, input, len, rest, position, position)
                } else {
                    None
                }
            },
            Parser::And(p, q) => {
                match p.step(root, input, len, rest, position, entry) {
                    Some(Ok((first, middle))) => match q.step(
                        root,
                        input,
                        len,
                        middle,
                        first.position,
                        entry,
                    ) {
                        Some(Ok((second, tail))) => Some(
                            Ok(
                                (
                                    Success {
                                        position: second.position,
                                        value: first.value.join(second.value),
                                    },
                                    tail,
                                ),
                            ),
                        ),
                        other => other,
                    },
                    other => other,
                }
            },
            Parser::Or(p, q) => {
                match p.step(root, input, len, rest, position, entry) {
                    Some(Err(first)) => match q.step(root, input, len, rest, position, entry) {
                        Some(Err(second)) => Some(Err(Parser::merge_errs(first, second))),
                        other => other,
                    },
                    other => other,
                }
            },
            Parser::Repeat(p) => {
                let mut found: Vec<Value> = Vec::new();
                let mut at: i32 = position;
                let mut tail: &str = rest;
                assert(trees(found@) =~= Seq::<Tree>::empty());
                loop
                    invariant
                        self.wf(),
                        root.wf(),
                        input@.len() == len,
                        0 <= entry <= position <= at <= len,
                        tail@ == input@.skip(at as int),
                        *self == Parser::Repeat(*p),
                        eval(self@, root@, input@, position as int, entry as int) == eval_repeat(
                            p@,
                            root@,
                            input@,
                            at as int,
                            entry as int,
                            trees(found@),
                        ),
                    ensures
                        position <= at <= len,
                        tail@ == input@.skip(at as int),
                        eval(self@, root@, input@, position as int, entry as int) == Some(
                            Ok::<Hit, Miss>(
                                Hit { position: at as int, value: Tree::List(trees(found@)) },
                            ),
                        ),
                    decreases len - at,
                {
                    assert(decreases_to!(*self => self->Repeat_0));
                    match p.step(root, input, len, tail, at, entry) {
                        None => {
                            return None;
                        },
                        Some(Err(_)) => {
                            break ;
                        },
                        Some(Ok((success, next))) => {
                            if success.position <= at {
                                return None;
                            }
                            let ghost before = trees(found@);
                            at = success.position;
                            tail = next;
                            if !success.value.is_empty() {
                                found.push(success.value);
                            }
                            assert(trees(found@) =~= before + kept(success.value@));
                        },
                    }
                }
                proof {
                    list_view(found);
                }
                Some(Ok((Success { position: at, value: Value::List(found) }, tail)))
            },
            Parser::List(p) => {
                match p.step(root, input, len, rest, position, entry) {
                    Some(Ok((success, tail))) => Some(
                        Ok(
                            (
                                Success {
                                    position: success.position,
                                    value: success.value.promote(),
                                },
                                tail,
                            ),
                        ),
                    ),
                    other => other,
                }
            },
            Parser::Flat(p) => {
                match p.step(root, input, len, rest, position, entry) {
                    Some(Ok((success, tail))) => Some(
                        Ok(
                            (
                                Success {
                                    position: success.position,
                                    value: success.value.flatten(),
                                },
                                tail,
                            ),
                        ),
                    ),
                    other => other,
                }
            },
        }
    }

    /// Parses the whole of `s`. The result is the outcome of `self` from the start of
    /// `s`, with itself as the root; a success that does not reach the end of `s` is
    /// turned into a failure at the place where it stopped. The result is `None`
    /// where the run has no outcome: where it would not end, or where an atom was
    /// asked for a capture group that took no part in its match.
    pub fn parse(&self, s: &str) -> (r: Option<Result<Success, Failure>>)
        requires
            self.wf(),
            s@.len() <= i32::MAX,
        ensures
            run_of(r) == parse_result(self@, s@),
            r matches Some(Ok(success)) ==> success.position == s@.len(),
            r matches Some(Err(failure)) ==> 0 <= failure.position <= s@.len(),
    {
        let len: i32 = s.unicode_len() as i32;
        assert(s@.skip(0) =~= s@);
        match self.step(self, s, len, s, 0, 0) {
            Some(Ok((success, _))) => Some(complete(Ok(success), len)),
            Some(Err(failure)) => Some(Err(failure)),
            None => None,
        }
    }

    /// Two failures at one choice point as one.
    pub fn merge_errs(e1: Failure, e2: Failure) -> (e: Failure)
        ensures
            e@ == merged(e1@, e2@),
    {
        let mut first = e1;
        let mut second = e2;
        let mut position: i32 = first.position;
        let mut expected: Vec<String> = Vec::new();
        if first.position >= second.position {
            expected.append(&mut first.expected);
        }
        if first.position <= second.position {
            expected.append(&mut second.expected);
            position = second.position;
        }
        assert(texts(expected@) =~= merged(e1@, e2@).expected);
        Failure { position, expected }
    }
}

} // verus!
