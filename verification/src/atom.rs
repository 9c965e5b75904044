//! The atomic matcher: a regular expression held to the start of the remaining input.
//!
//! The expressions are compiled and run by the `regex` crate. What this module
//! believes of that crate is stated on the trusted items below; the decision what a
//! match means for the parse is [`atom_outcome`], which is verified.

use crate::outcome::{run_of, texts, Failure, Hit, Miss, Success};
use crate::value::{Tree, Value};
use regex::Regex;
use vstd::prelude::*;
use vstd::string::StrSliceExecFns;
use vstd::string::StringExecFns;

verus! {

/// A compiled expression of the `regex` crate. Nothing of its inside is known here.
#[verifier::external_type_specification]
#[verifier::external_body]
pub struct ExRegex(Regex);

/// The reason why the `regex` crate turned a pattern down.
#[verifier::external_type_specification]
#[verifier::external_body]
pub struct ExRegexError(regex::Error);

/// The pattern text that a compiled expression was made from: what `Regex::as_str`
/// returns for it.
pub uninterp spec fn regex_source(re: Regex) -> Seq<char>;

/// Whether `Regex::new` compiles the pattern: whether it is well formed and its
/// compiled form stays within that crate's size limit.
pub uninterp spec fn regex_accepts(source: Seq<char>) -> bool;

/// What `Regex::captures` finds for the expression compiled from `source` in `haystack`:
/// nothing, or the groups of the leftmost match, numbered as the `regex` crate numbers them.
pub uninterp spec fn regex_captures(source: Seq<char>, haystack: Seq<char>) -> Option<
    Seq<Option<PieceView>>,
>;

/// One group of a match: the byte offset in the haystack at which it begins, and its
/// text. Of the offset only this is used: the group begins the haystack where it is 0.
pub struct Piece<'h> {
    pub start: usize,
    pub text: &'h str,
}

/// The mathematical content of a [`Piece`].
pub ghost struct PieceView {
    pub start: int,
    pub text: Seq<char>,
}

impl<'h> View for Piece<'h> {
    type V = PieceView;

    open spec fn view(&self) -> PieceView {
        PieceView { start: self.start as int, text: self.text@ }
    }
}

/// The mathematical content of the groups of a match.
pub open spec fn pieces(groups: Seq<Option<Piece>>) -> Seq<Option<PieceView>> {
    groups.map_values(
        |g: Option<Piece>|
            match g {
                Some(piece) => Some(piece@),
                None => None,
            },
    )
}

/// The mathematical content of what a search found.
pub open spec fn found_of(found: Option<Vec<Option<Piece>>>) -> Option<Seq<Option<PieceView>>> {
    match found {
        Some(groups) => Some(pieces(groups@)),
        None => None,
    }
}

/// The group with the given number, if the match has one and it took part.
pub open spec fn group_of(groups: Seq<Option<PieceView>>, index: int) -> Option<PieceView> {
    if 0 <= index < groups.len() {
        groups[index]
    } else {
        None
    }
}

/// `Regex::new`: compiles a pattern. The result is `Ok` exactly for the patterns that
/// [`regex_accepts`] names, and the compiled expression reports the pattern as its source.
pub assume_specification[ Regex::new ](re: &str) -> (r: Result<Regex, regex::Error>)
    ensures
        r is Ok <==> regex_accepts(re@),
        r matches Ok(compiled) ==> regex_source(compiled) == re@,
;

/// `Regex::clone`: the copy of a compiled expression was made from the same pattern text.
pub assume_specification[ <Regex as Clone>::clone ](re: &Regex) -> (r: Regex)
    ensures
        regex_source(r) == regex_source(*re),
;

/// What holds of the groups of every match in `haystack`: group 0, the whole match,
/// took part, and where it begins at offset 0 its text begins the haystack.
pub open spec fn placed(groups: Seq<Option<PieceView>>, haystack: Seq<char>) -> bool {
    group_of(groups, 0) matches Some(whole) && (whole.start == 0 ==> whole.text.is_prefix_of(
        haystack,
    ))
}

/// `Regex::captures`, with each group of the `Captures`, from 0 to `Captures::len`,
/// read by `Captures::get` and handed out as the start offset and the text of its
/// `Match`. The result is what [`regex_captures`] names for the expression's source and
/// the haystack. Of a match the contract claims what [`placed`] says: a `Captures`
/// always has the group 0, which always took part, and the text of a `Match` is the
/// part of the haystack between its offsets.
#[verifier::external_body]
pub(crate) fn captures<'h>(re: &Regex, haystack: &'h str) -> (found: Option<Vec<Option<Piece<'h>>>>)
    ensures
        found_of(found) == regex_captures(regex_source(*re), haystack@),
        found_of(found) matches Some(groups) ==> placed(groups, haystack@),
{
    let caps = re.captures(haystack)?;
    Some(
        (0..caps.len()).map(
            |i| caps.get(i).map(|m| Piece { start: m.start(), text: m.as_str() }),
        ).collect(),
    )
}

/// The pattern as it is compiled: held to the start of the haystack, and wrapped in a
/// group of its own, so that the whole pattern is group 1 and the pattern's own groups
/// follow from 2.
pub open spec fn anchored(pattern: Seq<char>) -> Seq<char> {
    seq!['^', '('] + pattern + seq![')']
}

/// What a match means for the parse. `found` is the result of the search in the input
/// from `position` on, `group` the capture asked for (none if negative; 0 for the
/// whole pattern).
///
/// No match, or a match that begins later than at `position`, is a failure at
/// `position` that expects the pattern. A match at `position` is a success that ends
/// after the matched text; its value is empty where no capture was asked for, and
/// the text of the group otherwise. Where the group asked for did not take part in
/// the match there is no outcome.
pub open spec fn atom_result(
    pattern: Seq<char>,
    group: int,
    position: int,
    found: Option<Seq<Option<PieceView>>>,
) -> Option<Result<Hit, Miss>> {
    let miss = Miss { position, expected: seq![pattern] };
    match found {
        None => Some(Err(miss)),
        Some(groups) => match group_of(groups, 0) {
            None => None,
            Some(whole) => if whole.start != 0 {
                Some(Err(miss))
            } else if group < 0 {
                Some(Ok(Hit { position: position + whole.text.len(), value: Tree::Empty }))
            } else {
                match group_of(groups, group + 1) {
                    None => None,
                    Some(piece) => Some(
                        Ok(
                            Hit {
                                position: position + whole.text.len(),
                                value: Tree::Leaf(piece.text),
                            },
                        ),
                    ),
                }
            },
        },
    }
}

/// Decides the outcome of an atom from what the search found; see [`atom_result`].
pub fn atom_outcome(
    pattern: &str,
    group: isize,
    position: i32,
    found: Option<Vec<Option<Piece>>>,
) -> (r: Option<Result<Success, Failure>>)
    requires
        0 <= position,
        atom_result(pattern@, group as int, position as int, found_of(found)) matches Some(
            Ok(hit),
        ) ==> hit.position <= i32::MAX,
    ensures
        run_of(r) == atom_result(pattern@, group as int, position as int, found_of(found)),
{
    match found {
        None => Some(Err(mismatch(pattern, position))),
        Some(groups) => {
            if groups.len() == 0 {
                return None;
            }
            assert(group_of(pieces(groups@), 0) == pieces(groups@)[0]);
            match &groups[0] {
                None => None,
                Some(whole) => {
                    assert(group_of(pieces(groups@), 0) == Some(whole@));
                    if whole.start != 0 {
                        Some(Err(mismatch(pattern, position)))
                    } else if group < 0 {
                        let end: i32 = position + whole.text.unicode_len() as i32;
                        Some(Ok(Success { position: end, value: Value::Empty }))
                    } else {
                        let index: usize = group as usize + 1;
                        if index >= groups.len() {
                            return None;
                        }
                        assert(group_of(pieces(groups@), group + 1) == pieces(groups@)[group + 1]);
                        match &groups[index] {
                            None => None,
                            Some(piece) => {
                                let end: i32 = position + whole.text.unicode_len() as i32;
                                Some(
                                    Ok(
                                        Success {
                                            position: end,
                                            value: Value::Leaf(piece.text.to_owned()),
                                        },
                                    ),
                                )
                            },
                        }
                    }
                },
            }
        },
    }
}

/// The failure of an atom: nothing but the pattern would have done at `position`.
fn mismatch(pattern: &str, position: i32) -> (failure: Failure)
    ensures
        failure@ == (Miss { position: position as int, expected: seq![pattern@] }),
{
    let mut expected: Vec<String> = Vec::new();
    expected.push(pattern.to_owned());
    assert(texts(expected@) =~= seq![pattern@]);
    Failure { position, expected }
}

} // verus!
