//! The range selector: a `skip:take` text read into an offset and a limit.

use vstd::prelude::*;
use crate::numeral::{all_digits, has_sign, is_digit, isize_of, magnitude_digits, read_isize};
use crate::text::{
    find_from, first_index_of, is_space, lemma_first_index_of, lemma_first_index_of_unique,
    lemma_trimmed_fixed, to_chars, trim_bounds, trimmed,
};

verus! {

/// Which tracks of a candidate list are played.
///
/// `offset` is the number of leading tracks to skip; absent, none is
/// skipped. `limit` is where the selection stops: absent, it runs to the
/// end; non-negative, it is an index into the list; negative, it counts
/// tracks dropped from the end.
#[derive(Clone, Copy, Debug, PartialEq, Eq, Structural)]
pub struct RangeSelector {
    pub offset: Option<isize>,
    pub limit: Option<isize>,
}

/// Why a selector text was refused. Each variant holds the bound as it was
/// read, without surrounding whitespace.
#[derive(Debug, PartialEq, Eq)]
pub enum ParseError {
    /// The text before the separator is no integer.
    LowerBound(String),
    /// The text after the separator is no integer.
    UpperBound(String),
}

/// The separator between the two bounds of a selector.
pub open spec fn separator() -> char {
    ':'
}

/// The text of the lower bound: what precedes the first separator.
pub open spec fn lower_segment(s: Seq<char>) -> Seq<char> {
    s.take(first_index_of(s, separator()))
}

/// What follows the first separator; empty where there is none.
pub open spec fn after_separator(s: Seq<char>) -> Seq<char> {
    if first_index_of(s, separator()) < s.len() {
        s.skip(first_index_of(s, separator()) + 1)
    } else {
        Seq::empty()
    }
}

/// The text of the upper bound: what stands between the first separator
/// and the second, or the end. Anything after a second separator is not
/// read.
pub open spec fn upper_segment(s: Seq<char>) -> Seq<char> {
    lower_segment(after_separator(s))
}

/// What one bound's text means: `Ok(None)` for an empty text, `Ok(Some(v))`
/// for text that, once trimmed, is the numeral of `v`, and `Err(())`
/// otherwise.
pub open spec fn bound_of(segment: Seq<char>) -> Result<Option<isize>, ()> {
    if segment.len() == 0 {
        Ok(None)
    } else {
        match isize_of(trimmed(segment)) {
            Some(v) => Ok(Some(v)),
            None => Err(()),
        }
    }
}

/// The selector that `s` denotes, or `None` where one of its bounds is
/// no integer.
pub open spec fn selector_of(s: Seq<char>) -> Option<RangeSelector> {
    match (bound_of(lower_segment(s)), bound_of(upper_segment(s))) {
        (Ok(offset), Ok(limit)) => Some(RangeSelector { offset, limit }),
        _ => None,
    }
}

impl RangeSelector {
    /// The selector that skips nothing and has no end.
    pub fn unbounded() -> (r: RangeSelector)
        ensures
            r == (RangeSelector { offset: None, limit: None }),
    {
        RangeSelector { offset: None, limit: None }
    }
}

impl ParseError {
    /// A sentence for the user that names the bound and quotes its text.
    pub fn message(&self) -> (r: String)
        ensures
            r@ == (match *self {
                ParseError::LowerBound(t) => "Lower range input \""@ + t@
                    + "\" could not be parsed to an integer"@,
                ParseError::UpperBound(t) => "Upper range input \""@ + t@
                    + "\" could not be parsed to an integer"@,
            }),
    {
        match self {
            ParseError::LowerBound(t) => {
                let mut m = "Lower range input \"".to_owned();
                m.append(t.as_str());
                m.append("\" could not be parsed to an integer");
                m
            },
            ParseError::UpperBound(t) => {
                let mut m = "Upper range input \"".to_owned();
                m.append(t.as_str());
                m.append("\" could not be parsed to an integer");
                m
            },
        }
    }
}

/// Reads one bound from `chars[from..to]`, a segment of the text `source`
/// whose characters `chars` holds. On failure the trimmed segment comes
/// back.
fn read_bound(source: &str, chars: &Vec<char>, from: usize, to: usize) -> (r: Result<
    Option<isize>,
    String,
>)
    requires
        chars@ == source@,
        from <= to <= chars@.len(),
    ensures
        (match r {
            Ok(b) => bound_of(chars@.subrange(from as int, to as int)) == Ok::<
                Option<isize>,
                (),
            >(b),
            Err(t) => bound_of(chars@.subrange(from as int, to as int)) is Err && t@ == trimmed(
                chars@.subrange(from as int, to as int),
            ),
        }),
{
    if from == to {
        return Ok(None);
    }
    let (lo, hi) = trim_bounds(chars, from, to);
    match read_isize(chars, lo, hi) {
        Some(v) => Ok(Some(v)),
        None => Err(source.substring_char(lo, hi).to_owned()),
    }
}

/// Reads a range selector of the form `skip:take`.
///
/// Either bound may be empty, and an empty text leaves both absent. A
/// non-empty bound is trimmed of whitespace and must then be a decimal
/// integer that fits `isize`, with an optional sign. The lower bound is
/// judged first: where both are wrong, the error names the lower one.
/// A negative lower bound is read like any other integer.
pub fn parse_track_ranges(track_select_string: &str) -> (r: Result<RangeSelector, ParseError>)
    ensures
        (match r {
            Ok(sel) => selector_of(track_select_string@) == Some(sel),
            Err(ParseError::LowerBound(t)) => {
                &&& bound_of(lower_segment(track_select_string@)) is Err
                &&& t@ == trimmed(lower_segment(track_select_string@))
            },
            Err(ParseError::UpperBound(t)) => {
                &&& bound_of(lower_segment(track_select_string@)) is Ok
                &&& bound_of(upper_segment(track_select_string@)) is Err
                &&& t@ == trimmed(upper_segment(track_select_string@))
            },
        }),
{
    let chars = to_chars(track_select_string);
    let n: usize = chars.len();
    let ghost s = chars@;
    let first: usize = find_from(&chars, 0, ':');
    proof {
        assert(s.skip(0) =~= s);
        assert(s.subrange(0, first as int) =~= lower_segment(s));
    }
    let offset: Option<isize> = match read_bound(track_select_string, &chars, 0, first) {
        Ok(b) => b,
        Err(t) => {
            return Err(ParseError::LowerBound(t));
        },
    };
    if first == n {
        proof {
            assert(upper_segment(s) =~= Seq::<char>::empty());
        }
        return Ok(RangeSelector { offset, limit: None });
    }
    let second: usize = find_from(&chars, first + 1, ':');
    proof {
        let rest = s.skip(first as int + 1);
        assert(after_separator(s) == rest);
        assert(s.subrange(first as int + 1, second as int) =~= rest.take(second - first - 1));
    }
    match read_bound(track_select_string, &chars, first + 1, second) {
        Ok(limit) => Ok(RangeSelector { offset, limit }),
        Err(t) => Err(ParseError::UpperBound(t)),
    }
}

/// A numeral holds no separator and no whitespace at either end.
pub proof fn lemma_numeral_is_one_segment(a: Seq<char>)
    requires
        isize_of(a) is Some,
    ensures
        first_index_of(a, separator()) == a.len(),
        trimmed(a) == a,
        bound_of(a) == Ok::<Option<isize>, ()>(isize_of(a)),
{
    let d = magnitude_digits(a);
    assert(d.len() > 0 && all_digits(d));
    assert forall|i: int| 0 <= i < a.len() implies a[i] != separator() && !is_space(a[i]) by {
        if has_sign(a) {
            if i > 0 {
                assert(is_digit(d[i - 1]));
            }
        } else {
            assert(is_digit(d[i]));
        }
    }
    lemma_first_index_of_unique(a, separator(), a.len() as int);
    lemma_trimmed_fixed(a);
}

/// What a bound of a well-formed selector text means: nothing where it is
/// empty, else the integer it is the numeral of.
pub open spec fn written_bound(a: Seq<char>) -> Option<isize> {
    if a.len() == 0 {
        None
    } else {
        isize_of(a)
    }
}

/// Reading gives back what was written. For texts `a` and `b` that are
/// each empty or the numeral of an integer, `a:b` denotes the selector
/// with the offset of `a` and the limit of `b`, an empty side being an
/// absent bound; `a` alone denotes that offset with no limit. In
/// particular the empty text denotes the selector with no bound at all.
pub proof fn lemma_parse_round_trip(a: Seq<char>, b: Seq<char>)
    requires
        a.len() == 0 || isize_of(a) is Some,
        b.len() == 0 || isize_of(b) is Some,
    ensures
        selector_of(a + seq![separator()] + b) == Some(
            RangeSelector { offset: written_bound(a), limit: written_bound(b) },
        ),
        selector_of(a) == Some(RangeSelector { offset: written_bound(a), limit: None }),
        selector_of(Seq::<char>::empty()) == Some(RangeSelector { offset: None, limit: None }),
{
    let s = a + seq![separator()] + b;
    if a.len() > 0 {
        lemma_numeral_is_one_segment(a);
    }
    if b.len() > 0 {
        lemma_numeral_is_one_segment(b);
    }
    lemma_first_index_of(a, separator());
    lemma_first_index_of(b, separator());
    assert(first_index_of(a, separator()) == a.len());
    assert(first_index_of(b, separator()) == b.len());
    lemma_first_index_of_unique(s, separator(), a.len() as int);
    assert(lower_segment(s) =~= a);
    assert(after_separator(s) =~= b);
    assert(lower_segment(b) =~= b);
    assert(lower_segment(a) =~= a);
    assert(after_separator(a) =~= Seq::<char>::empty());
    assert(upper_segment(a) =~= Seq::<char>::empty());
    let e = Seq::<char>::empty();
    assert(lower_segment(e) =~= e);
    assert(upper_segment(e) =~= e);
}

} // verus!
