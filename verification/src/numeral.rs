//! Decimal numerals: what a run of digits denotes, and reading one into a
//! machine integer without overflow.

use vstd::prelude::*;

verus! {

/// Whether `c` is one of the ten ASCII digits.
pub open spec fn is_digit(c: char) -> bool {
    '0' <= c <= '9'
}

/// The value of the digit `c`.
pub open spec fn digit_value(c: char) -> int {
    c as int - '0' as int
}

/// Whether `s` holds digits only.
pub open spec fn all_digits(s: Seq<char>) -> bool {
    forall|i: int| 0 <= i < s.len() ==> is_digit(#[trigger] s[i])
}

/// The number that the digits of `s` denote in base ten.
pub open spec fn digits_value(s: Seq<char>) -> int
    decreases s.len(),
{
    if s.len() == 0 {
        0
    } else {
        10 * digits_value(s.drop_last()) + digit_value(s.last())
    }
}

/// Whether `s` starts with a sign.
pub open spec fn has_sign(s: Seq<char>) -> bool {
    s.len() > 0 && (s[0] == '-' || s[0] == '+')
}

/// The digits of a numeral: `s` without its sign, if it has one.
pub open spec fn magnitude_digits(s: Seq<char>) -> Seq<char> {
    if has_sign(s) {
        s.skip(1)
    } else {
        s
    }
}

/// The integer that `s` denotes as an optionally signed decimal numeral:
/// an optional `+` or `-`, then one digit or more and nothing else.
pub open spec fn signed_value(s: Seq<char>) -> Option<int> {
    let digits = magnitude_digits(s);
    if digits.len() == 0 || !all_digits(digits) {
        None
    } else if s[0] == '-' {
        Some(-digits_value(digits))
    } else {
        Some(digits_value(digits))
    }
}

/// The `isize` that `s` denotes; `None` where `s` is no numeral or its
/// value does not fit.
pub open spec fn isize_of(s: Seq<char>) -> Option<isize> {
    match signed_value(s) {
        Some(v) => if isize::MIN <= v <= isize::MAX {
            Some(v as isize)
        } else {
            None
        },
        None => None,
    }
}

/// The `usize` that `s` denotes: an optional `+`, then digits. A `-` is
/// never accepted, not even before zero.
pub open spec fn usize_of(s: Seq<char>) -> Option<usize> {
    if s.len() > 0 && s[0] == '-' {
        None
    } else {
        match signed_value(s) {
            Some(v) => if v <= usize::MAX {
                Some(v as usize)
            } else {
                None
            },
            None => None,
        }
    }
}

/// A run of digits denotes no less than any of its prefixes.
pub proof fn lemma_digits_value_prefix(s: Seq<char>, k: int)
    requires
        all_digits(s),
        0 <= k <= s.len(),
    ensures
        0 <= digits_value(s.take(k)) <= digits_value(s),
    decreases s.len(),
{
    if k == s.len() {
        assert(s.take(k) =~= s);
        if s.len() > 0 {
            lemma_digits_value_prefix(s.drop_last(), k - 1);
            assert(s.drop_last().take(k - 1) =~= s.drop_last());
            assert(is_digit(s[s.len() - 1]));
        }
    } else {
        lemma_digits_value_prefix(s.drop_last(), k);
        assert(s.drop_last().take(k) =~= s.take(k));
        assert(is_digit(s[s.len() - 1]));
    }
}

/// Reads `chars[from..to]` as a run of digits. `None` where the run is
/// empty, holds anything but digits, or denotes more than `usize::MAX`.
pub fn read_digits(chars: &Vec<char>, from: usize, to: usize) -> (r: Option<usize>)
    requires
        from <= to <= chars@.len(),
    ensures
        r is Some <==> ({
            let d = chars@.subrange(from as int, to as int);
            d.len() > 0 && all_digits(d) && digits_value(d) <= usize::MAX
        }),
        r is Some ==> r.unwrap() == digits_value(chars@.subrange(from as int, to as int)),
{
    let ghost d = chars@.subrange(from as int, to as int);
    if from == to {
        return None;
    }
    let mut acc: usize = 0;
    let mut i: usize = from;
    while i < to
        invariant
            from <= i <= to <= chars@.len(),
            d == chars@.subrange(from as int, to as int),
            all_digits(d.take(i - from)),
            acc == digits_value(d.take(i - from)),
        decreases to - i,
    {
        let c: char = chars[i];
        let ghost p = d.take(i - from + 1);
        proof {
            assert(d[i - from] == c);
            assert(p.drop_last() =~= d.take(i - from));
            assert(p.last() == c);
        }
        if !('0' <= c && c <= '9') {
            assert(!all_digits(d));
            return None;
        }
        assert(all_digits(p)) by {
            assert forall|j: int| 0 <= j < p.len() implies is_digit(#[trigger] p[j]) by {
                if j < p.len() - 1 {
                    assert(p[j] == d.take(i - from)[j]);
                }
            }
        }
        let digit: usize = (c as u32 - '0' as u32) as usize;
        let next: Option<usize> = match acc.checked_mul(10) {
            Some(m) => m.checked_add(digit),
            None => None,
        };
        match next {
            Some(v) => {
                acc = v;
            },
            None => {
                proof {
                    assert(digits_value(p) > usize::MAX);
                    if all_digits(d) {
                        lemma_digits_value_prefix(d, i - from + 1);
                    }
                }
                return None;
            },
        }
        i += 1;
    }
    assert(d.take(to - from) =~= d);
    Some(acc)
}

/// Reads `chars[from..to]` as a signed decimal numeral.
pub fn read_isize(chars: &Vec<char>, from: usize, to: usize) -> (r: Option<isize>)
    requires
        from <= to <= chars@.len(),
    ensures
        r == isize_of(chars@.subrange(from as int, to as int)),
{
    let ghost s = chars@.subrange(from as int, to as int);
    if from == to {
        return None;
    }
    let first: char = chars[from];
    assert(s[0] == first);
    let signed: bool = first == '-' || first == '+';
    let start: usize = if signed {
        from + 1
    } else {
        from
    };
    proof {
        if signed {
            assert(s.skip(1) =~= chars@.subrange(start as int, to as int));
        }
        assert(magnitude_digits(s) == chars@.subrange(start as int, to as int));
    }
    match read_digits(chars, start, to) {
        None => None,
        Some(m) => {
            if first == '-' {
                if m == 0 {
                    Some(0)
                } else if m - 1 <= isize::MAX as usize {
                    let below: isize = (m - 1) as isize;
                    Some(-below - 1)
                } else {
                    None
                }
            } else if m <= isize::MAX as usize {
                Some(m as isize)
            } else {
                None
            }
        },
    }
}

/// Reads `chars[from..to]` as an unsigned decimal numeral.
pub fn read_usize(chars: &Vec<char>, from: usize, to: usize) -> (r: Option<usize>)
    requires
        from <= to <= chars@.len(),
    ensures
        r == usize_of(chars@.subrange(from as int, to as int)),
{
    let ghost s = chars@.subrange(from as int, to as int);
    if from == to {
        return None;
    }
    let first: char = chars[from];
    assert(s[0] == first);
    if first == '-' {
        return None;
    }
    let start: usize = if first == '+' {
        from + 1
    } else {
        from
    };
    proof {
        if first == '+' {
            assert(s.skip(1) =~= chars@.subrange(start as int, to as int));
        }
        assert(magnitude_digits(s) == chars@.subrange(start as int, to as int));
    }
    read_digits(chars, start, to)
}

} // verus!
