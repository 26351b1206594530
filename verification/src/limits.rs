//! How much one request may carry, and how much it says it carries.

use vstd::prelude::*;
use vstd::std_specs::iter::IteratorSpec;

verus! {

broadcast use vstd::string::group_string_axioms;

/// The most bytes that one request may carry: 10 GiB.
pub const BODY_CEILING: u64 = 10 * 1024 * 1024 * 1024;

/// The ceiling as a size of this machine: the ceiling itself where a size
/// can hold it, and the largest size where it cannot.
pub fn body_limit() -> (limit: usize)
    ensures
        limit as int == if BODY_CEILING <= usize::MAX {
            BODY_CEILING as int
        } else {
            usize::MAX as int
        },
{
    if BODY_CEILING > usize::MAX as u64 {
        usize::MAX
    } else {
        BODY_CEILING as usize
    }
}

/// The number that a decimal digit stands for; `None` for any other
/// character.
pub open spec fn digit_value(c: char) -> Option<nat> {
    if c == '0' {
        Some(0)
    } else if c == '1' {
        Some(1)
    } else if c == '2' {
        Some(2)
    } else if c == '3' {
        Some(3)
    } else if c == '4' {
        Some(4)
    } else if c == '5' {
        Some(5)
    } else if c == '6' {
        Some(6)
    } else if c == '7' {
        Some(7)
    } else if c == '8' {
        Some(8)
    } else if c == '9' {
        Some(9)
    } else {
        None
    }
}

/// Whether `s` is made of decimal digits alone.
pub open spec fn all_digits(s: Seq<char>) -> bool {
    forall|i: int| 0 <= i < s.len() ==> digit_value(#[trigger] s[i]) is Some
}

/// The number that a run of decimal digits stands for.
pub open spec fn digits_value(s: Seq<char>) -> nat
    decreases s.len(),
{
    if s.len() == 0 {
        0
    } else {
        10 * digits_value(s.drop_last()) + match digit_value(s.last()) {
            Some(d) => d,
            None => 0,
        }
    }
}

/// The length that a request declares for its body, from the text of its
/// `Content-Length`: the number that the text stands for, where it is made
/// of one decimal digit or more and nothing else; no length otherwise.
pub open spec fn declared_value(text: Seq<char>) -> Option<nat> {
    if text.len() > 0 && all_digits(text) {
        Some(digits_value(text))
    } else {
        None
    }
}

fn digit_of(c: char) -> (d: Option<u64>)
    ensures
        match d {
            Some(n) => digit_value(c) == Some(n as nat),
            None => digit_value(c) is None,
        },
{
    if c == '0' {
        Some(0)
    } else if c == '1' {
        Some(1)
    } else if c == '2' {
        Some(2)
    } else if c == '3' {
        Some(3)
    } else if c == '4' {
        Some(4)
    } else if c == '5' {
        Some(5)
    } else if c == '6' {
        Some(6)
    } else if c == '7' {
        Some(7)
    } else if c == '8' {
        Some(8)
    } else if c == '9' {
        Some(9)
    } else {
        None
    }
}

proof fn lemma_push_digit(s: Seq<char>, c: char)
    ensures
        all_digits(s.push(c)) == (all_digits(s) && digit_value(c) is Some),
        digit_value(c) is Some ==> digits_value(s.push(c)) == 10 * digits_value(s)
            + digit_value(c)->0,
{
    let t = s.push(c);
    assert(t.last() == c);
    assert(t.drop_last() =~= s);
    assert forall|i: int| 0 <= i < s.len() implies s[i] == t[i] by {}
    if all_digits(t) {
        assert(digit_value(t[s.len() as int]) is Some);
        assert forall|i: int| 0 <= i < s.len() implies digit_value(#[trigger] s[i]) is Some by {
            assert(digit_value(t[i]) is Some);
        }
    }
}

/// The length that a request declares for its body, from the text of its
/// `Content-Length`. A number too large to be held comes back as the
/// largest that can be: it is beyond every ceiling all the same.
pub fn declared_length(text: &str) -> (declared: Option<u64>)
    ensures
        declared == match declared_value(text@) {
            Some(n) => Some(if n <= u64::MAX { n as u64 } else { u64::MAX }),
            None => None,
        },
{
    let mut it = text.chars();
    let ghost mut seen: Seq<char> = Seq::empty();
    let mut value: u64 = 0;
    let mut any: bool = false;
    loop
        invariant_except_break
            it.obeys_prophetic_iter_laws(),
            it.decrease() is Some,
            seen + it.remaining() == text@,
        invariant
            any == (seen.len() > 0),
            all_digits(seen),
            value as nat == if digits_value(seen) <= u64::MAX {
                digits_value(seen)
            } else {
                u64::MAX as nat
            },
        ensures
            seen == text@,
        decreases it.decrease()->0,
    {
        let ghost before = it;
        match it.next() {
            None => {
                proof {
                    assert(seen =~= text@);
                }
                break;
            },
            Some(c) => {
                proof {
                    assert(before.remaining() =~= seq![c] + it.remaining());
                    assert(seen.push(c) + it.remaining() =~= text@);
                    assert(text@[seen.len() as int] == c);
                    lemma_push_digit(seen, c);
                }
                match digit_of(c) {
                    None => {
                        proof {
                            assert(digit_value(text@[seen.len() as int]) is None);
                        }
                        return None;
                    },
                    Some(d) => {
                        value = if value > (u64::MAX - d) / 10 {
                            u64::MAX
                        } else {
                            value * 10 + d
                        };
                        any = true;
                        proof {
                            seen = seen.push(c);
                        }
                    },
                }
            },
        }
    }
    if any {
        Some(value)
    } else {
        None
    }
}

} // verus!
