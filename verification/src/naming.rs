//! The names under which files are stored. A file is stored under the name
//! that its part declares; where that name is taken, under the same name
//! behind a counter: `report.pdf`, `1-report.pdf`, `2-report.pdf`, ...

use vstd::prelude::*;
use crate::field::{is_file_name, is_path_char, no_path_char};

verus! {

/// The directory under the user's downloads that receives the files.
pub const DESTINATION_FOLDER: &'static str = "send-file";

/// The character of a decimal digit.
pub open spec fn digit_char(d: nat) -> char {
    if d == 0 {
        '0'
    } else if d == 1 {
        '1'
    } else if d == 2 {
        '2'
    } else if d == 3 {
        '3'
    } else if d == 4 {
        '4'
    } else if d == 5 {
        '5'
    } else if d == 6 {
        '6'
    } else if d == 7 {
        '7'
    } else if d == 8 {
        '8'
    } else {
        '9'
    }
}

/// A number in decimal digits, without leading zeros.
pub open spec fn decimal(n: nat) -> Seq<char>
    decreases n,
{
    if n < 10 {
        seq![digit_char(n)]
    } else {
        decimal(n / 10).push(digit_char(n % 10))
    }
}

/// The name that is tried at the given attempt: the declared name at the
/// first, and from then on the number of the attempt, a hyphen and the
/// declared name.
pub open spec fn candidate(name: Seq<char>, attempt: nat) -> Seq<char> {
    if attempt == 0 {
        name
    } else {
        decimal(attempt) + seq!['-'] + name
    }
}

fn digit_text(d: u32) -> (text: &'static str)
    requires
        d < 10,
    ensures
        text@ == seq![digit_char(d as nat)],
{
    proof {
        reveal_strlit("0");
        reveal_strlit("1");
        reveal_strlit("2");
        reveal_strlit("3");
        reveal_strlit("4");
        reveal_strlit("5");
        reveal_strlit("6");
        reveal_strlit("7");
        reveal_strlit("8");
        reveal_strlit("9");
    }
    let text = if d == 0 {
        "0"
    } else if d == 1 {
        "1"
    } else if d == 2 {
        "2"
    } else if d == 3 {
        "3"
    } else if d == 4 {
        "4"
    } else if d == 5 {
        "5"
    } else if d == 6 {
        "6"
    } else if d == 7 {
        "7"
    } else if d == 8 {
        "8"
    } else {
        "9"
    };
    assert(text@ =~= seq![digit_char(d as nat)]);
    text
}

/// A number in decimal digits.
pub fn decimal_text(n: u32) -> (text: String)
    ensures
        text@ == decimal(n as nat),
    decreases n,
{
    if n < 10 {
        String::from_str(digit_text(n))
    } else {
        let mut text = decimal_text(n / 10);
        text.append(digit_text(n % 10));
        proof {
            assert(text@ =~= decimal((n / 10) as nat).push(digit_char((n % 10) as nat)));
        }
        text
    }
}

/// The name to try at the given attempt.
pub fn candidate_name(name: &str, attempt: u32) -> (tried: String)
    ensures
        tried@ == candidate(name@, attempt as nat),
{
    if attempt == 0 {
        String::from_str(name)
    } else {
        let mut tried = decimal_text(attempt);
        tried.append("-");
        tried.append(name);
        proof {
            reveal_strlit("-");
            assert("-"@ =~= seq!['-']);
        }
        tried
    }
}

/// Whether `c` is a decimal digit.
pub open spec fn is_digit(c: char) -> bool {
    c == '0' || c == '1' || c == '2' || c == '3' || c == '4' || c == '5' || c == '6' || c == '7'
        || c == '8' || c == '9'
}

/// A number's decimal form is never empty, has two digits or more from ten
/// on, and holds digits only.
pub proof fn lemma_decimal_shape(n: nat)
    ensures
        decimal(n).len() >= 1,
        n >= 10 ==> decimal(n).len() >= 2,
        forall|i: int| 0 <= i < decimal(n).len() ==> is_digit(#[trigger] decimal(n)[i]),
    decreases n,
{
    if n >= 10 {
        lemma_decimal_shape(n / 10);
    }
}

/// Different numbers have different decimal forms.
pub proof fn lemma_decimal_injective(a: nat, b: nat)
    requires
        decimal(a) == decimal(b),
    ensures
        a == b,
    decreases a,
{
    lemma_decimal_shape(a);
    lemma_decimal_shape(b);
    if a < 10 && b < 10 {
        assert(seq![digit_char(a)][0] == digit_char(a));
        assert(seq![digit_char(b)][0] == digit_char(b));
    } else if a >= 10 && b >= 10 {
        let da = decimal(a / 10);
        let db = decimal(b / 10);
        assert(decimal(a).last() == digit_char(a % 10));
        assert(decimal(b).last() == digit_char(b % 10));
        assert(decimal(a).drop_last() =~= da);
        assert(decimal(b).drop_last() =~= db);
        lemma_decimal_injective(a / 10, b / 10);
        assert(a % 10 == b % 10);
    } else if a < 10 {
        assert(decimal(a).len() == 1);
    } else {
        assert(decimal(b).len() == 1);
    }
}

/// The names tried for one file are all different: no attempt repeats an
/// earlier one.
pub proof fn law_candidates_differ(name: Seq<char>, j: nat, k: nat)
    requires
        candidate(name, j) == candidate(name, k),
    ensures
        j == k,
{
    lemma_decimal_shape(j);
    lemma_decimal_shape(k);
    if j != 0 && k != 0 {
        let dj = decimal(j);
        let dk = decimal(k);
        let cj = candidate(name, j);
        let ck = candidate(name, k);
        assert(cj.len() == dj.len() + 1 + name.len());
        assert(ck.len() == dk.len() + 1 + name.len());
        assert(cj.subrange(0, dj.len() as int) =~= dj);
        assert(ck.subrange(0, dk.len() as int) =~= dk);
        lemma_decimal_injective(j, k);
    } else if j != 0 {
        assert(candidate(name, j).len() == decimal(j).len() + 1 + name.len());
    } else if k != 0 {
        assert(candidate(name, k).len() == decimal(k).len() + 1 + name.len());
    }
}

/// Every name tried for a file stands for one entry of the destination
/// directory, provided that the declared name does: no attempt leads out of
/// the directory.
pub proof fn law_candidates_stay_inside(name: Seq<char>, attempt: nat)
    requires
        is_file_name(name),
    ensures
        is_file_name(candidate(name, attempt)),
{
    if attempt != 0 {
        lemma_decimal_shape(attempt);
        let d = decimal(attempt);
        let c = candidate(name, attempt);
        assert(c.len() == d.len() + 1 + name.len());
        assert forall|i: int| 0 <= i < c.len() implies !is_path_char(#[trigger] c[i]) by {
            if i < d.len() {
                assert(c[i] == d[i]);
                assert(is_digit(d[i]));
            } else if i == d.len() {
                assert(c[i] == '-');
            } else {
                assert(c[i] == name[i - d.len() - 1]);
                assert(!is_path_char(name[i - d.len() - 1]));
            }
        }
        assert(c.len() >= 3);
    }
}

} // verus!
