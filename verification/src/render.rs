//! Verified text rendering: decimal numbers, prices in cents, and the one-line
//! record format used by `lookup` and `search`.

use crate::book::Book;
use crate::book::BookView;
use vstd::prelude::*;
use vstd::string::StrSliceExecFns;
use vstd::string::StringExecFns;

verus! {

/// The decimal digit character for `d` (meaningful for `d < 10`).
pub open spec fn digit_char(d: nat) -> char {
    if d == 0 {
        '0'
    } else if d == 1 {
        '1'
    } else if d == 2 {
        '2'
    } else if d == 3 {
        '3'
    } else if d == 4 {
        '4'
    } else if d == 5 {
        '5'
    } else if d == 6 {
        '6'
    } else if d == 7 {
        '7'
    } else if d == 8 {
        '8'
    } else {
        '9'
    }
}

/// The decimal digits of `n`, most significant first, with no sign and no
/// leading zeros (zero itself renders as a single '0').
pub open spec fn dec_digits(n: nat) -> Seq<char>
    decreases n,
{
    if n < 10 {
        seq![digit_char(n)]
    } else {
        dec_digits(n / 10) + seq![digit_char(n % 10)]
    }
}

/// The decimal rendering of `n`, with a leading '-' for negative values.
pub open spec fn int_digits(n: int) -> Seq<char> {
    if n < 0 {
        seq!['-'] + dec_digits((-n) as nat)
    } else {
        dec_digits(n as nat)
    }
}

/// A price in cents rendered as whole units, a dot, and exactly two digits.
pub open spec fn money_digits(cents: nat) -> Seq<char> {
    dec_digits(cents / 100) + seq!['.'] + seq![
        digit_char((cents % 100) / 10),
        digit_char((cents % 100) % 10),
    ]
}

/// The one-line rendering of a catalog row.
pub open spec fn book_line(b: BookView) -> Seq<char> {
    "Title: "@ + b.title + " | ID: "@ + int_digits(b.item_number) + " | Subject: "@ + b.subject
        + " | Cost "@ + money_digits(b.cost_cents)
}

fn digit_str(d: u64) -> (r: &'static str)
    requires
        d < 10,
    ensures
        r@ == seq![digit_char(d as nat)],
{
    let r = match d {
        0 => "0",
        1 => "1",
        2 => "2",
        3 => "3",
        4 => "4",
        5 => "5",
        6 => "6",
        7 => "7",
        8 => "8",
        _ => "9",
    };
    proof {
        reveal_strlit("0");
        reveal_strlit("1");
        reveal_strlit("2");
        reveal_strlit("3");
        reveal_strlit("4");
        reveal_strlit("5");
        reveal_strlit("6");
        reveal_strlit("7");
        reveal_strlit("8");
        reveal_strlit("9");
    }
    r
}

/// Renders `n` as its decimal digits.
pub fn u64_to_string(n: u64) -> (s: String)
    ensures
        s@ == dec_digits(n as nat),
    decreases n,
{
    if n < 10 {
        digit_str(n).to_owned()
    } else {
        let mut s = u64_to_string(n / 10);
        s.append(digit_str(n % 10));
        s
    }
}

/// Renders `n` as its decimal digits, '-'-prefixed when negative.
pub fn i64_to_string(n: i64) -> (s: String)
    ensures
        s@ == int_digits(n as int),
{
    if n < 0 {
        let mag: u64 = if n == i64::MIN {
            9223372036854775808u64
        } else {
            (-n) as u64
        };
        assert(mag as nat == (-(n as int)) as nat);
        let mut s = "-".to_owned();
        let digits = u64_to_string(mag);
        s.append(digits.as_str());
        proof {
            reveal_strlit("-");
            assert(s@ =~= int_digits(n as int));
        }
        s
    } else {
        u64_to_string(n as u64)
    }
}

/// Renders a price in cents as units, '.', and two digits.
pub fn money_to_string(cents: u64) -> (s: String)
    ensures
        s@ == money_digits(cents as nat),
{
    let mut s = u64_to_string(cents / 100);
    s.append(".");
    s.append(digit_str((cents % 100) / 10));
    s.append(digit_str((cents % 100) % 10));
    proof {
        reveal_strlit(".");
        assert(s@ =~= money_digits(cents as nat));
    }
    s
}

/// Renders one catalog row on one line: title, item number, subject, cost.
pub fn format_book(b: &Book) -> (s: String)
    ensures
        s@ == book_line(b@),
{
    let mut s = "Title: ".to_owned();
    s.append(b.title.as_str());
    s.append(" | ID: ");
    let id = i64_to_string(b.item_number);
    s.append(id.as_str());
    s.append(" | Subject: ");
    s.append(b.subject.as_str());
    s.append(" | Cost ");
    let money = money_to_string(b.cost_cents);
    s.append(money.as_str());
    proof {
        assert(s@ =~= book_line(b@));
    }
    s
}

} // verus!
