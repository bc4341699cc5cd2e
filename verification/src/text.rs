//! The source text of emitted declarations.
use vstd::prelude::*;
use vstd::string::StrSliceExecFns;
use vstd::string::StringExecFns;

verus! {

/// Whether `c` can stand in an identifier: an ASCII letter, a digit or an
/// underscore.
pub open spec fn plain_char(c: char) -> bool {
    ('a' <= c && c <= 'z') || ('A' <= c && c <= 'Z') || ('0' <= c && c <= '9') || c == '_'
}

/// `name` as an identifier: every character that cannot stand in one is
/// replaced by an underscore.
pub open spec fn ident(name: Seq<char>) -> Seq<char> {
    Seq::new(
        name.len(),
        |i: int|
            if plain_char(name[i]) {
                name[i]
            } else {
                '_'
            },
    )
}

/// `text` on one line: every line break in it is replaced by a space.
pub open spec fn one_line(text: Seq<char>) -> Seq<char> {
    Seq::new(
        text.len(),
        |i: int|
            if text[i] == '\n' || text[i] == '\r' {
                ' '
            } else {
                text[i]
            },
    )
}

/// The decimal digit `d`.
pub open spec fn digit(d: nat) -> Seq<char> {
    if d == 0 {
        "0"@
    } else if d == 1 {
        "1"@
    } else if d == 2 {
        "2"@
    } else if d == 3 {
        "3"@
    } else if d == 4 {
        "4"@
    } else if d == 5 {
        "5"@
    } else if d == 6 {
        "6"@
    } else if d == 7 {
        "7"@
    } else if d == 8 {
        "8"@
    } else {
        "9"@
    }
}

/// `n` in decimal, without leading zeros.
pub open spec fn decimal(n: nat) -> Seq<char>
    decreases n,
{
    if n < 10 {
        digit(n)
    } else {
        decimal(n / 10) + digit(n % 10)
    }
}

/// Computes [`plain_char`].
pub fn is_plain_char(c: char) -> (b: bool)
    ensures
        b == plain_char(c),
{
    ('a' <= c && c <= 'z') || ('A' <= c && c <= 'Z') || ('0' <= c && c <= '9') || c == '_'
}

/// Computes [`ident`].
pub fn ident_of(name: &str) -> (text: String)
    ensures
        text@ == ident(name@),
{
    let n = name.unicode_len();
    let mut text = String::new();
    let mut i: usize = 0;
    proof {
        reveal_strlit("_");
    }
    while i < n
        invariant
            i <= n == name@.len(),
            text@ == ident(name@).take(i as int),
            "_"@ == seq!['_'],
        decreases n - i,
    {
        let c = name.get_char(i);
        if is_plain_char(c) {
            text.append(name.substring_char(i, i + 1));
        } else {
            text.append("_");
        }
        i += 1;
    }
    text
}

/// Computes [`one_line`].
pub fn one_line_of(given: &str) -> (text: String)
    ensures
        text@ == one_line(given@),
{
    let n = given.unicode_len();
    let mut text = String::new();
    let mut i: usize = 0;
    proof {
        reveal_strlit(" ");
    }
    while i < n
        invariant
            i <= n == given@.len(),
            text@ == one_line(given@).take(i as int),
            " "@ == seq![' '],
        decreases n - i,
    {
        let c = given.get_char(i);
        if c == '\n' || c == '\r' {
            text.append(" ");
        } else {
            text.append(given.substring_char(i, i + 1));
        }
        i += 1;
    }
    text
}

/// Computes [`digit`].
pub fn digit_of(d: u64) -> (text: &'static str)
    requires
        d < 10,
    ensures
        text@ == digit(d as nat),
{
    if d == 0 {
        "0"
    } else if d == 1 {
        "1"
    } else if d == 2 {
        "2"
    } else if d == 3 {
        "3"
    } else if d == 4 {
        "4"
    } else if d == 5 {
        "5"
    } else if d == 6 {
        "6"
    } else if d == 7 {
        "7"
    } else if d == 8 {
        "8"
    } else {
        "9"
    }
}

/// Computes [`decimal`].
pub fn decimal_of(n: u64) -> (text: String)
    ensures
        text@ == decimal(n as nat),
    decreases n,
{
    if n < 10 {
        digit_of(n).to_owned()
    } else {
        let mut text = decimal_of(n / 10);
        text.append(digit_of(n % 10));
        text
    }
}

} // verus!
