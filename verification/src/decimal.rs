//! Decimal numerals: how numbers are written in the story list and read back
//! from the digits a user types.

use vstd::prelude::*;

verus! {

/// The character that writes the decimal digit `d`.
pub open spec fn digit_char(d: int) -> char {
    (d + 48) as char
}

/// Whether `c` is an ASCII decimal digit.
pub open spec fn is_digit_char(c: char) -> bool {
    '0' <= c && c <= '9'
}

/// The value of the ASCII decimal digit `c`.
pub open spec fn digit_value(c: char) -> int {
    (c as int) - 48
}

/// Whether every character of `s` is an ASCII decimal digit.
pub open spec fn all_digits(s: Seq<char>) -> bool {
    forall|i: int| 0 <= i < s.len() ==> is_digit_char(#[trigger] s[i])
}

/// The decimal numeral of `n`, without sign or leading zeros.
pub open spec fn decimal(n: nat) -> Seq<char>
    decreases n,
{
    if n < 10 {
        seq![digit_char(n as int)]
    } else {
        decimal(n / 10).push(digit_char((n % 10) as int))
    }
}

/// The number that a string of decimal digits denotes.
pub open spec fn decimal_value(s: Seq<char>) -> nat
    decreases s.len(),
{
    if s.len() == 0 {
        0
    } else {
        (decimal_value(s.drop_last()) * 10 + digit_value(s.last())) as nat
    }
}

/// What reading `s` as a `usize` gives: its value, when `s` is non-empty
/// and the value fits.
pub open spec fn parsed_decimal(s: Seq<char>) -> Option<nat> {
    if s.len() == 0 || decimal_value(s) > usize::MAX {
        None
    } else {
        Some(decimal_value(s))
    }
}

/// `k` spaces.
pub open spec fn spaces(k: nat) -> Seq<char> {
    Seq::new(k, |i: int| ' ')
}

/// `s` right-aligned in a field of `width` characters: spaces in front
/// when it is shorter, `s` itself otherwise.
pub open spec fn pad_left(s: Seq<char>, width: nat) -> Seq<char> {
    if s.len() >= width {
        s
    } else {
        spaces((width - s.len()) as nat) + s
    }
}

/// A numeral is made of digits and is never empty.
pub proof fn lemma_decimal_digits(n: nat)
    ensures
        all_digits(decimal(n)),
        1 <= decimal(n).len() <= n + 1,
    decreases n,
{
    if n >= 10 {
        lemma_decimal_digits(n / 10);
    }
}

/// A larger number never has a shorter numeral.
pub proof fn lemma_decimal_len_monotone(a: nat, b: nat)
    requires
        a <= b,
    ensures
        decimal(a).len() <= decimal(b).len(),
    decreases b,
{
    lemma_decimal_digits(a);
    lemma_decimal_digits(b);
    if a >= 10 {
        lemma_decimal_len_monotone(a / 10, b / 10);
    }
}

/// Reading back the numeral of `n` gives `n`.
pub proof fn lemma_decimal_roundtrip(n: nat)
    ensures
        decimal_value(decimal(n)) == n,
    decreases n,
{
    lemma_decimal_digits(n);
    if n < 10 {
        assert(decimal(n).drop_last() =~= Seq::<char>::empty());
        assert(digit_value(digit_char(n as int)) == n);
        assert(decimal_value(decimal(n)) == (decimal_value(decimal(n).drop_last()) * 10 + digit_value(decimal(n).last())) as nat);
    } else {
        lemma_decimal_roundtrip(n / 10);
        assert(decimal(n).drop_last() =~= decimal(n / 10));
        assert(decimal(n).last() == digit_char((n % 10) as int));
        assert(digit_value(digit_char((n % 10) as int)) == n % 10);
        assert(n == (n / 10) * 10 + n % 10);
        assert(decimal_value(decimal(n)) == (decimal_value(decimal(n).drop_last()) * 10 + digit_value(decimal(n).last())) as nat);
    }
}

/// The numeral of any `usize` parses back to it.
pub proof fn lemma_parse_decimal_of_usize(n: usize)
    ensures
        parsed_decimal(decimal(n as nat)) == Some(n as nat),
{
    lemma_decimal_digits(n as nat);
    lemma_decimal_roundtrip(n as nat);
}

/// A prefix of a digit string never denotes more than the whole string.
pub proof fn lemma_decimal_value_prefix(s: Seq<char>, i: int)
    requires
        all_digits(s),
        0 <= i <= s.len(),
    ensures
        decimal_value(s.take(i)) <= decimal_value(s),
    decreases s.len() - i,
{
    if i < s.len() {
        lemma_decimal_value_prefix(s, i + 1);
        assert(s.take(i + 1).drop_last() =~= s.take(i));
        assert(is_digit_char(s[i]));
    } else {
        assert(s.take(i) =~= s);
    }
}

/// The one-character string of the digit `d`.
pub(crate) fn digit_str(d: usize) -> (s: &'static str)
    requires
        d < 10,
    ensures
        s@ == seq![digit_char(d as int)],
{
    if d == 0 {
        proof { reveal_strlit("0"); }
        "0"
    } else if d == 1 {
        proof { reveal_strlit("1"); }
        "1"
    } else if d == 2 {
        proof { reveal_strlit("2"); }
        "2"
    } else if d == 3 {
        proof { reveal_strlit("3"); }
        "3"
    } else if d == 4 {
        proof { reveal_strlit("4"); }
        "4"
    } else if d == 5 {
        proof { reveal_strlit("5"); }
        "5"
    } else if d == 6 {
        proof { reveal_strlit("6"); }
        "6"
    } else if d == 7 {
        proof { reveal_strlit("7"); }
        "7"
    } else if d == 8 {
        proof { reveal_strlit("8"); }
        "8"
    } else {
        proof { reveal_strlit("9"); }
        "9"
    }
}

/// The decimal numeral of `n`, as `n.to_string()` writes it.
pub fn decimal_string(n: usize) -> (s: String)
    ensures
        s@ == decimal(n as nat),
    decreases n,
{
    if n < 10 {
        String::from_str(digit_str(n))
    } else {
        let mut s = decimal_string(n / 10);
        s.append(digit_str(n % 10));
        s
    }
}

/// The number of characters in the decimal numeral of `n`.
pub fn decimal_len(n: usize) -> (len: usize)
    ensures
        len == decimal(n as nat).len(),
    decreases n,
{
    proof {
        lemma_decimal_digits(n as nat);
    }
    if n < 10 {
        1
    } else {
        let rest = decimal_len(n / 10);
        proof {
            lemma_decimal_digits((n / 10) as nat);
        }
        rest + 1
    }
}

/// `k` spaces.
pub fn spaces_string(k: usize) -> (s: String)
    ensures
        s@ == spaces(k as nat),
{
    let mut s = String::new();
    proof { reveal_strlit(" "); }
    for i in 0..k
        invariant
            s@ == spaces(i as nat),
            " "@ == seq![' '],
    {
        s.append(" ");
        assert(s@ =~= spaces((i + 1) as nat));
    }
    s
}

/// The numeral of `n` right-aligned in a field of `width` characters, as
/// `format!("{:>width$}", n)` writes it.
pub fn padded_decimal(n: usize, width: usize) -> (s: String)
    ensures
        s@ == pad_left(decimal(n as nat), width as nat),
{
    let digits = decimal_string(n);
    let len = decimal_len(n);
    if len >= width {
        digits
    } else {
        let mut s = spaces_string(width - len);
        s.append(digits.as_str());
        s
    }
}

/// Reads a string of decimal digits as a `usize`, as `str::parse::<usize>`
/// does on such a string: `None` when it is empty or its value overflows.
pub fn parse_decimal(s: &str) -> (res: Option<usize>)
    requires
        all_digits(s@),
    ensures
        match res {
            Some(v) => parsed_decimal(s@) == Some(v as nat),
            None => parsed_decimal(s@) is None,
        },
{
    let len = s.unicode_len();
    if len == 0 {
        return None;
    }
    let mut acc: usize = 0;
    let mut i: usize = 0;
    assert(s@.take(0) =~= Seq::<char>::empty());
    while i < len
        invariant
            i <= len,
            len == s@.len(),
            all_digits(s@),
            acc as nat == decimal_value(s@.take(i as int)),
        decreases len - i,
    {
        let c = s.get_char(i);
        assert(is_digit_char(s@[i as int]));
        let d: u32 = (c as u32) - 48;
        assert(s@.take(i + 1).drop_last() =~= s@.take(i as int));
        assert(s@.take(i + 1).last() == c);
        match acc.checked_mul(10) {
            Some(m) => match m.checked_add(d as usize) {
                Some(v) => {
                    acc = v;
                },
                None => {
                    proof {
                        lemma_decimal_value_prefix(s@, i + 1);
                    }
                    return None;
                },
            },
            None => {
                proof {
                    lemma_decimal_value_prefix(s@, i + 1);
                }
                return None;
            },
        }
        i = i + 1;
    }
    assert(s@.take(len as int) =~= s@);
    Some(acc)
}

} // verus!
