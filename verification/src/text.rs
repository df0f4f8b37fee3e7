//! Text helpers shared by the rest of the crate: prefix tests, comparison
//! without regard to ASCII letter case, and decimal rendering, all stated
//! over `Seq<char>`.

use vstd::prelude::*;
use vstd::std_specs::iter::IteratorSpec;
use vstd::string::*;

verus! {

/// The ASCII lowercase form of a character: `'A'..='Z'` move to `'a'..='z'`,
/// every other character stays as it is.
pub open spec fn lower_char(c: char) -> char {
    if 'A' <= c && c <= 'Z' {
        ((c as u8 + 32) as u8) as char
    } else {
        c
    }
}

/// The text with every character replaced by its ASCII lowercase form.
pub open spec fn lower_text(s: Seq<char>) -> Seq<char> {
    Seq::new(s.len(), |i: int| lower_char(s[i]))
}

/// The ASCII lowercase form of a character.
pub fn to_lower(c: char) -> (r: char)
    ensures
        r == lower_char(c),
{
    if 'A' <= c && c <= 'Z' {
        ((c as u8) + 32) as char
    } else {
        c
    }
}

/// Whether `text`, with its ASCII letters in lowercase, reads `name`.
pub fn reads_as(text: &str, name: &str) -> (r: bool)
    ensures
        r == (lower_text(text@) == name@),
{
    let mut have = text.chars();
    let mut want = name.chars();
    let ghost mut n: int = 0;
    loop
        invariant
            0 <= n <= name@.len(),
            n <= text@.len(),
            want.remaining() == name@.subrange(n, name@.len() as int),
            have.remaining() == text@.subrange(n, text@.len() as int),
            lower_text(text@).subrange(0, n) == name@.subrange(0, n),
        decreases name@.len() - n,
    {
        let ghost have_left = have.remaining().len();
        let ghost want_left = want.remaining().len();
        match (have.next(), want.next()) {
            (None, None) => {
                assert(have_left == 0 && want_left == 0);
                assert(lower_text(text@).subrange(0, n) =~= lower_text(text@));
                assert(name@.subrange(0, n) =~= name@);
                return true;
            },
            (Some(c), Some(d)) => {
                if to_lower(c) != d {
                    assert(lower_text(text@)[n] != name@[n]);
                    return false;
                }
                proof {
                    assert(lower_text(text@).subrange(0, n + 1) =~= lower_text(text@).subrange(
                        0,
                        n,
                    ).push(lower_text(text@)[n]));
                    assert(name@.subrange(0, n + 1) =~= name@.subrange(0, n).push(name@[n]));
                    n = n + 1;
                }
            },
            _ => {
                assert(have_left == 0 || want_left == 0);
                assert(lower_text(text@).len() != name@.len());
                return false;
            },
        }
    }
}

/// Whether `text` begins with `prefix`, character by character.
pub fn starts_with(text: &str, prefix: &str) -> (r: bool)
    ensures
        r == prefix@.is_prefix_of(text@),
{
    let mut rest = text.chars();
    let mut want = prefix.chars();
    let ghost mut n: int = 0;
    loop
        invariant
            0 <= n <= prefix@.len(),
            n <= text@.len(),
            want.remaining() == prefix@.subrange(n, prefix@.len() as int),
            rest.remaining() == text@.subrange(n, text@.len() as int),
            prefix@.subrange(0, n) == text@.subrange(0, n),
        decreases prefix@.len() - n,
    {
        match want.next() {
            None => {
                return true;
            },
            Some(p) => {
                match rest.next() {
                    None => {
                        return false;
                    },
                    Some(t) => {
                        if p != t {
                            return false;
                        }
                        proof {
                            n = n + 1;
                        }
                    },
                }
            },
        }
    }
}

/// The character of a decimal digit.
pub open spec fn digit_char(d: nat) -> char
    recommends
        d < 10,
{
    (('0' as u8) + (d as u8)) as char
}

/// The decimal numeral of `n`, without sign or leading zeros.
pub open spec fn decimal_text(n: nat) -> Seq<char>
    decreases n,
{
    if n < 10 {
        seq![digit_char(n)]
    } else {
        decimal_text(n / 10) + seq![digit_char(n % 10)]
    }
}

/// Every character of a decimal numeral is one of `'0'..='9'`, and the numeral
/// is not empty.
pub proof fn lemma_decimal_digits(n: nat)
    ensures
        decimal_text(n).len() >= 1,
        forall|i: int|
            0 <= i < decimal_text(n).len() ==> '0' <= #[trigger] decimal_text(n)[i] <= '9',
    decreases n,
{
    if n >= 10 {
        lemma_decimal_digits(n / 10);
    }
}

fn digit_str(d: u32) -> (r: &'static str)
    requires
        d < 10,
    ensures
        r@ == seq![digit_char(d as nat)],
{
    proof {
        reveal_strlit("0");
        reveal_strlit("1");
        reveal_strlit("2");
        reveal_strlit("3");
        reveal_strlit("4");
        reveal_strlit("5");
        reveal_strlit("6");
        reveal_strlit("7");
        reveal_strlit("8");
        reveal_strlit("9");
    }
    let r = if d == 0 {
        "0"
    } else if d == 1 {
        "1"
    } else if d == 2 {
        "2"
    } else if d == 3 {
        "3"
    } else if d == 4 {
        "4"
    } else if d == 5 {
        "5"
    } else if d == 6 {
        "6"
    } else if d == 7 {
        "7"
    } else if d == 8 {
        "8"
    } else {
        "9"
    };
    assert(r@ =~= seq![digit_char(d as nat)]);
    r
}

/// Appends the decimal numeral of `n` to `out`.
pub fn append_decimal(out: &mut String, n: u32)
    ensures
        final(out)@ == old(out)@ + decimal_text(n as nat),
    decreases n,
{
    if n >= 10 {
        append_decimal(out, n / 10);
    }
    out.append(digit_str(n % 10));
    assert(out@ =~= old(out)@ + decimal_text(n as nat));
}

} // verus!
