//! Text helpers: joining with a separator, decimal numbers, and lower case.

use vstd::prelude::*;

verus! {

/// The items written one after another with `sep` between each two of them.
pub open spec fn join(items: Seq<Seq<char>>, sep: Seq<char>) -> Seq<char>
    decreases items.len(),
{
    if items.len() == 0 {
        Seq::empty()
    } else if items.len() == 1 {
        items[0]
    } else {
        join(items.drop_last(), sep) + sep + items.last()
    }
}

/// Joining one more item appends the separator (unless it is the first) and the
/// item.
pub proof fn lemma_join_push(items: Seq<Seq<char>>, sep: Seq<char>, x: Seq<char>)
    ensures
        join(items.push(x), sep) == if items.len() == 0 {
            x
        } else {
            join(items, sep) + sep + x
        },
{
    assert(items.push(x).drop_last() =~= items);
}

/// The character of a decimal digit.
pub open spec fn digit_char(d: nat) -> char {
    (('0' as nat) + d) as char
}

/// The decimal digits of a natural number, most significant first, with no
/// leading zero.
pub open spec fn decimal_nat(n: nat) -> Seq<char>
    decreases n,
{
    if n < 10 {
        seq![digit_char(n)]
    } else {
        decimal_nat(n / 10).push(digit_char(n % 10))
    }
}

/// The decimal text of an integer, with a leading `-` where it is negative.
pub open spec fn decimal_int(i: int) -> Seq<char> {
    if i < 0 {
        seq!['-'] + decimal_nat((-i) as nat)
    } else {
        decimal_nat(i as nat)
    }
}

/// Appends the digit `d`.
fn append_digit(s: &mut String, d: u64)
    requires
        d < 10,
    ensures
        final(s)@ == old(s)@.push(digit_char(d as nat)),
{
    proof {
        reveal_strlit("0");
        reveal_strlit("1");
        reveal_strlit("2");
        reveal_strlit("3");
        reveal_strlit("4");
        reveal_strlit("5");
        reveal_strlit("6");
        reveal_strlit("7");
        reveal_strlit("8");
        reveal_strlit("9");
    }
    if d == 0 {
        s.append("0");
    } else if d == 1 {
        s.append("1");
    } else if d == 2 {
        s.append("2");
    } else if d == 3 {
        s.append("3");
    } else if d == 4 {
        s.append("4");
    } else if d == 5 {
        s.append("5");
    } else if d == 6 {
        s.append("6");
    } else if d == 7 {
        s.append("7");
    } else if d == 8 {
        s.append("8");
    } else {
        s.append("9");
    }
    assert(final(s)@ =~= old(s)@.push(digit_char(d as nat)));
}

/// Appends the decimal digits of `n`.
pub fn append_decimal_u64(s: &mut String, n: u64)
    ensures
        final(s)@ == old(s)@ + decimal_nat(n as nat),
    decreases n,
{
    if n >= 10 {
        append_decimal_u64(s, n / 10);
        append_digit(s, n % 10);
        assert(final(s)@ =~= old(s)@ + decimal_nat(n as nat));
    } else {
        append_digit(s, n);
        assert(final(s)@ =~= old(s)@ + decimal_nat(n as nat));
    }
}

/// Appends the decimal text of `n`.
pub fn append_decimal_i32(s: &mut String, n: i32)
    ensures
        final(s)@ == old(s)@ + decimal_int(n as int),
{
    if n < 0 {
        proof {
            reveal_strlit("-");
        }
        s.append("-");
        let m: i64 = n as i64;
        let u: u64 = (-m) as u64;
        append_decimal_u64(s, u);
        assert(final(s)@ =~= old(s)@ + decimal_int(n as int));
    } else {
        append_decimal_u64(s, n as u64);
    }
}

/// What `str::to_lowercase` returns for a text: the lower-case mapping of Unicode,
/// character by character, where some characters map to several.
pub uninterp spec fn lowercased(s: Seq<char>) -> Seq<char>;

/// `str::to_lowercase`. Its result depends on its argument alone, and is named
/// `lowercased`; nothing more of it is stated here.
#[verifier::external_body]
pub(crate) fn to_lowercase(s: &str) -> (r: String)
    ensures
        r@ == lowercased(s@),
{
    s.to_lowercase()
}

/// Whether a string reads exactly as a literal.
pub fn text_is(s: &String, lit: &str) -> (b: bool)
    ensures
        b == (s@ == lit@),
{
    let t = String::from_str(lit);
    *s == t
}

} // verus!
