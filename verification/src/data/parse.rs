//! Reading typed values out of the text of a field.

use vstd::prelude::*;

verus! {

/// Whether every character of `s` is an ASCII decimal digit.
pub open spec fn all_digits(s: Seq<char>) -> bool {
    forall|i: int| 0 <= i < s.len() ==> '0' <= #[trigger] s[i] <= '9'
}

/// The number that the decimal digits `s` write.
pub open spec fn digits_value(s: Seq<char>) -> int
    decreases s.len(),
{
    if s.len() == 0 {
        0
    } else {
        10 * digits_value(s.drop_last()) + (s.last() as int - '0' as int)
    }
}

/// The `i8` that `s` writes in decimal: an optional `+` or `-`, then one or
/// more ASCII digits, and a value in `i8`'s range; anything else is none.
pub open spec fn i8_of(s: Seq<char>) -> Option<i8> {
    let neg = s.len() > 0 && s[0] == '-';
    let body = if s.len() > 0 && (s[0] == '-' || s[0] == '+') {
        s.drop_first()
    } else {
        s
    };
    let v = if neg {
        -digits_value(body)
    } else {
        digits_value(body)
    };
    if body.len() > 0 && all_digits(body) && -128 <= v <= 127 {
        Some(v as i8)
    } else {
        None
    }
}

/// A single decimal digit reads as its value, and with a leading `-` as
/// its negation; a leading `+` changes nothing.
pub proof fn lemma_i8_of_digit(c: char)
    requires
        '0' <= c && c <= '9',
    ensures
        i8_of(seq![c]) == Some((c as int - '0' as int) as i8),
        i8_of(seq!['-', c]) == Some((-(c as int - '0' as int)) as i8),
        i8_of(seq!['+', c]) == Some((c as int - '0' as int) as i8),
{
    let d = seq![c];
    assert(d.drop_last() =~= Seq::<char>::empty());
    assert(d.last() == c);
    assert(digits_value(Seq::<char>::empty()) == 0);
    assert(digits_value(d.drop_last()) == 0);
    assert(digits_value(d) == c as int - '0' as int);
    assert(seq!['-', c].drop_first() =~= d);
    assert(seq!['+', c].drop_first() =~= d);
}

/// `str::parse::<i8>`: the documented grammar is an optional sign followed
/// by decimal digits, with the value in range; this item claims that the
/// result is `i8_of` of the text.
#[verifier::external_body]
pub(crate) fn parse_i8(s: &str) -> (r: Option<i8>)
    ensures
        r == i8_of(s@),
{
    s.parse::<i8>().ok()
}

/// `str::parse::<T>` for any `T: FromStr`: the result depends on `T`'s
/// implementation, so this item states nothing of it.
#[verifier::external_body]
pub(crate) fn parse_value<T: std::str::FromStr>(s: &str) -> Option<T> {
    s.parse::<T>().ok()
}

} // verus!
