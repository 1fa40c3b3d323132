//! Numbers and lists as text.

use vstd::prelude::*;

verus! {

/// The lower-case hexadecimal digit for `n`, which is below sixteen.
pub open spec fn hex_char(n: nat) -> char {
    if n < 10 {
        (48 + n) as char
    } else {
        (87 + n) as char
    }
}

/// `n` in decimal, without leading zeros.
pub open spec fn decimal(n: nat) -> Seq<char>
    decreases n,
{
    if n < 10 {
        seq![hex_char(n)]
    } else {
        decimal(n / 10).push(hex_char(n % 10))
    }
}

/// The octet `b` as two hexadecimal digits.
pub open spec fn hex_octet(b: u8) -> Seq<char> {
    seq![hex_char(b as nat / 16), hex_char(b as nat % 16)]
}

/// The items of `list` one after the other, with `separator` between neighbours.
pub open spec fn joined(list: Seq<Seq<char>>, separator: Seq<char>) -> Seq<char>
    decreases list.len(),
{
    if list.len() == 0 {
        Seq::empty()
    } else if list.len() == 1 {
        list[0]
    } else {
        joined(list.drop_last(), separator) + separator + list.last()
    }
}

/// The contents of a list of string slices.
pub open spec fn texts(list: Seq<&'static str>) -> Seq<Seq<char>> {
    list.map_values(|s: &'static str| s@)
}

/// The one-digit text for a value below sixteen.
pub fn hex_digit(n: u8) -> (digit: &'static str)
    requires
        n < 16,
    ensures
        digit@ == seq![hex_char(n as nat)],
{
    proof {
        reveal_strlit("0");
        reveal_strlit("1");
        reveal_strlit("2");
        reveal_strlit("3");
        reveal_strlit("4");
        reveal_strlit("5");
        reveal_strlit("6");
        reveal_strlit("7");
        reveal_strlit("8");
        reveal_strlit("9");
        reveal_strlit("a");
        reveal_strlit("b");
        reveal_strlit("c");
        reveal_strlit("d");
        reveal_strlit("e");
        reveal_strlit("f");
    }
    match n {
        0 => "0",
        1 => "1",
        2 => "2",
        3 => "3",
        4 => "4",
        5 => "5",
        6 => "6",
        7 => "7",
        8 => "8",
        9 => "9",
        10 => "a",
        11 => "b",
        12 => "c",
        13 => "d",
        14 => "e",
        _ => "f",
    }
}

/// `n` in decimal.
pub fn decimal_text(n: usize) -> (text: String)
    ensures
        text@ == decimal(n as nat),
    decreases n,
{
    if n < 10 {
        hex_digit(n as u8).to_owned()
    } else {
        let mut text = decimal_text(n / 10);
        text.append(hex_digit((n % 10) as u8));
        text
    }
}

/// `b` as two hexadecimal digits.
pub fn hex_octet_text(b: u8) -> (text: String)
    ensures
        text@ == hex_octet(b),
{
    let mut text = hex_digit(b / 16).to_owned();
    text.append(hex_digit(b % 16));
    text
}

/// Joins the items of `list`, with `separator` between neighbours.
pub fn join(list: &Vec<&'static str>, separator: &str) -> (text: String)
    ensures
        text@ == joined(texts(list@), separator@),
{
    let mut text = String::new();
    let mut i: usize = 0;
    while i < list.len()
        invariant
            i <= list.len(),
            text@ == joined(texts(list@.take(i as int)), separator@),
        decreases list.len() - i,
    {
        proof {
            let before = texts(list@.take(i as int));
            let after = texts(list@.take(i + 1));
            assert(after.drop_last() =~= before);
            assert(after.last() == list@[i as int]@);
        }
        if i > 0 {
            text.append(separator);
        }
        text.append(list[i]);
        i += 1;
    }
    proof {
        assert(list@.take(i as int) =~= list@);
    }
    text
}

/// The value of a digit, hexadecimal in lower case.
pub open spec fn digit_value(c: char) -> int {
    if '0' <= c <= '9' {
        c as int - '0' as int
    } else {
        c as int - 'a' as int + 10
    }
}

/// The number that a text of decimal digits stands for.
pub open spec fn decimal_value(text: Seq<char>) -> int
    decreases text.len(),
{
    if text.len() == 0 {
        0
    } else {
        10 * decimal_value(text.drop_last()) + digit_value(text.last())
    }
}

/// A number in decimal reads back as the number. It is digits only, at least one,
/// and starts with a zero only if it is zero.
pub proof fn law_decimal_reads_back(n: nat)
    ensures
        decimal_value(decimal(n)) == n,
        decimal(n).len() > 0,
        forall|i: int| 0 <= i < decimal(n).len() ==> '0' <= #[trigger] decimal(n)[i] <= '9',
        decimal(n)[0] == '0' <==> n == 0,
    decreases n,
{
    let text = decimal(n);
    if n < 10 {
        assert(text.drop_last() =~= Seq::empty());
        assert(decimal_value(text.drop_last()) == 0);
    } else {
        law_decimal_reads_back(n / 10);
        assert(text.drop_last() =~= decimal(n / 10));
        assert(text.last() == hex_char(n % 10));
    }
}

/// Different numbers have different texts.
pub proof fn law_decimal_is_unique(m: nat, n: nat)
    requires
        decimal(m) == decimal(n),
    ensures
        m == n,
{
    law_decimal_reads_back(m);
    law_decimal_reads_back(n);
}

/// The digit for each value below sixteen.
pub proof fn law_digits_in_order(n: nat)
    requires
        n < 16,
    ensures
        hex_char(n) == "0123456789abcdef"@[n as int],
        digit_value(hex_char(n)) == n,
{
    reveal_strlit("0123456789abcdef");
}

/// An octet in hexadecimal is two digits, and reads back as the octet.
pub proof fn law_hex_octet_reads_back(b: u8)
    ensures
        hex_octet(b).len() == 2,
        16 * digit_value(hex_octet(b)[0]) + digit_value(hex_octet(b)[1]) == b,
{
    law_digits_in_order(b as nat / 16);
    law_digits_in_order(b as nat % 16);
}

/// Two lists joined are the join of the first, the separator, and the join of the
/// second. One item is joined as it is, and none as nothing.
pub proof fn law_joined_in_parts(a: Seq<Seq<char>>, b: Seq<Seq<char>>, separator: Seq<char>)
    ensures
        a.len() == 0 ==> joined(a, separator) == Seq::<char>::empty(),
        a.len() == 1 ==> joined(a, separator) == a[0],
        a.len() > 0 && b.len() > 0 ==> joined(a + b, separator) == joined(a, separator) + separator
            + joined(b, separator),
    decreases b.len(),
{
    if a.len() > 0 && b.len() > 0 {
        assert((a + b).drop_last() =~= a + b.drop_last());
        if b.len() == 1 {
            assert(a + b.drop_last() =~= a);
        } else {
            law_joined_in_parts(a, b.drop_last(), separator);
            assert(joined(a + b, separator) =~= joined(a, separator) + separator + joined(
                b,
                separator,
            ));
        }
    }
}

/// A list of texts holds each of them, in order.
pub proof fn law_texts_are_taken_whole(list: Seq<&'static str>, i: int)
    requires
        0 <= i < list.len(),
    ensures
        texts(list).len() == list.len(),
        texts(list)[i] == list[i]@,
{
}

} // verus!
