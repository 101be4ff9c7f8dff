//! Text as sequences of characters: decimal and hexadecimal numerals.

use vstd::prelude::*;

verus! {

/// The decimal digit `d`.
pub open spec fn digit(d: int) -> char {
    (48 + d) as u8 as char
}

/// The lower-case hexadecimal digit `d`.
pub open spec fn hex_digit(d: int) -> char {
    if d < 10 {
        (48 + d) as u8 as char
    } else {
        (87 + d) as u8 as char
    }
}

/// `bytes` in lower-case hexadecimal, two digits each.
pub open spec fn hex_text(bytes: Seq<u8>) -> Seq<char> {
    Seq::new(
        2 * bytes.len(),
        |i: int|
            if i % 2 == 0 {
                hex_digit(bytes[i / 2] as int / 16)
            } else {
                hex_digit(bytes[i / 2] as int % 16)
            },
    )
}

/// The lowest `n` hexadecimal digits of `v`, most significant first.
pub open spec fn hex_digits(v: nat, n: nat) -> Seq<char>
    decreases n,
{
    if n == 0 {
        Seq::empty()
    } else {
        hex_digits(v / 16, (n - 1) as nat).push(hex_digit((v % 16) as int))
    }
}

/// The 32 hexadecimal digits of a 128-bit identifier.
pub open spec fn u128_hex(id: u128) -> Seq<char> {
    hex_digits(id as nat, 32)
}

/// The hyphenated form of a 128-bit identifier: 8-4-4-4-12 digits.
pub open spec fn u128_hyphenated(id: u128) -> Seq<char> {
    let h = u128_hex(id);
    h.subrange(0, 8).push('-') + h.subrange(8, 12).push('-') + h.subrange(12, 16).push('-')
        + h.subrange(16, 20).push('-') + h.subrange(20, 32)
}

/// `n` in decimal, without leading zeros.
pub open spec fn decimal(n: nat) -> Seq<char>
    decreases n,
{
    if n < 10 {
        seq![digit(n as int)]
    } else {
        decimal(n / 10).push(digit((n % 10) as int))
    }
}

/// `i` in decimal, with a leading `-` when negative.
pub open spec fn signed_decimal(i: int) -> Seq<char> {
    if i < 0 {
        seq!['-'] + decimal((-i) as nat)
    } else {
        decimal(i as nat)
    }
}

/// The characters of `s`.
pub fn chars(s: &str) -> (r: Vec<char>)
    ensures
        r@ == s@,
{
    let mut r: Vec<char> = Vec::new();
    for c in it: s.chars()
        invariant
            r@ == it.seq().take(it.index() as int),
    {
        r.push(c);
    }
    r
}

/// Whether `a` and `b` are the same text.
pub fn same(a: &str, b: &str) -> (r: bool)
    ensures
        r == (a@ == b@),
{
    let x: Vec<char> = chars(a);
    let y: Vec<char> = chars(b);
    if x.len() != y.len() {
        return false;
    }
    let mut i: usize = 0;
    while i < x.len()
        invariant
            x@ == a@,
            y@ == b@,
            x.len() == y.len(),
            i <= x.len(),
            forall|j: int| 0 <= j < i ==> x[j] == y[j],
        decreases x.len() - i,
    {
        if x[i] != y[i] {
            assert(a@[i as int] != b@[i as int]);
            return false;
        }
        i = i + 1;
    }
    assert(a@ =~= b@);
    true
}

/// Whether `c` is a decimal digit.
pub open spec fn is_digit(c: char) -> bool {
    '0' <= c <= '9'
}

/// Whether `s` is a non-empty run of decimal digits.
pub open spec fn is_numeral(s: Seq<char>) -> bool {
    s.len() > 0 && forall|i: int| 0 <= i < s.len() ==> is_digit(#[trigger] s[i])
}

/// The number that a run of decimal digits denotes.
pub open spec fn numeral_value(s: Seq<char>) -> nat
    decreases s.len(),
{
    if s.len() == 0 {
        0
    } else {
        10 * numeral_value(s.drop_last()) + (s.last() as nat - 48) as nat
    }
}

/// The 64-bit integer that `s` denotes: an optional sign, then decimal digits
/// only, in range.
pub open spec fn integer_value(s: Seq<char>) -> Option<i64> {
    let signed = s.len() > 0 && (s[0] == '-' || s[0] == '+');
    let body = if signed { s.skip(1) } else { s };
    let v: int = if s.len() > 0 && s[0] == '-' {
        -(numeral_value(body) as int)
    } else {
        numeral_value(body) as int
    };
    if is_numeral(body) && i64::MIN <= v <= i64::MAX {
        Some(v as i64)
    } else {
        None
    }
}

/// Appends `v` in decimal.
pub fn push_decimal(out: &mut String, v: u64)
    ensures
        final(out)@ == old(out)@ + decimal(v as nat),
    decreases v,
{
    if v >= 10 {
        push_decimal(out, v / 10);
    }
    let d: u8 = (v % 10) as u8;
    out.push((48 + d) as char);
    proof {
        assert(out@ =~= old(out)@ + decimal(v as nat));
    }
}

/// Appends `v` in decimal, with a leading `-` when negative.
pub fn push_integer(out: &mut String, v: i64)
    ensures
        final(out)@ == old(out)@ + signed_decimal(v as int),
{
    if v < 0 {
        out.push('-');
        let m: u64 = if v == i64::MIN { 9223372036854775808 } else { (-v) as u64 };
        push_decimal(out, m);
        proof {
            assert(out@ =~= old(out)@ + signed_decimal(v as int));
        }
    } else {
        push_decimal(out, v as u64);
    }
}

/// Reads a 64-bit integer: an optional sign, then decimal digits only.
pub fn parse_integer(s: &str) -> (r: Option<i64>)
    ensures
        r == integer_value(s@),
{
    let c: Vec<char> = chars(s);
    if c.len() == 0 {
        return None;
    }
    let negative: bool = c[0] == '-';
    let start: usize = if negative || c[0] == '+' { 1 } else { 0 };
    let ghost body = s@.skip(start as int);
    if start == c.len() {
        return None;
    }
    let limit: u64 = 9223372036854775808;
    let mut i: usize = start;
    let mut v: u64 = 0;
    let mut over: bool = false;
    proof {
        assert(body.take(0) =~= Seq::<char>::empty());
        assert(s@.skip(0) =~= s@);
    }
    while i < c.len()
        invariant
            c@ == s@,
            start <= i <= c.len(),
            start == 1 || (start == 0 && s@.skip(0) == s@),
            start == 1 <==> s@[0] == '-' || s@[0] == '+',
            body == s@.skip(start as int),
            limit == 9223372036854775808,
            forall|j: int| 0 <= j < i - start ==> is_digit(#[trigger] body[j]),
            over ==> numeral_value(body.take(i - start)) > limit,
            !over ==> v == numeral_value(body.take(i - start)) && v <= limit,
        decreases c.len() - i,
    {
        let d: char = c[i];
        proof {
            assert(body[i - start] == d);
        }
        if !('0' <= d && d <= '9') {
            return None;
        }
        let n: u64 = (d as u32 - 48) as u64;
        proof {
            assert(body.take(i + 1 - start).drop_last() =~= body.take(i - start));
            assert(body.take(i + 1 - start).last() == d);
        }
        if !over {
            if v > (limit - n) / 10 {
                over = true;
            } else {
                v = 10 * v + n;
            }
        }
        i = i + 1;
    }
    proof {
        assert(body.take(i - start) =~= body);
    }
    if over {
        None
    } else if negative {
        if v == limit {
            Some(i64::MIN)
        } else {
            Some(-(v as i64))
        }
    } else if v == limit {
        None
    } else {
        Some(v as i64)
    }
}

proof fn lemma_decimal_is_numeral(n: nat)
    ensures
        is_numeral(decimal(n)),
        numeral_value(decimal(n)) == n,
    decreases n,
{
    reveal_with_fuel(numeral_value, 2);
    if n >= 10 {
        lemma_decimal_is_numeral(n / 10);
        assert(decimal(n).drop_last() =~= decimal(n / 10));
    } else {
        assert(decimal(n).drop_last() =~= Seq::<char>::empty());
    }
}

/// `10` to the power of `n`.
pub open spec fn power10(n: nat) -> nat
    decreases n,
{
    if n == 0 {
        1
    } else {
        10 * power10((n - 1) as nat)
    }
}

proof fn lemma_decimal_len(n: nat, k: nat)
    requires
        n < power10(k),
        k > 0,
    ensures
        decimal(n).len() <= k,
    decreases k,
{
    if n >= 10 {
        assert(k > 1) by {
            if k == 1 {
                assert(power10(1) == 10 * power10(0));
            }
        }
        lemma_decimal_len(n / 10, (k - 1) as nat);
    }
}

/// The magnitude of a 64-bit integer takes only digits in decimal, at most
/// nineteen of them.
pub proof fn lemma_decimal(n: nat)
    requires
        n <= 9223372036854775808,
    ensures
        is_numeral(decimal(n)),
        decimal(n).len() <= 19,
{
    lemma_decimal_is_numeral(n);
    assert(power10(19) == 10000000000000000000) by {
        reveal_with_fuel(power10, 20);
    }
    lemma_decimal_len(n, 19);
}

/// Writing a 64-bit integer in decimal and reading it back gives the integer.
pub proof fn integer_text_round_trips(v: i64)
    ensures
        integer_value(signed_decimal(v as int)) == Some(v),
{
    let s = signed_decimal(v as int);
    if v < 0 {
        lemma_decimal_is_numeral((-(v as int)) as nat);
        assert(s.skip(1) =~= decimal((-(v as int)) as nat));
    } else {
        lemma_decimal_is_numeral(v as nat);
        assert(is_digit(s[0]));
    }
}

/// Where `c` first stands in `s`, or the length of `s` when it does not.
pub open spec fn first_index(s: Seq<char>, c: char) -> int
    decreases s.len(),
{
    if s.len() == 0 || s[0] == c {
        0
    } else {
        1 + first_index(s.skip(1), c)
    }
}

/// `first_index` is the least position that holds `c`.
pub proof fn lemma_first_index(s: Seq<char>, c: char)
    ensures
        0 <= first_index(s, c) <= s.len(),
        first_index(s, c) < s.len() ==> s[first_index(s, c)] == c,
        forall|i: int| 0 <= i < first_index(s, c) ==> s[i] != c,
    decreases s.len(),
{
    if s.len() > 0 && s[0] != c {
        lemma_first_index(s.skip(1), c);
        assert forall|i: int| 0 <= i < first_index(s, c) implies s[i] != c by {
            if i > 0 {
                assert(s.skip(1)[i - 1] == s[i]);
            }
        }
    }
}

/// `head`, the separator, then the rest.
pub open spec fn field(head: Seq<char>, separator: char, rest: Seq<char>) -> Seq<char> {
    head.push(separator) + rest
}

/// A head without the separator can be told from what follows it.
pub proof fn lemma_field(
    a: Seq<char>,
    x: Seq<char>,
    b: Seq<char>,
    y: Seq<char>,
    separator: char,
)
    requires
        field(a, separator, x) == field(b, separator, y),
        forall|i: int| 0 <= i < a.len() ==> #[trigger] a[i] != separator,
        forall|i: int| 0 <= i < b.len() ==> #[trigger] b[i] != separator,
    ensures
        a == b,
        x == y,
{
    let s = field(a, separator, x);
    assert(s[a.len() as int] == separator);
    assert(s[b.len() as int] == separator) by {
        assert(s == field(b, separator, y));
    }
    if a.len() < b.len() {
        assert(b[a.len() as int] == s[a.len() as int]);
    } else if b.len() < a.len() {
        assert(a[b.len() as int] == s[b.len() as int]);
    }
    assert(a =~= s.take(a.len() as int));
    assert(b =~= s.take(b.len() as int));
    assert(x =~= s.skip(a.len() as int + 1));
    assert(y =~= s.skip(b.len() as int + 1));
}

/// Whether `c` is a lower-case hexadecimal digit.
pub open spec fn is_hex_digit(c: char) -> bool {
    '0' <= c <= '9' || 'a' <= c <= 'f'
}

proof fn lemma_hex_digits(v: nat, n: nat)
    ensures
        hex_digits(v, n).len() == n,
        forall|i: int| 0 <= i < n ==> is_hex_digit(#[trigger] hex_digits(v, n)[i]),
    decreases n,
{
    if n > 0 {
        lemma_hex_digits(v / 16, (n - 1) as nat);
    }
}

/// A hyphenated identifier is made of hexadecimal digits and hyphens.
pub proof fn lemma_u128_hyphenated(id: u128)
    ensures
        u128_hyphenated(id).len() == 36,
        forall|i: int|
            0 <= i < 36 ==> #[trigger] u128_hyphenated(id)[i] == '-' || is_hex_digit(
                u128_hyphenated(id)[i],
            ),
{
    lemma_hex_digits(id as nat, 32);
}

/// Where `c` first stands in `s` from `from` on, or the length of `s` when it
/// does not.
pub fn find_from(s: &Vec<char>, from: usize, c: char) -> (r: usize)
    requires
        from <= s.len(),
    ensures
        r == from + first_index(s@.skip(from as int), c),
        from <= r <= s.len(),
{
    let mut i: usize = from;
    while i < s.len()
        invariant
            from <= i <= s.len(),
            first_index(s@.skip(from as int), c) == i - from + first_index(s@.skip(i as int), c),
        decreases s.len() - i,
    {
        proof {
            assert(s@.skip(i as int)[0] == s@[i as int]);
            assert(s@.skip(i as int).skip(1) =~= s@.skip(i + 1));
        }
        if s[i] == c {
            return i;
        }
        i = i + 1;
    }
    i
}

/// The parts of `s` between the separators.
pub open spec fn pieces(s: Seq<char>, separator: char) -> Seq<Seq<char>>
    decreases s.len(),
{
    let k = first_index(s, separator);
    if 0 <= k < s.len() {
        seq![s.take(k)] + pieces(s.skip(k + 1), separator)
    } else {
        seq![s]
    }
}

/// A space or a tab.
pub open spec fn blank(c: char) -> bool {
    c == ' ' || c == '\t'
}

/// `s` without the blanks around it.
pub open spec fn trimmed(s: Seq<char>) -> Seq<char>
    decreases s.len(),
{
    if s.len() > 0 && blank(s[0]) {
        trimmed(s.skip(1))
    } else if s.len() > 0 && blank(s.last()) {
        trimmed(s.drop_last())
    } else {
        s
    }
}

/// The same letter in lower case.
pub open spec fn lower(c: char) -> char {
    if 'A' <= c <= 'Z' {
        (c as u8 + 32) as u8 as char
    } else {
        c
    }
}

fn lower_case(c: char) -> (r: char)
    ensures
        r == lower(c),
{
    if 'A' <= c && c <= 'Z' {
        (c as u8 + 32) as char
    } else {
        c
    }
}

/// The same text up to the case of its ASCII letters.
pub open spec fn same_letters(a: Seq<char>, b: Seq<char>) -> bool {
    a.len() == b.len() && forall|i: int|
        0 <= i < a.len() ==> lower(#[trigger] a[i]) == lower(b[i])
}

/// Whether `a` and `b` are the same text up to the case of ASCII letters.
pub fn same_ignoring_case(a: &str, b: &str) -> (r: bool)
    ensures
        r == same_letters(a@, b@),
{
    let x: Vec<char> = chars(a);
    let y: Vec<char> = chars(b);
    if x.len() != y.len() {
        return false;
    }
    let mut i: usize = 0;
    while i < x.len()
        invariant
            x@ == a@,
            y@ == b@,
            x.len() == y.len(),
            i <= x.len(),
            forall|j: int| 0 <= j < i ==> lower(#[trigger] a@[j]) == lower(b@[j]),
        decreases x.len() - i,
    {
        if lower_case(x[i]) != lower_case(y[i]) {
            assert(lower(a@[i as int]) != lower(b@[i as int]));
            return false;
        }
        i = i + 1;
    }
    true
}

/// A text without the separator is its only part.
pub proof fn one_piece_without_a_separator(s: Seq<char>, separator: char)
    requires
        forall|i: int| 0 <= i < s.len() ==> #[trigger] s[i] != separator,
    ensures
        pieces(s, separator) == seq![s],
{
    lemma_first_index(s, separator);
    if first_index(s, separator) < s.len() {
        assert(s[first_index(s, separator)] == separator);
    }
}

/// What stands before the first separator is the first part, and the rest has
/// the other parts.
pub proof fn pieces_split_at_the_separator(head: Seq<char>, rest: Seq<char>, separator: char)
    requires
        forall|i: int| 0 <= i < head.len() ==> #[trigger] head[i] != separator,
    ensures
        pieces(head.push(separator) + rest, separator) == seq![head] + pieces(rest, separator),
{
    let s = head.push(separator) + rest;
    let k = first_index(s, separator);
    lemma_first_index(s, separator);
    assert(s[head.len() as int] == separator);
    if k < head.len() {
        assert(s[k] == head[k]);
    }
    assert(k == head.len());
    assert(s.take(k) =~= head);
    assert(s.skip(k + 1) =~= rest);
}

/// No part holds the separator.
pub proof fn no_piece_holds_the_separator(s: Seq<char>, separator: char, i: int, j: int)
    requires
        0 <= i < pieces(s, separator).len(),
        0 <= j < pieces(s, separator)[i].len(),
    ensures
        pieces(s, separator)[i][j] != separator,
    decreases s.len(),
{
    let k = first_index(s, separator);
    lemma_first_index(s, separator);
    if 0 <= k < s.len() && i > 0 {
        no_piece_holds_the_separator(s.skip(k + 1), separator, i - 1, j);
    }
}

proof fn lemma_trimmed(s: Seq<char>) -> (r: (int, int))
    ensures
        0 <= r.0 <= r.1 <= s.len(),
        trimmed(s) == s.subrange(r.0, r.1),
        forall|i: int| 0 <= i < r.0 ==> blank(#[trigger] s[i]),
        forall|i: int| r.1 <= i < s.len() ==> blank(#[trigger] s[i]),
        trimmed(s).len() > 0 ==> !blank(trimmed(s)[0]) && !blank(trimmed(s).last()),
    decreases s.len(),
{
    if s.len() > 0 && blank(s[0]) {
        let t = s.skip(1);
        let (a, b) = lemma_trimmed(t);
        assert(s.subrange(a + 1, b + 1) =~= t.subrange(a, b));
        assert forall|i: int| 0 <= i < a + 1 implies blank(#[trigger] s[i]) by {
            if i > 0 {
                assert(t[i - 1] == s[i]);
            }
        }
        assert forall|i: int| b + 1 <= i < s.len() implies blank(#[trigger] s[i]) by {
            assert(t[i - 1] == s[i]);
        }
        (a + 1, b + 1)
    } else if s.len() > 0 && blank(s.last()) {
        let t = s.drop_last();
        let (a, b) = lemma_trimmed(t);
        assert(s.subrange(a, b) =~= t.subrange(a, b));
        assert forall|i: int| 0 <= i < a implies blank(#[trigger] s[i]) by {
            assert(t[i] == s[i]);
        }
        assert forall|i: int| b <= i < s.len() implies blank(#[trigger] s[i]) by {
            if i < t.len() {
                assert(t[i] == s[i]);
            }
        }
        (a, b)
    } else {
        assert(s.subrange(0, s.len() as int) =~= s);
        (0, s.len() as int)
    }
}

/// Only spaces and tabs are taken from the ends of a text, and none is left
/// there.
pub proof fn trimming_takes_the_blanks_around(s: Seq<char>)
    ensures
        exists|a: int, b: int|
            0 <= a <= b <= s.len() && trimmed(s) == #[trigger] s.subrange(a, b) && (forall|i: int|
                0 <= i < a ==> #[trigger] s[i] == ' ' || s[i] == '\t') && (forall|i: int|
                b <= i < s.len() ==> #[trigger] s[i] == ' ' || s[i] == '\t'),
        trimmed(s).len() > 0 ==> trimmed(s)[0] != ' ' && trimmed(s)[0] != '\t' && trimmed(s).last()
            != ' ' && trimmed(s).last() != '\t',
{
    let (a, b) = lemma_trimmed(s);
    assert(trimmed(s) == s.subrange(a, b));
    assert forall|i: int| 0 <= i < a implies #[trigger] s[i] == ' ' || s[i] == '\t' by {
        assert(blank(s[i]));
    }
    assert forall|i: int| b <= i < s.len() implies #[trigger] s[i] == ' ' || s[i] == '\t' by {
        assert(blank(s[i]));
    }
}

/// The digits are those of the numerals, in their order.
pub proof fn the_digits_stand_in_order(d: int)
    ensures
        0 <= d < 10 ==> digit(d) == "0123456789"@[d],
        0 <= d < 16 ==> hex_digit(d) == "0123456789abcdef"@[d],
{
    reveal_strlit("0123456789");
    reveal_strlit("0123456789abcdef");
}

/// Decimals are positional: the last digit is what is left of tens, and
/// nothing stands before the first digit but that of a greater number.
pub proof fn decimals_are_positional(n: nat, d: int)
    requires
        0 <= d < 10,
    ensures
        decimal(d as nat) == seq!["0123456789"@[d]],
        n > 0 ==> decimal((10 * n + d) as nat) == decimal(n).push("0123456789"@[d]),
        signed_decimal(n as int) == decimal(n),
        n > 0 ==> signed_decimal(-(n as int)) == "-"@ + decimal(n),
{
    the_digits_stand_in_order(d);
    reveal_strlit("-");
    assert("-"@ =~= seq!['-']);
    assert((10 * n + d) as nat / 10 == n);
    assert((10 * n + d) as nat % 10 == d);
}

/// The value of a numeral is positional too, leading zeros included.
pub proof fn numerals_are_positional(s: Seq<char>, d: int)
    requires
        0 <= d < 10,
    ensures
        numeral_value(Seq::empty()) == 0,
        numeral_value(s.push("0123456789"@[d])) == 10 * numeral_value(s) + d,
{
    reveal_strlit("0123456789");
    assert(s.push("0123456789"@[d]).drop_last() =~= s);
}

/// An integer is read from digits alone, or from digits behind one sign, and
/// only in the range of 64 bits.
pub proof fn what_reads_as_an_integer(s: Seq<char>)
    requires
        forall|i: int| 0 <= i < s.len() ==> '0' <= #[trigger] s[i] <= '9',
        s.len() > 0,
    ensures
        integer_value(s) == if numeral_value(s) <= i64::MAX {
            Some(numeral_value(s) as i64)
        } else {
            None
        },
        integer_value(seq!['+'] + s) == integer_value(s),
        integer_value(seq!['-'] + s) == if numeral_value(s) <= i64::MAX + 1 {
            Some((-(numeral_value(s) as int)) as i64)
        } else {
            None
        },
{
    assert(is_numeral(s)) by {
        assert forall|i: int| 0 <= i < s.len() implies is_digit(#[trigger] s[i]) by {
        }
    }
    assert('0' <= s[0] <= '9');
    assert((seq!['+'] + s).skip(1) =~= s);
    assert((seq!['-'] + s).skip(1) =~= s);
}

/// Nothing but an optional sign and digits reads as an integer.
pub proof fn what_does_not_read_as_an_integer(s: Seq<char>, i: int)
    requires
        s.len() == 0 || (0 <= i < s.len() && !('0' <= s[i] <= '9') && (i > 0 || (s[0] != '-'
            && s[0] != '+') || s.len() == 1)),
    ensures
        integer_value(s) is None,
{
    if s.len() > 0 {
        let signed = s[0] == '-' || s[0] == '+';
        let body = if signed { s.skip(1) } else { s };
        if signed && i > 0 {
            assert(body[i - 1] == s[i]);
            assert(!is_digit(body[i - 1]));
        } else if !signed {
            assert(!is_digit(body[i]));
        }
    }
}

/// The case of a letter does not count; every other character does.
pub proof fn only_the_case_of_letters_is_ignored(c: char, i: int)
    ensures
        0 <= i < 26 ==> lower("ABCDEFGHIJKLMNOPQRSTUVWXYZ"@[i])
            == "abcdefghijklmnopqrstuvwxyz"@[i],
        !("ABCDEFGHIJKLMNOPQRSTUVWXYZ"@.contains(c)) ==> lower(c) == c,
{
    reveal_strlit("ABCDEFGHIJKLMNOPQRSTUVWXYZ");
    reveal_strlit("abcdefghijklmnopqrstuvwxyz");
    if 'A' <= c <= 'Z' {
        let k = c as int - 65;
        assert("ABCDEFGHIJKLMNOPQRSTUVWXYZ"@[k] == c);
    }
}

} // verus!
