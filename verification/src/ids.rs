//! Typed identifiers: a resource prefix and a 128-bit identifier in Crockford
//! Base32.

use vstd::prelude::*;
use vstd::arithmetic::div_mod::lemma_div_denominator;
use vstd::arithmetic::power::{lemma_pow0, lemma_pow_positive, pow};
use crate::text::chars;

verus! {

/// The prefix of a direct notification's id.
pub const NOTIFICATION: &'static str = "notif";

/// The prefix of a broadcast's id.
pub const BROADCAST: &'static str = "bcast";

/// How many characters follow the prefix.
pub const SUFFIX_LENGTH: usize = 26;

/// The character of a five-bit value: digits, then the lower-case letters
/// without `i`, `l`, `o` and `u`.
pub open spec fn base32_char(v: int) -> char {
    if v < 10 {
        (48 + v) as u8 as char
    } else if v < 18 {
        (87 + v) as u8 as char
    } else if v < 20 {
        (88 + v) as u8 as char
    } else if v < 22 {
        (89 + v) as u8 as char
    } else if v < 27 {
        (90 + v) as u8 as char
    } else {
        (91 + v) as u8 as char
    }
}

/// The five-bit value of a character.
pub open spec fn base32_value(c: char) -> Option<nat> {
    if '0' <= c <= '9' {
        Some((c as nat - 48) as nat)
    } else if 'a' <= c <= 'h' {
        Some((c as nat - 87) as nat)
    } else if 'j' <= c <= 'k' {
        Some((c as nat - 88) as nat)
    } else if 'm' <= c <= 'n' {
        Some((c as nat - 89) as nat)
    } else if 'p' <= c <= 't' {
        Some((c as nat - 90) as nat)
    } else if 'v' <= c <= 'z' {
        Some((c as nat - 91) as nat)
    } else {
        None
    }
}

/// The lowest `n` five-bit digits of `v`, most significant first.
pub open spec fn base32_digits(v: nat, n: nat) -> Seq<char>
    decreases n,
{
    if n == 0 {
        Seq::empty()
    } else {
        base32_digits(v / 32, (n - 1) as nat).push(base32_char((v % 32) as int))
    }
}

/// The number that five-bit digits denote, most significant first.
pub open spec fn base32_number(s: Seq<char>) -> Option<nat>
    decreases s.len(),
{
    if s.len() == 0 {
        Some(0)
    } else {
        match (base32_number(s.drop_last()), base32_value(s.last())) {
            (Some(high), Some(low)) => Some(32 * high + low),
            _ => None,
        }
    }
}

/// The typed form of an identifier.
pub open spec fn typeid_text(prefix: Seq<char>, id: u128) -> Seq<char> {
    prefix.push('_') + base32_digits(id as nat, SUFFIX_LENGTH as nat)
}

/// The identifier that a typed form of that prefix denotes. The first
/// character of the suffix holds three bits.
pub open spec fn typeid_value(prefix: Seq<char>, text: Seq<char>) -> Option<u128> {
    let n = prefix.len() as int;
    if text.len() == n + 1 + SUFFIX_LENGTH && text.take(n) == prefix && text[n] == '_' && '0'
        <= text[n + 1] <= '7' {
        match base32_number(text.skip(n + 1)) {
            Some(v) => Some(v as u128),
            None => None,
        }
    } else {
        None
    }
}

fn base32_letter(v: u8) -> (r: char)
    requires
        v < 32,
    ensures
        r == base32_char(v as int),
{
    if v < 10 {
        (48 + v) as char
    } else if v < 18 {
        (87 + v) as char
    } else if v < 20 {
        (88 + v) as char
    } else if v < 22 {
        (89 + v) as char
    } else if v < 27 {
        (90 + v) as char
    } else {
        (91 + v) as char
    }
}

fn base32_read(c: char) -> (r: Option<u8>)
    ensures
        match r {
            Some(v) => base32_value(c) == Some(v as nat) && v < 32,
            None => base32_value(c) is None,
        },
{
    let n: u32 = c as u32;
    if '0' <= c && c <= '9' {
        Some((n - 48) as u8)
    } else if 'a' <= c && c <= 'h' {
        Some((n - 87) as u8)
    } else if 'j' <= c && c <= 'k' {
        Some((n - 88) as u8)
    } else if 'm' <= c && c <= 'n' {
        Some((n - 89) as u8)
    } else if 'p' <= c && c <= 't' {
        Some((n - 90) as u8)
    } else if 'v' <= c && c <= 'z' {
        Some((n - 91) as u8)
    } else {
        None
    }
}

fn push_base32(out: &mut String, v: u128, n: usize)
    ensures
        final(out)@ == old(out)@ + base32_digits(v as nat, n as nat),
    decreases n,
{
    if n > 0 {
        push_base32(out, v / 32, n - 1);
        out.push(base32_letter((v % 32) as u8));
        proof {
            assert(out@ =~= old(out)@ + base32_digits(v as nat, n as nat));
        }
    } else {
        proof {
            assert(out@ =~= old(out)@ + base32_digits(v as nat, n as nat));
        }
    }
}

/// The typed form of an identifier. Reading it gives the identifier back.
pub fn typeid(prefix: &str, id: u128) -> (r: String)
    ensures
        r@ == typeid_text(prefix@, id),
        typeid_value(prefix@, r@) == Some(id),
{
    let mut r: String = prefix.to_owned();
    r.push('_');
    push_base32(&mut r, id, SUFFIX_LENGTH);
    proof {
        typed_form_round_trips(prefix@, id, r@);
    }
    r
}

/// `32` to the power of `n`.
pub open spec fn power32(n: nat) -> nat
    decreases n,
{
    if n == 0 {
        1
    } else {
        32 * power32((n - 1) as nat)
    }
}

proof fn lemma_power32_grows(a: nat, b: nat)
    requires
        a <= b,
    ensures
        power32(a) <= power32(b),
    decreases b,
{
    if a < b {
        lemma_power32_grows(a, (b - 1) as nat);
    }
}

proof fn lemma_power32_25()
    ensures
        8 * power32(25) == 0x1_0000_0000_0000_0000_0000_0000_0000_0000,
{
    reveal_with_fuel(power32, 26);
}

proof fn lemma_prefix_unreadable(s: Seq<char>, k: int)
    requires
        0 <= k <= s.len(),
        base32_number(s.take(k)) is None,
    ensures
        base32_number(s) is None,
    decreases s.len(),
{
    if k == s.len() {
        assert(s.take(k) =~= s);
    } else {
        assert(s.drop_last().take(k) =~= s.take(k));
        lemma_prefix_unreadable(s.drop_last(), k);
    }
}

/// Reads the typed form of an identifier of that prefix.
pub fn parse_typeid(prefix: &str, text: &str) -> (r: Option<u128>)
    ensures
        r == typeid_value(prefix@, text@),
{
    let p: Vec<char> = chars(prefix);
    let t: Vec<char> = chars(text);
    let n: usize = p.len();
    if t.len() <= SUFFIX_LENGTH || t.len() - SUFFIX_LENGTH - 1 != n {
        return None;
    }
    let mut i: usize = 0;
    while i < n
        invariant
            p@ == prefix@,
            t@ == text@,
            n == p.len(),
            t.len() == n + 1 + SUFFIX_LENGTH,
            i <= n,
            forall|j: int| 0 <= j < i ==> p[j] == t[j],
        decreases n - i,
    {
        if p[i] != t[i] {
            assert(text@.take(n as int)[i as int] != prefix@[i as int]);
            return None;
        }
        i = i + 1;
    }
    proof {
        assert(text@.take(n as int) =~= prefix@);
    }
    if t[n] != '_' || t[n + 1] < '0' || t[n + 1] > '7' {
        return None;
    }
    let ghost s = text@.skip(n + 1);
    let mut v: u128 = 0;
    let mut k: usize = 0;
    proof {
        assert(s.take(0) =~= Seq::<char>::empty());
    }
    while k < SUFFIX_LENGTH
        invariant
            t@ == text@,
            t.len() == n + 1 + SUFFIX_LENGTH,
            s == text@.skip(n + 1),
            '0' <= s[0] <= '7',
            k <= SUFFIX_LENGTH,
            base32_number(s.take(k as int)) == Some(v as nat),
            k > 0 ==> v < 8 * power32((k - 1) as nat),
        decreases SUFFIX_LENGTH - k,
    {
        let c: char = t[n + 1 + k];
        proof {
            assert(s[k as int] == c);
            assert(s.take(k + 1).drop_last() =~= s.take(k as int));
            assert(s.take(k + 1).last() == c);
        }
        match base32_read(c) {
            None => {
                proof {
                    lemma_prefix_unreadable(s, k + 1);
                }
                return None;
            },
            Some(d) => {
                proof {
                    lemma_power32_25();
                    if k > 0 {
                        lemma_power32_grows(k as nat, 25);
                        assert(power32(k as nat) == 32 * power32((k - 1) as nat));
                    } else {
                        assert(v == 0);
                        assert(d < 8);
                        assert(power32(0) == 1);
                    }
                }
                v = 32 * v + d as u128;
            },
        }
        k = k + 1;
    }
    proof {
        assert(s.take(k as int) =~= s);
    }
    Some(v)
}

proof fn lemma_base32_read_back(v: nat, n: nat)
    requires
        v < power32(n),
    ensures
        base32_digits(v, n).len() == n,
        base32_number(base32_digits(v, n)) == Some(v),
    decreases n,
{
    if n > 0 {
        lemma_base32_read_back(v / 32, (n - 1) as nat);
        let high = base32_digits(v / 32, (n - 1) as nat);
        let low = base32_char((v % 32) as int);
        assert(high.push(low).drop_last() =~= high);
        assert(base32_value(low) == Some((v % 32) as nat));
    }
}

proof fn lemma_first_digit(v: nat, n: nat)
    requires
        n > 0,
        v < 8 * power32((n - 1) as nat),
    ensures
        base32_digits(v, n).len() == n,
        '0' <= base32_digits(v, n)[0] <= '7',
    decreases n,
{
    if n > 1 {
        assert(power32((n - 1) as nat) == 32 * power32((n - 2) as nat));
        lemma_first_digit(v / 32, (n - 1) as nat);
    } else {
        assert(power32(0) == 1);
        assert(base32_digits(v / 32, 0) =~= Seq::<char>::empty());
    }
}

proof fn lemma_base32_write_back(s: Seq<char>)
    requires
        base32_number(s) is Some,
    ensures
        base32_digits(base32_number(s)->0, s.len()) == s,
    decreases s.len(),
{
    if s.len() > 0 {
        lemma_base32_write_back(s.drop_last());
        let high = base32_number(s.drop_last())->0;
        let low = base32_value(s.last())->0;
        let v = 32 * high + low;
        assert(v / 32 == high && v % 32 == low);
        assert(base32_char(low as int) == s.last());
        assert(base32_digits(v, s.len()) =~= s);
    } else {
        assert(base32_digits(0, 0) =~= s);
    }
}

proof fn lemma_number_bound(s: Seq<char>)
    requires
        s.len() > 0,
        '0' <= s[0] <= '7',
        base32_number(s) is Some,
    ensures
        base32_number(s)->0 < 8 * power32((s.len() - 1) as nat),
    decreases s.len(),
{
    let short = s.drop_last();
    if s.len() > 1 {
        lemma_number_bound(short);
        assert(power32((s.len() - 1) as nat) == 32 * power32((s.len() - 2) as nat));
    } else {
        assert(power32(0) == 1);
        assert(base32_number(short) == Some(0nat));
    }
}

/// Reading a typed form back gives the identifier, and an identifier has only
/// one typed form of a prefix.
pub proof fn typed_form_round_trips(prefix: Seq<char>, id: u128, text: Seq<char>)
    ensures
        typeid_value(prefix, text) == Some(id) <==> text == typeid_text(prefix, id),
{
    lemma_power32_25();
    let t = typeid_text(prefix, id);
    let n = prefix.len() as int;
    assert(power32(26) == 32 * power32(25));
    lemma_base32_read_back(id as nat, 26);
    lemma_first_digit(id as nat, 26);
    assert(t.take(n) =~= prefix);
    assert(t.skip(n + 1) =~= base32_digits(id as nat, 26));
    if typeid_value(prefix, text) == Some(id) {
        let s = text.skip(n + 1);
        assert(s[0] == text[n + 1]);
        lemma_base32_write_back(s);
        lemma_number_bound(s);
        assert(text =~= text.take(n).push(text[n]) + s);
    }
}

/// The digits stand for their values in the order of the alphabet: the decimal
/// digits, then the lower-case letters but for those that are easily misread.
pub proof fn the_alphabet_stands_in_order(v: int)
    requires
        0 <= v < 32,
    ensures
        base32_char(v) == "0123456789abcdefghjkmnpqrstvwxyz"@[v],
        base32_value("0123456789abcdefghjkmnpqrstvwxyz"@[v]) == Some(v as nat),
{
    reveal_strlit("0123456789abcdefghjkmnpqrstvwxyz");
}

proof fn lemma_base32_digit(v: nat, n: nat, k: int)
    requires
        0 <= k < n,
    ensures
        base32_digits(v, n).len() == n,
        base32_digits(v, n)[k] == base32_char(v as int / pow(32, (n - 1 - k) as nat) % 32),
    decreases n,
{
    lemma_base32_len(v, n);
    lemma_base32_len(v / 32, (n - 1) as nat);
    if k == n - 1 {
        lemma_pow0(32);
    } else {
        let m = (n - 2 - k) as nat;
        lemma_base32_digit(v / 32, (n - 1) as nat, k);
        lemma_pow_positive(32, m);
        assert(pow(32, m + 1) == 32 * pow(32, m)) by {
            reveal(pow);
        }
        lemma_div_denominator(v as int, 32, pow(32, m));
    }
}

proof fn lemma_base32_len(v: nat, n: nat)
    ensures
        base32_digits(v, n).len() == n,
    decreases n,
{
    if n > 0 {
        lemma_base32_len(v / 32, (n - 1) as nat);
    }
}

/// A typed form is the prefix, an underscore and the 26 Base32 digits of the
/// identifier, the most significant first.
pub proof fn what_a_typed_form_is(prefix: Seq<char>, id: u128, k: int)
    ensures
        typeid_text(prefix, id).len() == prefix.len() + 27,
        typeid_text(prefix, id).take(prefix.len() as int) == prefix,
        typeid_text(prefix, id)[prefix.len() as int] == '_',
        0 <= k < 26 ==> typeid_text(prefix, id)[prefix.len() + 1 + k]
            == "0123456789abcdefghjkmnpqrstvwxyz"@[id as int / pow(32, (25 - k) as nat) % 32],
{
    lemma_base32_len(id as nat, 26);
    assert(typeid_text(prefix, id).take(prefix.len() as int) =~= prefix);
    if 0 <= k < 26 {
        lemma_base32_digit(id as nat, 26, k);
        the_alphabet_stands_in_order(id as int / pow(32, (25 - k) as nat) % 32);
    }
}

/// Notifications and broadcasts have their own prefixes.
pub proof fn what_the_prefixes_are()
    ensures
        NOTIFICATION@ == "notif"@,
        BROADCAST@ == "bcast"@,
{
}

/// The prefix already encodes the source: no notification and broadcast share
/// a typed form.
pub proof fn typed_forms_tell_sources_apart(a: u128, b: u128)
    ensures
        typeid_text(NOTIFICATION@, a) != typeid_text(BROADCAST@, b),
{
    reveal_strlit("notif");
    reveal_strlit("bcast");
    assert(typeid_text(NOTIFICATION@, a)[0] == 'n');
    assert(typeid_text(BROADCAST@, b)[0] == 'b');
}

} // verus!
