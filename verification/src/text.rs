//! The text forms that the library writes and reads itself: fingerprints,
//! derivation paths, origin-annotated keys and the timelock field.

use vstd::prelude::*;
use vstd::string::*;
use crate::network::Network;
use crate::path::{
    ChildNumber,
    Fingerprint,
    HARDENED_BIT,
    child_index,
    is_hardened,
    spec_child_index,
    spec_hardened,
    spec_is_hardened,
    standard_path,
};

verus! {

/// `String::push` appends one character. Trusted: it states of the std
/// method what its documentation says, that the given char is appended to
/// the end of the string.
pub assume_specification[ String::push ](s: &mut String, c: char)
    ensures
        final(s)@ == old(s)@.push(c),
;

/// The lower-case hexadecimal digit of a value below 16.
pub open spec fn spec_hex_digit(d: u32) -> char
    recommends
        d < 16,
{
    if d < 10 {
        (48 + d) as char
    } else {
        (87 + d) as char
    }
}

pub fn hex_digit(d: u32) -> (c: char)
    requires
        d < 16,
    ensures
        c == spec_hex_digit(d),
{
    let byte: u8 = if d < 10 {
        (48 + d) as u8
    } else {
        (87 + d) as u8
    };
    byte as char
}

/// A fingerprint as its eight lower-case hexadecimal digits.
pub open spec fn spec_fingerprint_text(fingerprint: Fingerprint) -> Seq<char> {
    seq![
        spec_hex_digit(fingerprint / 0x1000_0000),
        spec_hex_digit(fingerprint / 0x100_0000 % 16),
        spec_hex_digit(fingerprint / 0x10_0000 % 16),
        spec_hex_digit(fingerprint / 0x1_0000 % 16),
        spec_hex_digit(fingerprint / 0x1000 % 16),
        spec_hex_digit(fingerprint / 0x100 % 16),
        spec_hex_digit(fingerprint / 0x10 % 16),
        spec_hex_digit(fingerprint % 16),
    ]
}

/// Appends the text of a fingerprint.
pub fn push_fingerprint(text: &mut String, fingerprint: Fingerprint)
    ensures
        final(text)@ == old(text)@ + spec_fingerprint_text(fingerprint),
{
    text.push(hex_digit(fingerprint / 0x1000_0000));
    text.push(hex_digit(fingerprint / 0x100_0000 % 16));
    text.push(hex_digit(fingerprint / 0x10_0000 % 16));
    text.push(hex_digit(fingerprint / 0x1_0000 % 16));
    text.push(hex_digit(fingerprint / 0x1000 % 16));
    text.push(hex_digit(fingerprint / 0x100 % 16));
    text.push(hex_digit(fingerprint / 0x10 % 16));
    text.push(hex_digit(fingerprint % 16));
    proof {
        assert(text@ =~= old(text)@ + spec_fingerprint_text(fingerprint));
    }
}

/// A number in decimal, without leading zeros.
pub open spec fn spec_decimal(n: nat) -> Seq<char>
    decreases n,
{
    if n < 10 {
        seq![spec_hex_digit(n as u32)]
    } else {
        spec_decimal(n / 10).push(spec_hex_digit((n % 10) as u32))
    }
}

/// Appends a number in decimal.
pub fn push_decimal(text: &mut String, n: u32)
    ensures
        final(text)@ == old(text)@ + spec_decimal(n as nat),
    decreases n,
{
    if n >= 10 {
        push_decimal(text, n / 10);
    }
    text.push(hex_digit(n % 10));
    proof {
        assert(text@ =~= old(text)@ + spec_decimal(n as nat));
    }
}

/// A child number as a path shows it: its index, and an apostrophe behind
/// a hardened one.
pub open spec fn spec_child_text(child: ChildNumber) -> Seq<char> {
    if spec_is_hardened(child) {
        spec_decimal(spec_child_index(child) as nat).push('\'')
    } else {
        spec_decimal(child as nat)
    }
}

/// The steps of a path, each behind a slash; no leading `m`.
pub open spec fn spec_path_text(path: Seq<ChildNumber>) -> Seq<char>
    decreases path.len(),
{
    if path.len() == 0 {
        Seq::empty()
    } else {
        spec_path_text(path.drop_last()).push('/') + spec_child_text(path.last())
    }
}

/// Appends the steps of a path.
pub fn push_path(text: &mut String, path: &Vec<ChildNumber>)
    ensures
        final(text)@ == old(text)@ + spec_path_text(path@),
{
    let mut i: usize = 0;
    while i < path.len()
        invariant
            0 <= i <= path@.len(),
            text@ == old(text)@ + spec_path_text(path@.take(i as int)),
        decreases path@.len() - i,
    {
        let child = path[i];
        let ghost before = text@;
        text.push('/');
        push_decimal(text, child_index(child));
        if is_hardened(child) {
            text.push('\'');
        }
        proof {
            let next = path@.take(i + 1);
            assert(next.drop_last() =~= path@.take(i as int));
            assert(next.last() == child);
            assert(text@ =~= before.push('/') + spec_child_text(child));
            assert(text@ =~= old(text)@ + spec_path_text(next));
        }
        i += 1;
    }
    proof {
        assert(path@.take(path@.len() as int) =~= path@);
    }
}

/// A key annotated with its origin: the fingerprint and the path between
/// square brackets, then the extended key.
pub open spec fn spec_key_text(
    fingerprint: Fingerprint,
    path: Seq<ChildNumber>,
    xpub: Seq<char>,
) -> Seq<char> {
    seq!['['] + spec_fingerprint_text(fingerprint) + spec_path_text(path) + seq![']'] + xpub
}

/// Writes the key expression of an extended key derived at `path` from the
/// master key with this fingerprint.
pub fn key_text(fingerprint: Fingerprint, path: &Vec<ChildNumber>, xpub: &str) -> (text: String)
    ensures
        text@ == spec_key_text(fingerprint, path@, xpub@),
{
    let mut text = String::new();
    text.push('[');
    push_fingerprint(&mut text, fingerprint);
    push_path(&mut text, path);
    text.push(']');
    text.append(xpub);
    proof {
        assert(text@ =~= spec_key_text(fingerprint, path@, xpub@));
    }
    text
}

pub open spec fn is_digit(c: char) -> bool {
    '0' <= c <= '9'
}

pub open spec fn all_digits(s: Seq<char>) -> bool {
    forall|i: int| 0 <= i < s.len() ==> is_digit(#[trigger] s[i])
}

/// The number that a run of decimal digits writes.
pub open spec fn digits_value(s: Seq<char>) -> nat
    decreases s.len(),
{
    if s.len() == 0 {
        0
    } else {
        digits_value(s.drop_last()) * 10 + (s.last() as nat - 48) as nat
    }
}

/// What is left of a number's text behind an optional plus sign.
pub open spec fn unsigned_digits(s: Seq<char>) -> Seq<char> {
    if s.len() > 0 && s[0] == '+' {
        s.skip(1)
    } else {
        s
    }
}

/// The 16-bit unsigned integer that a text writes: an optional plus sign
/// and then decimal digits only, at least one, whose value fits.
pub open spec fn spec_parse_u16(s: Seq<char>) -> Option<u16> {
    let digits = unsigned_digits(s);
    if digits.len() > 0 && all_digits(digits) && digits_value(digits) <= u16::MAX {
        Some(digits_value(digits) as u16)
    } else {
        None
    }
}

proof fn lemma_digits_value_grows(s: Seq<char>, i: int)
    requires
        0 <= i <= s.len(),
    ensures
        digits_value(s.take(i)) <= digits_value(s),
    decreases s.len() - i,
{
    if i == s.len() {
        assert(s.take(i) =~= s);
    } else {
        lemma_digits_value_grows(s, i + 1);
        assert(s.take(i + 1).drop_last() =~= s.take(i));
    }
}

/// Reads a 16-bit unsigned integer.
pub fn parse_u16(text: &str) -> (value: Option<u16>)
    ensures
        value == spec_parse_u16(text@),
{
    let len = text.unicode_len();
    let start: usize = if len > 0 && text.get_char(0) == '+' {
        1
    } else {
        0
    };
    let ghost digits = unsigned_digits(text@);
    proof {
        assert(text@.skip(0) =~= text@);
    }
    if start == len {
        return None;
    }
    let mut value: u32 = 0;
    let mut i: usize = start;
    while i < len
        invariant
            start <= i <= len,
            len == text@.len(),
            digits == text@.skip(start as int),
            digits == unsigned_digits(text@),
            all_digits(digits.take(i - start)),
            value == digits_value(digits.take(i - start)),
            value <= u16::MAX,
        decreases len - i,
    {
        let c = text.get_char(i);
        let ghost next = digits.take(i - start + 1);
        proof {
            assert(next.drop_last() =~= digits.take(i - start));
            assert(next.last() == c);
        }
        if !('0' <= c && c <= '9') {
            proof {
                assert(digits[i - start] == c);
            }
            return None;
        }
        let digit: u32 = c as u32 - 48;
        value = value * 10 + digit;
        if value > 65535 {
            proof {
                lemma_digits_value_grows(digits, i - start + 1);
            }
            return None;
        }
        proof {
            assert forall|j: int| 0 <= j < next.len() implies is_digit(#[trigger] next[j]) by {
                if j < i - start {
                    assert(next[j] == digits.take(i - start)[j]);
                }
            }
        }
        i += 1;
    }
    proof {
        assert(digits.take(len - start) =~= digits);
    }
    Some(value as u16)
}

/// The text of the standard policy path of a hardened account: `/48'/0'/`
/// on the production network and `/48'/1'/` on the others, then the account
/// index with its apostrophe, then `/2'`.
pub proof fn lemma_standard_path_text(network: Network, index: u32)
    requires
        index < HARDENED_BIT,
    ensures
        spec_path_text(standard_path(network, spec_hardened(index))) == seq![
            '/',
            '4',
            '8',
            '\'',
            '/',
        ].push(
            if network == Network::Bitcoin {
                '0'
            } else {
                '1'
            },
        ) + seq!['\'', '/'] + spec_decimal(index as nat) + seq!['\'', '/', '2', '\''],
{
    let account = spec_hardened(index);
    let path = standard_path(network, account);
    let p3 = path.drop_last();
    let p2 = p3.drop_last();
    let p1 = p2.drop_last();
    let p0 = p1.drop_last();
    assert(p0.len() == 0);
    assert(spec_path_text(p0) =~= Seq::<char>::empty());
    assert(spec_decimal(48) =~= seq!['4', '8']) by {
        reveal_with_fuel(spec_decimal, 3);
    }
    assert(spec_decimal(2) =~= seq!['2']);
    assert(spec_decimal(0) =~= seq!['0']);
    assert(spec_decimal(1) =~= seq!['1']);
    assert(spec_child_text(p1.last()) =~= seq!['4', '8', '\'']);
    assert(spec_path_text(p1) =~= seq!['/', '4', '8', '\'']);
    let coin = if network == Network::Bitcoin {
        '0'
    } else {
        '1'
    };
    assert(spec_child_text(p2.last()) =~= seq![coin, '\'']);
    assert(spec_path_text(p2) =~= seq!['/', '4', '8', '\'', '/', coin, '\'']);
    assert(spec_child_text(p3.last()) =~= spec_decimal(index as nat).push('\''));
    assert(spec_path_text(p3) =~= seq!['/', '4', '8', '\'', '/', coin, '\'', '/'] + spec_decimal(
        index as nat,
    ).push('\''));
    assert(spec_child_text(path.last()) =~= seq!['2', '\'']);
    assert(spec_path_text(path) =~= seq!['/', '4', '8', '\'', '/'].push(coin) + seq!['\'', '/']
        + spec_decimal(index as nat) + seq!['\'', '/', '2', '\'']);
}

} // verus!
