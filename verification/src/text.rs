//! Numbers and bytes as text.
use crate::crypto::keccak256_of;
use crate::primitives::{Address, B256};
use vstd::prelude::*;
use vstd::string::StringExecFns;

verus! {

/// The decimal digit for `d`.
pub open spec fn digit(d: int) -> char {
    if d == 0 {
        '0'
    } else if d == 1 {
        '1'
    } else if d == 2 {
        '2'
    } else if d == 3 {
        '3'
    } else if d == 4 {
        '4'
    } else if d == 5 {
        '5'
    } else if d == 6 {
        '6'
    } else if d == 7 {
        '7'
    } else if d == 8 {
        '8'
    } else {
        '9'
    }
}

/// `n` in decimal, without leading zeros.
pub open spec fn decimal(n: int) -> Seq<char>
    decreases n,
{
    if n < 10 {
        seq![digit(n)]
    } else {
        decimal(n / 10).push(digit(n % 10))
    }
}

fn push_digit(s: &mut String, d: u64)
    requires
        d < 10,
    ensures
        final(s)@ == old(s)@.push(digit(d as int)),
{
    let t: &str = match d {
        0 => "0",
        1 => "1",
        2 => "2",
        3 => "3",
        4 => "4",
        5 => "5",
        6 => "6",
        7 => "7",
        8 => "8",
        _ => "9",
    };
    proof {
        reveal_strlit("0");
        reveal_strlit("1");
        reveal_strlit("2");
        reveal_strlit("3");
        reveal_strlit("4");
        reveal_strlit("5");
        reveal_strlit("6");
        reveal_strlit("7");
        reveal_strlit("8");
        reveal_strlit("9");
        assert(t@ =~= seq![digit(d as int)]);
        assert(s@ + t@ =~= s@.push(digit(d as int)));
    }
    s.append(t);
}

/// Appends `n` in decimal.
pub fn push_decimal(s: &mut String, n: u64)
    ensures
        final(s)@ == old(s)@ + decimal(n as int),
    decreases n,
{
    if n < 10 {
        proof {
            assert(s@ + decimal(n as int) =~= s@.push(digit(n as int)));
        }
        push_digit(s, n);
    } else {
        push_decimal(s, n / 10);
        let ghost before = s@;
        push_digit(s, n % 10);
        proof {
            assert(old(s)@ + decimal(n as int) =~= (old(s)@ + decimal(n as int / 10)).push(
                digit(n as int % 10),
            ));
        }
    }
}

/// The lower-case hexadecimal digit for `d`.
pub open spec fn hex_digit(d: int) -> char {
    if d < 10 {
        digit(d)
    } else if d == 10 {
        'a'
    } else if d == 11 {
        'b'
    } else if d == 12 {
        'c'
    } else if d == 13 {
        'd'
    } else if d == 14 {
        'e'
    } else {
        'f'
    }
}

/// Two lower-case hexadecimal digits for each byte, the high one first.
pub open spec fn hex_text(bytes: Seq<u8>) -> Seq<char> {
    Seq::new(
        bytes.len() * 2,
        |i: int|
            if i % 2 == 0 {
                hex_digit(bytes[i / 2] as int / 16)
            } else {
                hex_digit(bytes[i / 2] as int % 16)
            },
    )
}

/// Different bytes have different texts.
pub proof fn hex_text_is_unique(a: Seq<u8>, b: Seq<u8>)
    requires
        hex_text(a) == hex_text(b),
    ensures
        a == b,
{
    assert(hex_text(a).len() == a.len() * 2 && hex_text(b).len() == b.len() * 2);
    assert(a.len() == b.len());
    assert forall|i: int| 0 <= i < a.len() implies a[i] == b[i] by {
        assert(hex_text(a)[2 * i] == hex_digit(a[i] as int / 16));
        assert(hex_text(b)[2 * i] == hex_digit(b[i] as int / 16));
        assert(hex_text(a)[2 * i + 1] == hex_digit(a[i] as int % 16));
        assert(hex_text(b)[2 * i + 1] == hex_digit(b[i] as int % 16));
    }
    assert(a =~= b);
}

/// Calls `hex::encode`: two lower-case hexadecimal digits for each byte.
#[verifier::external_body]
pub(crate) fn hex_encode(bytes: &[u8]) -> (s: String)
    requires
        bytes@.len() * 2 <= isize::MAX,
    ensures
        s@ == hex_text(bytes@),
{
    hex::encode(bytes)
}

/// A hash as text: all its bytes in hexadecimal behind `0x`.
pub open spec fn hash_text(hash: B256) -> Seq<char> {
    "0x"@ + hex_text(hash@)
}

/// Appends a hash.
pub fn push_hash(s: &mut String, hash: &B256)
    ensures
        final(s)@ == old(s)@ + hash_text(*hash),
{
    s.append("0x");
    s.append(hex_encode(hash.as_slice()).as_str());
    assert(s@ =~= old(s)@ + hash_text(*hash));
}

/// The capital of a lower-case hexadecimal digit.
pub open spec fn capital(c: char) -> char {
    if c == 'a' {
        'A'
    } else if c == 'b' {
        'B'
    } else if c == 'c' {
        'C'
    } else if c == 'd' {
        'D'
    } else if c == 'e' {
        'E'
    } else if c == 'f' {
        'F'
    } else {
        c
    }
}

/// An address as text: its bytes in hexadecimal behind `0x`, where the hash of
/// the lower-case digits says which of the letters are capitals.
pub open spec fn address_text(address: Address) -> Seq<char> {
    let digits = hex_text(address@);
    let hash = keccak256_of(Seq::new(40, |i: int| digits[i] as u8));
    "0x"@ + Seq::new(
        40,
        |i: int|
            {
                let nibble = if i % 2 == 0 {
                    hash@[i / 2] / 16
                } else {
                    hash@[i / 2] % 16
                };
                if nibble >= 8 {
                    capital(digits[i])
                } else {
                    digits[i]
                }
            },
    )
}

/// Calls `alloy_primitives::Address::to_checksum` without a chain id: the
/// hexadecimal digits behind `0x`, with a letter capital where the matching
/// digit of the Keccak-256 hash of the lower-case digits is at least eight.
#[verifier::external_body]
fn checksum_address(address: &Address) -> (s: String)
    ensures
        s@ == address_text(*address),
{
    alloy_primitives::Address::from(*address).to_checksum(None)
}

/// Appends an address.
pub fn push_address(s: &mut String, address: &Address)
    ensures
        final(s)@ == old(s)@ + address_text(*address),
{
    s.append(checksum_address(address).as_str());
}

/// Numbers are written in decimal, the last digit last, without leading zeros.
pub proof fn numbers_are_written_in_decimal(n: nat)
    ensures
        decimal(n as int).last() as int == 48 + n % 10,
        n < 10 ==> decimal(n as int).len() == 1,
        n >= 10 ==> decimal(n as int).drop_last() == decimal(n as int / 10),
        n >= 10 ==> decimal(n as int)[0] != '0',
    decreases n,
{
    if n >= 10 {
        numbers_are_written_in_decimal((n / 10) as nat);
        assert(decimal(n as int).drop_last() =~= decimal(n as int / 10));
        if n / 10 < 10 {
            assert(decimal(n as int / 10).last() == decimal(n as int / 10)[0]);
        }
    }
}

/// Bytes are written in two hexadecimal digits each, the higher first, in small
/// letters.
pub proof fn bytes_are_written_in_hexadecimal(bytes: Seq<u8>, i: int)
    requires
        0 <= i < bytes.len(),
    ensures
        ({
            let text = hex_text(bytes);
            let (high, low) = (bytes[i] as int / 16, bytes[i] as int % 16);
            &&& text.len() == 2 * bytes.len()
            &&& text[2 * i] as int == if high < 10 {
                48 + high
            } else {
                87 + high
            }
            &&& text[2 * i + 1] as int == if low < 10 {
                48 + low
            } else {
                87 + low
            }
        }),
{
    assert((2 * i) / 2 == i && (2 * i) % 2 == 0);
    assert((2 * i + 1) / 2 == i && (2 * i + 1) % 2 == 1);
}

/// An address is written with its checksum: a letter is a capital exactly where the
/// hash of the text has a digit of eight or more at its place.
pub proof fn addresses_are_written_with_checksum(address: Address, i: int)
    requires
        0 <= i < 40,
    ensures
        ({
            let text = address_text(address);
            let digits = hex_text(address@);
            let hash = keccak256_of(Seq::new(40, |k: int| digits[k] as u8));
            let nibble = if i % 2 == 0 {
                hash@[i / 2] as int / 16
            } else {
                hash@[i / 2] as int % 16
            };
            &&& text.len() == 42
            &&& text[0] == '0' && text[1] == 'x'
            &&& nibble < 8 ==> text[i + 2] == digits[i]
            &&& nibble >= 8 && digits[i] as int >= 97 ==> text[i + 2] as int == digits[i] as int
                - 32
            &&& nibble >= 8 && (digits[i] as int) < 97 ==> text[i + 2] == digits[i]
        }),
{
    reveal_strlit("0x");
    let digits = hex_text(address@);
    assert(digits.len() == 40);
    bytes_are_written_in_hexadecimal(address@, i / 2);
}

/// A hash is written as `0x` and its bytes.
pub proof fn hashes_are_written_with_a_prefix(hash: B256)
    ensures
        hash_text(hash).len() == 66,
        hash_text(hash)[0] == '0' && hash_text(hash)[1] == 'x',
        hash_text(hash).skip(2) == hex_text(hash@),
{
    reveal_strlit("0x");
    assert(hash_text(hash).skip(2) =~= hex_text(hash@));
}

} // verus!
