//! Address, payload and domain codecs.
//!
//! Human-supplied identifiers arrive as strings: a hex account address
//! (with or without a `0x` marker), a hex message payload, and a chain
//! name. This module turns them into the fixed-width binary forms the
//! transport contract needs: a 32-byte right-aligned recipient, a raw
//! payload byte vector, and a numeric routing domain.

use vstd::prelude::*;

use crate::errors::CliError;

verus! {

/// The hexadecimal digits, upper or lower case.
pub open spec fn is_hex_digit(c: char) -> bool {
    (48 <= c as u32 && c as u32 <= 57)  // '0' ..= '9'
    || (97 <= c as u32 && c as u32 <= 102)  // 'a' ..= 'f'
    || (65 <= c as u32 && c as u32 <= 70)  // 'A' ..= 'F'
}

/// Numeric value of one hexadecimal digit.
pub open spec fn hex_digit_value(c: char) -> u8 {
    if 48 <= c as u32 && c as u32 <= 57 {
        (c as u32 - 48) as u8
    } else if 97 <= c as u32 && c as u32 <= 102 {
        (c as u32 - 87) as u8
    } else {
        (c as u32 - 55) as u8
    }
}

/// The byte written as the two hexadecimal digits `hi` `lo`.
pub open spec fn hex_byte(hi: char, lo: char) -> u8 {
    (hex_digit_value(hi) * 16 + hex_digit_value(lo)) as u8
}

/// Drops a single leading `0x` marker, if present.
pub open spec fn strip_hex_prefix(s: Seq<char>) -> Seq<char> {
    if s.len() >= 2 && s[0] == '0' && s[1] == 'x' {
        s.skip(2)
    } else {
        s
    }
}

pub open spec fn all_hex_digits(s: Seq<char>) -> bool {
    forall|i: int| 0 <= i < s.len() ==> is_hex_digit(#[trigger] s[i])
}

/// The bytes written by an even-length run of hexadecimal digits.
pub open spec fn hex_decode(s: Seq<char>) -> Seq<u8>
    decreases s.len(),
{
    if s.len() < 2 {
        Seq::empty()
    } else {
        seq![hex_byte(s[0], s[1])] + hex_decode(s.skip(2))
    }
}

pub proof fn lemma_hex_decode_len(s: Seq<char>)
    requires
        s.len() % 2 == 0,
    ensures
        hex_decode(s).len() == s.len() / 2,
    decreases s.len(),
{
    if s.len() >= 2 {
        lemma_hex_decode_len(s.skip(2));
    }
}

/// A well-formed account address: exactly 40 hexadecimal digits after
/// the optional marker.
pub open spec fn valid_account_address(s: Seq<char>) -> bool {
    let t = strip_hex_prefix(s);
    t.len() == 40 && all_hex_digits(t)
}

/// The 32-byte recipient value: the 20 address bytes, zero-padded on
/// the high-order side.
pub open spec fn recipient_of(s: Seq<char>) -> Seq<u8> {
    Seq::new(12, |i: int| 0u8) + hex_decode(strip_hex_prefix(s))
}

/// A well-formed message payload: an even number of hexadecimal digits
/// after the optional marker (possibly none).
pub open spec fn valid_hex_payload(s: Seq<char>) -> bool {
    let t = strip_hex_prefix(s);
    t.len() % 2 == 0 && all_hex_digits(t)
}

pub open spec fn payload_of(s: Seq<char>) -> Seq<u8> {
    hex_decode(strip_hex_prefix(s))
}

/// The supported chain names and their routing domains. Resolution is
/// total over this set and injective (`lemma_domain_injective`).
pub open spec fn domain_of(name: Seq<char>) -> Option<u32> {
    if name == "ethereum"@ {
        Some(1u32)
    } else if name == "sepolia"@ {
        Some(11155111u32)
    } else if name == "bsc"@ {
        Some(56u32)
    } else if name == "bsctestnet"@ {
        Some(97u32)
    } else if name == "avalanche"@ {
        Some(43114u32)
    } else if name == "fuji"@ {
        Some(43113u32)
    } else if name == "polygon"@ {
        Some(137u32)
    } else if name == "arbitrum"@ {
        Some(42161u32)
    } else if name == "optimism"@ {
        Some(10u32)
    } else {
        None
    }
}

/// Two distinct supported names never share a domain.
pub proof fn lemma_domain_injective(a: Seq<char>, b: Seq<char>)
    requires
        domain_of(a) is Some,
        domain_of(a) == domain_of(b),
    ensures
        a == b,
{
}

/// String equality, decided character by character.
pub fn str_eq(a: &str, b: &str) -> (r: bool)
    ensures
        r == (a@ == b@),
{
    let na = a.unicode_len();
    let nb = b.unicode_len();
    if na != nb {
        return false;
    }
    let mut i: usize = 0;
    while i < na
        invariant
            na == a@.len(),
            na == b@.len(),
            0 <= i <= na,
            forall|j: int| 0 <= j < i ==> a@[j] == b@[j],
        decreases na - i,
    {
        if a.get_char(i) != b.get_char(i) {
            return false;
        }
        i += 1;
    }
    proof {
        assert(a@ =~= b@);
    }
    true
}

/// Value of one hexadecimal digit, or `None` if `c` is not one.
fn hex_digit_val(c: char) -> (r: Option<u8>)
    ensures
        match r {
            Some(v) => is_hex_digit(c) && v == hex_digit_value(c) && v <= 15,
            None => !is_hex_digit(c),
        },
{
    let u = c as u32;
    if 48 <= u && u <= 57 {
        Some((u - 48) as u8)
    } else if 97 <= u && u <= 102 {
        Some((u - 87) as u8)
    } else if 65 <= u && u <= 70 {
        Some((u - 55) as u8)
    } else {
        None
    }
}

/// Decodes the hexadecimal digits of `s` between `start` and `end`.
fn decode_hex_range(s: &str, start: usize, end: usize) -> (r: Option<Vec<u8>>)
    requires
        start <= end <= s@.len(),
    ensures
        match r {
            Some(v) => (end - start) % 2 == 0 && all_hex_digits(
                s@.subrange(start as int, end as int),
            ) && v@ == hex_decode(s@.subrange(start as int, end as int)),
            None => !((end - start) % 2 == 0 && all_hex_digits(
                s@.subrange(start as int, end as int),
            )),
        },
{
    let ghost t = s@.subrange(start as int, end as int);
    if (end - start) % 2 != 0 {
        return None;
    }
    let mut out: Vec<u8> = Vec::new();
    let mut i: usize = start;
    proof {
        assert(t.skip(0) =~= t);
    }
    while i < end
        invariant
            start <= i <= end <= s@.len(),
            (end - start) % 2 == 0,
            (i - start) % 2 == 0,
            t == s@.subrange(start as int, end as int),
            forall|j: int| 0 <= j < i - start ==> is_hex_digit(#[trigger] t[j]),
            hex_decode(t) == out@ + hex_decode(t.skip(i - start)),
        decreases end - i,
    {
        let hi = s.get_char(i);
        let lo = s.get_char(i + 1);
        let hv = match hex_digit_val(hi) {
            Some(v) => v,
            None => {
                proof {
                    assert(t[i - start] == s@[i as int]);
                }
                return None;
            },
        };
        let lv = match hex_digit_val(lo) {
            Some(v) => v,
            None => {
                proof {
                    assert(t[i + 1 - start] == s@[i + 1]);
                }
                return None;
            },
        };
        proof {
            let m = i - start;
            assert(t.skip(m)[0] == t[m] && t[m] == s@[i as int]);
            assert(t.skip(m)[1] == t[m + 1] && t[m + 1] == s@[i + 1]);
            assert(t.skip(m).skip(2) =~= t.skip(m + 2));
            assert(hex_decode(t.skip(m)) == seq![hex_byte(t[m], t[m + 1])] + hex_decode(
                t.skip(m + 2),
            ));
        }
        out.push(hv * 16 + lv);
        i += 2;
        proof {
            assert(hex_decode(t) =~= out@ + hex_decode(t.skip(i - start)));
        }
    }
    proof {
        assert(t.skip(end - start) =~= Seq::<char>::empty());
        assert(hex_decode(t) =~= out@);
    }
    Some(out)
}

/// Index of the first character after the optional `0x` marker.
fn strip_start(s: &str, n: usize) -> (r: usize)
    requires
        n == s@.len(),
    ensures
        r == 0 || r == 2,
        s@.subrange(r as int, n as int) == strip_hex_prefix(s@),
        r <= n,
{
    if n >= 2 && s.get_char(0) == '0' && s.get_char(1) == 'x' {
        proof {
            assert(s@.subrange(2, n as int) =~= s@.skip(2));
        }
        2
    } else {
        proof {
            assert(s@.subrange(0, n as int) =~= s@);
        }
        0
    }
}

/// Encodes a human-supplied account address as the 32-byte right-aligned
/// recipient the transport contract expects. The address is accepted
/// with or without a `0x` marker and must be exactly 40 hexadecimal
/// digits after it.
pub fn encode_recipient(s: &str) -> (r: Result<Vec<u8>, CliError>)
    ensures
        match r {
            Ok(v) => valid_account_address(s@) && v@ == recipient_of(s@) && v@.len() == 32,
            Err(e) => !valid_account_address(s@) && (e matches CliError::InvalidAddress {
                address,
            } && address@ == s@),
        },
{
    let n = s.unicode_len();
    let start = strip_start(s, n);
    if n - start != 40 {
        return Err(CliError::InvalidAddress { address: String::from_str(s) });
    }
    match decode_hex_range(s, start, n) {
        Some(bytes) => {
            proof {
                lemma_hex_decode_len(strip_hex_prefix(s@));
            }
            let mut out: Vec<u8> = Vec::new();
            let mut i: usize = 0;
            while i < 12
                invariant
                    0 <= i <= 12,
                    out@ == Seq::new(i as nat, |j: int| 0u8),
                decreases 12 - i,
            {
                out.push(0u8);
                i += 1;
                proof {
                    assert(out@ =~= Seq::new(i as nat, |j: int| 0u8));
                }
            }
            let mut body = bytes;
            out.append(&mut body);
            proof {
                assert(out@ =~= recipient_of(s@));
            }
            Ok(out)
        },
        None => Err(CliError::InvalidAddress { address: String::from_str(s) }),
    }
}

/// Decodes a hex-encoded message payload (optional `0x` marker,
/// even-length hex) into its raw bytes.
pub fn decode_payload(s: &str) -> (r: Result<Vec<u8>, CliError>)
    ensures
        match r {
            Ok(v) => valid_hex_payload(s@) && v@ == payload_of(s@),
            Err(e) => !valid_hex_payload(s@) && e == CliError::InvalidHexPayload,
        },
{
    let n = s.unicode_len();
    let start = strip_start(s, n);
    match decode_hex_range(s, start, n) {
        Some(bytes) => Ok(bytes),
        None => Err(CliError::InvalidHexPayload),
    }
}

/// Resolves a chain name to its numeric routing domain. An unresolvable
/// name is a hard error, never a silent default.
pub fn resolve_domain(name: &str) -> (r: Result<u32, CliError>)
    ensures
        match r {
            Ok(d) => domain_of(name@) == Some(d),
            Err(e) => domain_of(name@) is None && (e matches CliError::UnknownChain { name: n }
                && n@ == name@),
        },
{
    if str_eq(name, "ethereum") {
        Ok(1)
    } else if str_eq(name, "sepolia") {
        Ok(11155111)
    } else if str_eq(name, "bsc") {
        Ok(56)
    } else if str_eq(name, "bsctestnet") {
        Ok(97)
    } else if str_eq(name, "avalanche") {
        Ok(43114)
    } else if str_eq(name, "fuji") {
        Ok(43113)
    } else if str_eq(name, "polygon") {
        Ok(137)
    } else if str_eq(name, "arbitrum") {
        Ok(42161)
    } else if str_eq(name, "optimism") {
        Ok(10)
    } else {
        Err(CliError::UnknownChain { name: String::from_str(name) })
    }
}

/// The name of a supported routing domain, where one exists.
pub fn domain_name(domain: u32) -> (r: Option<&'static str>)
    ensures
        match r {
            Some(s) => domain_of(s@) == Some(domain),
            None => forall|n: Seq<char>| domain_of(n) != Some(domain),
        },
{
    proof {
        reveal_strlit("ethereum");
        reveal_strlit("sepolia");
        reveal_strlit("bsc");
        reveal_strlit("bsctestnet");
        reveal_strlit("avalanche");
        reveal_strlit("fuji");
        reveal_strlit("polygon");
        reveal_strlit("arbitrum");
        reveal_strlit("optimism");
        assert("ethereum"@.len() == 8 && "sepolia"@.len() == 7 && "bsc"@.len() == 3
            && "bsctestnet"@.len() == 10 && "avalanche"@.len() == 9 && "fuji"@.len() == 4
            && "polygon"@.len() == 7 && "arbitrum"@.len() == 8 && "optimism"@.len() == 8);
        assert("sepolia"@[0] != "polygon"@[0]);
        assert("ethereum"@[0] != "arbitrum"@[0] && "ethereum"@[0] != "optimism"@[0]
            && "arbitrum"@[0] != "optimism"@[0]);
        assert(domain_of("ethereum"@) == Some(1u32));
        assert(domain_of("sepolia"@) == Some(11155111u32));
        assert(domain_of("bsc"@) == Some(56u32));
        assert(domain_of("bsctestnet"@) == Some(97u32));
        assert(domain_of("avalanche"@) == Some(43114u32));
        assert(domain_of("fuji"@) == Some(43113u32));
        assert(domain_of("polygon"@) == Some(137u32));
        assert(domain_of("arbitrum"@) == Some(42161u32));
        assert(domain_of("optimism"@) == Some(10u32));
    }
    if domain == 1 {
        Some("ethereum")
    } else if domain == 11155111 {
        Some("sepolia")
    } else if domain == 56 {
        Some("bsc")
    } else if domain == 97 {
        Some("bsctestnet")
    } else if domain == 43114 {
        Some("avalanche")
    } else if domain == 43113 {
        Some("fuji")
    } else if domain == 137 {
        Some("polygon")
    } else if domain == 42161 {
        Some("arbitrum")
    } else if domain == 10 {
        Some("optimism")
    } else {
        None
    }
}

/// A 40-digit account address encodes to the same 32 bytes with or
/// without the `0x` marker, and the high-order 12 bytes of the encoding
/// are zero.
pub proof fn lemma_recipient_prefix_padding(s: Seq<char>)
    requires
        s.len() == 40,
        all_hex_digits(s),
    ensures
        valid_account_address(s),
        valid_account_address(seq!['0', 'x'] + s),
        recipient_of(seq!['0', 'x'] + s) == recipient_of(s),
        recipient_of(s).len() == 32,
        forall|i: int| 0 <= i < 12 ==> recipient_of(s)[i] == 0u8,
{
    let p = seq!['0', 'x'] + s;
    assert(s[1] != 'x');
    assert(strip_hex_prefix(s) == s);
    assert(p.len() == 42 && p[0] == '0' && p[1] == 'x');
    assert(p.skip(2) =~= s);
    assert(strip_hex_prefix(p) == s);
    lemma_hex_decode_len(s);
}

} // verus!
