//! Decoding of the addresses and ports that the kernel's socket tables
//! print in hexadecimal.
//!
//! An IPv4 address is printed as one 32-bit word of eight hexadecimal
//! digits, an IPv6 address as four such words. A word is printed as a
//! number, so on a little-endian host its digits show the address bytes in
//! reverse: `0100007F` is 127.0.0.1. A port is four hexadecimal digits,
//! most significant first.

use vstd::prelude::*;
use crate::numeric::{all_hex, hex_digit_of, hex_digit_value, hex_value, is_hex_digit,
    parse_hex_in};
use crate::text::chars_of;

verus! {

/// An IP address, by its bytes in network order.
#[derive(Debug, Clone, Copy, PartialEq, Eq)]
pub enum IpAddress {
    V4([u8; 4]),
    V6([u8; 16]),
}

impl IpAddress {
    /// The bytes of the address, in network order.
    pub open spec fn octets(self) -> Seq<u8> {
        match self {
            IpAddress::V4(b) => b@,
            IpAddress::V6(b) => b@,
        }
    }

    /// Whether every byte of the address is zero: the address that stands
    /// for all interfaces.
    pub open spec fn unspecified(self) -> bool {
        forall|i: int| 0 <= i < self.octets().len() ==> self.octets()[i] == 0
    }

    /// Whether this is the address that stands for all interfaces.
    pub fn is_unspecified(&self) -> (r: bool)
        ensures
            r == self.unspecified(),
    {
        broadcast use vstd::array::group_array_axioms;

        match self {
            IpAddress::V4(b) => {
                let mut i: usize = 0;
                while i < 4
                    invariant
                        i <= 4,
                        b@.len() == 4,
                        self.octets() == b@,
                        forall|k: int| 0 <= k < i ==> b@[k] == 0,
                    decreases 4 - i,
                {
                    if b[i] != 0 {
                        assert(self.octets()[i as int] != 0);
                        return false;
                    }
                    i += 1;
                }
                true
            },
            IpAddress::V6(b) => {
                let mut i: usize = 0;
                while i < 16
                    invariant
                        i <= 16,
                        b@.len() == 16,
                        self.octets() == b@,
                        forall|k: int| 0 <= k < i ==> b@[k] == 0,
                    decreases 16 - i,
                {
                    if b[i] != 0 {
                        assert(self.octets()[i as int] != 0);
                        return false;
                    }
                    i += 1;
                }
                true
            },
        }
    }
}

/// The IPv4 address of the given four bytes.
pub open spec fn ipv4_of(bytes: Seq<u8>) -> IpAddress {
    IpAddress::V4(choose|b: [u8; 4]| b@ == bytes)
}

/// The IPv6 address of the given sixteen bytes.
pub open spec fn ipv6_of(bytes: Seq<u8>) -> IpAddress {
    IpAddress::V6(choose|b: [u8; 16]| b@ == bytes)
}

/// The address of four bytes holds those bytes.
pub proof fn lemma_ipv4_of(b: [u8; 4])
    ensures
        ipv4_of(b@) == IpAddress::V4(b),
{
    broadcast use vstd::array::group_array_axioms;

    let c = choose|c: [u8; 4]| c@ == b@;
    assert(c@ == b@);
    assert(c@ =~= b@);
    assert(c == b);
}

/// The address of sixteen bytes holds those bytes.
pub proof fn lemma_ipv6_of(b: [u8; 16])
    ensures
        ipv6_of(b@) == IpAddress::V6(b),
{
    broadcast use vstd::array::group_array_axioms;

    let c = choose|c: [u8; 16]| c@ == b@;
    assert(c@ == b@);
    assert(c@ =~= b@);
    assert(c == b);
}

/// The byte that the two hexadecimal digits of `s` at index `i` spell.
pub open spec fn hex_byte(s: Seq<char>, i: int) -> u8 {
    (hex_digit_value(s[i]) * 16 + hex_digit_value(s[i + 1])) as u8
}

/// Byte `k` of the address that the digits `s` stand for: word `k / 4` of
/// eight digits holds it, in its digit pair `3 - k % 4`.
pub open spec fn address_byte(s: Seq<char>, k: int) -> u8 {
    hex_byte(s, 8 * (k / 4) + 6 - 2 * (k % 4))
}

/// The first `n` bytes, in network order, of the address that the digits
/// `s` stand for.
pub open spec fn address_bytes(s: Seq<char>, n: nat) -> Seq<u8> {
    Seq::new(n, |k: int| address_byte(s, k))
}

/// The IPv4 address bytes that `s` stands for: eight hexadecimal digits.
pub open spec fn decoded_ipv4(s: Seq<char>) -> Option<Seq<u8>> {
    if s.len() == 8 && all_hex(s) {
        Some(address_bytes(s, 4))
    } else {
        None
    }
}

/// The IPv6 address bytes that `s` stands for: four words of eight
/// hexadecimal digits.
pub open spec fn decoded_ipv6(s: Seq<char>) -> Option<Seq<u8>> {
    if s.len() == 32 && all_hex(s) {
        Some(address_bytes(s, 16))
    } else {
        None
    }
}

/// The port that `s` stands for: four hexadecimal digits, most significant
/// first.
pub open spec fn decoded_port(s: Seq<char>) -> Option<u16> {
    if s.len() == 4 && all_hex(s) {
        Some(hex_value(s) as u16)
    } else {
        None
    }
}

/// Whether every character of `s` is a hexadecimal digit.
pub fn all_hex_chars(s: &Vec<char>) -> (r: bool)
    ensures
        r == all_hex(s@),
{
    let mut i: usize = 0;
    while i < s.len()
        invariant
            i <= s.len(),
            forall|k: int| 0 <= k < i ==> is_hex_digit(#[trigger] s@[k]),
        decreases s.len() - i,
    {
        if hex_digit_of(s[i]).is_none() {
            return false;
        }
        i += 1;
    }
    true
}

/// The byte that the two hexadecimal digits of `s` at index `i` spell.
pub fn hex_byte_at(s: &Vec<char>, i: usize) -> (r: u8)
    requires
        i + 1 < s.len(),
        all_hex(s@),
    ensures
        r == hex_byte(s@, i as int),
{
    let high = hex_digit_of(s[i]);
    let low = hex_digit_of(s[i + 1]);
    match (high, low) {
        (Some(h), Some(l)) => h * 16 + l,
        _ => {
            assert(is_hex_digit(s@[i as int]) && is_hex_digit(s@[i + 1]));
            0
        },
    }
}

/// Byte `k` of the address that the digits `s` stand for.
pub fn address_byte_at(s: &Vec<char>, k: usize) -> (r: u8)
    requires
        8 * (k / 4) + 8 <= s.len(),
        all_hex(s@),
    ensures
        r == address_byte(s@, k as int),
{
    hex_byte_at(s, 8 * (k / 4) + 6 - 2 * (k % 4))
}

/// Decodes the eight hexadecimal digits of an IPv4 address.
///
/// Returns `None` unless `hex` is exactly eight hexadecimal digits.
pub fn parse_ipv4_hex(hex: &str) -> (r: Option<[u8; 4]>)
    ensures
        match r {
            Some(b) => decoded_ipv4(hex@) == Some(b@),
            None => decoded_ipv4(hex@) is None,
        },
{
    broadcast use vstd::array::group_array_axioms;

    let s = chars_of(hex);
    if s.len() != 8 || !all_hex_chars(&s) {
        return None;
    }
    let mut bytes = [0u8;4];
    let mut k: usize = 0;
    while k < 4
        invariant
            k <= 4,
            s.len() == 8,
            all_hex(s@),
            bytes@.len() == 4,
            forall|j: int| 0 <= j < k ==> bytes@[j] == address_byte(s@, j),
        decreases 4 - k,
    {
        bytes[k] = address_byte_at(&s, k);
        k += 1;
    }
    assert(bytes@ =~= address_bytes(s@, 4));
    Some(bytes)
}

/// Decodes the thirty-two hexadecimal digits of an IPv6 address.
///
/// Returns `None` unless `hex` is exactly thirty-two hexadecimal digits.
pub fn parse_ipv6_hex(hex: &str) -> (r: Option<IpAddress>)
    ensures
        match r {
            Some(a) => a is V6 && decoded_ipv6(hex@) == Some(a.octets()),
            None => decoded_ipv6(hex@) is None,
        },
{
    broadcast use vstd::array::group_array_axioms;

    let s = chars_of(hex);
    if s.len() != 32 || !all_hex_chars(&s) {
        return None;
    }
    let mut bytes = [0u8;16];
    let mut k: usize = 0;
    while k < 16
        invariant
            k <= 16,
            s.len() == 32,
            all_hex(s@),
            bytes@.len() == 16,
            forall|j: int| 0 <= j < k ==> bytes@[j] == address_byte(s@, j),
        decreases 16 - k,
    {
        bytes[k] = address_byte_at(&s, k);
        k += 1;
    }
    assert(bytes@ =~= address_bytes(s@, 16));
    Some(IpAddress::V6(bytes))
}

/// Hexadecimal digits spell a number below sixteen to the power of their
/// count; four of them, one below 65536.
pub proof fn lemma_hex_value_bound(s: Seq<char>)
    requires
        s.len() <= 4,
    ensures
        s.len() == 0 ==> hex_value(s) == 0,
        s.len() == 1 ==> hex_value(s) < 16,
        s.len() == 2 ==> hex_value(s) < 256,
        s.len() == 3 ==> hex_value(s) < 4096,
        s.len() == 4 ==> hex_value(s) < 65536,
    decreases s.len(),
{
    if s.len() > 0 {
        lemma_hex_value_bound(s.drop_last());
    }
}

/// Decodes the four hexadecimal digits of a port.
///
/// Returns `None` unless `hex` is exactly four hexadecimal digits.
pub fn parse_port_hex(hex: &str) -> (r: Option<u16>)
    ensures
        r == decoded_port(hex@),
{
    let s = chars_of(hex);
    if s.len() != 4 {
        return None;
    }
    assert(s@.subrange(0, 4) == s@);
    match parse_hex_in(&s, 0, 4, 65535) {
        Some(v) => Some(v as u16),
        None => {
            proof {
                if all_hex(s@) {
                    lemma_hex_value_bound(s@);
                }
            }
            None
        },
    }
}

} // verus!
