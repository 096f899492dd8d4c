//! Addresses and 256-bit numbers of the chain.
//!
//! Both are held as plain bytes and limbs. Reading them from text and
//! writing them as text is done by the `alloy-primitives` crate.

use crate::text::{decimal_text, digits_value};
use vstd::prelude::*;

verus! {

/// The number of bytes of an address.
pub const ADDRESS_BYTES: usize = 20;

/// An account or contract address: 20 bytes.
#[derive(Debug, Clone, Copy, PartialEq, Eq)]
pub struct Address {
    pub bytes: [u8; 20],
}

impl View for Address {
    type V = Seq<u8>;

    open spec fn view(&self) -> Seq<u8> {
        self.bytes@
    }
}

/// The value of a hexadecimal digit of either case, if it is one.
pub open spec fn hex_value(c: char) -> Option<int> {
    if '0' <= c <= '9' {
        Some(c as int - '0' as int)
    } else if 'a' <= c <= 'f' {
        Some(c as int - 'a' as int + 10)
    } else if 'A' <= c <= 'F' {
        Some(c as int - 'A' as int + 10)
    } else {
        None
    }
}

/// The text without a leading `0x` or `0X`.
pub open spec fn without_hex_prefix(s: Seq<char>) -> Seq<char> {
    if s.len() >= 2 && s[0] == '0' && (s[1] == 'x' || s[1] == 'X') {
        s.skip(2)
    } else {
        s
    }
}

/// The address that a text denotes: after an optional `0x`, exactly forty
/// hexadecimal digits of either case, two to a byte, the high half first.
/// No checksum is asked of the letters' case.
pub open spec fn address_bytes(s: Seq<char>) -> Option<Seq<u8>> {
    let body = without_hex_prefix(s);
    if body.len() == 2 * ADDRESS_BYTES && forall|i: int|
        0 <= i < body.len() ==> (#[trigger] hex_value(body[i])) is Some {
        Some(
            Seq::new(
                ADDRESS_BYTES as nat,
                |i: int| (16 * hex_value(body[2 * i])->0 + hex_value(body[2 * i + 1])->0) as u8,
            ),
        )
    } else {
        None
    }
}

/// The mixed-case text of an address, by its bytes: `0x` and forty
/// hexadecimal digits whose letters' case carries a checksum of the address.
pub uninterp spec fn checksum_text(bytes: Seq<u8>) -> Seq<char>;

impl Address {
    /// The address of twenty zero bytes, which as a taker means any taker.
    pub fn zero() -> (a: Address)
        ensures
            a@ == Seq::new(ADDRESS_BYTES as nat, |i: int| 0u8),
    {
        let a = Address { bytes: [0u8; 20] };
        assert(a@ =~= Seq::new(ADDRESS_BYTES as nat, |i: int| 0u8));
        a
    }

    /// Reads an address from text.
    pub fn from_str(s: &str) -> (r: Option<Address>)
        ensures
            match address_bytes(s@) {
                Some(bytes) => r matches Some(a) && a@ == bytes,
                None => r is None,
            },
    {
        parse_address_outside(s)
    }

    /// The address as checksummed text.
    pub fn to_checksum(&self) -> (text: String)
        ensures
            text@ == checksum_text(self@),
    {
        checksum_outside(self)
    }
}

/// `2^64`.
pub open spec fn limb_base() -> nat {
    0x1_0000_0000_0000_0000
}

/// An unsigned number of 256 bits, as four limbs of 64 bits, the least
/// significant first.
#[derive(Debug, Clone, Copy, PartialEq, Eq)]
pub struct U256 {
    pub limbs: [u64; 4],
}

impl View for U256 {
    type V = nat;

    open spec fn view(&self) -> nat {
        (self.limbs@[0] as nat) + limb_base() * ((self.limbs@[1] as nat) + limb_base() * ((
        self.limbs@[2] as nat) + limb_base() * (self.limbs@[3] as nat)))
    }
}

/// The number that a decimal text denotes, where it fits 256 bits: digits,
/// with underscores skipped.
pub open spec fn u256_of_text(s: Seq<char>) -> Option<nat> {
    match digits_value(s) {
        Some(n) => if n < limb_base() * limb_base() * limb_base() * limb_base() {
            Some(n)
        } else {
            None
        },
        None => None,
    }
}

impl U256 {
    /// Zero.
    pub fn zero() -> (n: U256)
        ensures
            n@ == 0,
    {
        U256 { limbs: [0u64; 4] }
    }

    /// The number `value`.
    pub fn from_u64(value: u64) -> (n: U256)
        ensures
            n@ == value,
    {
        U256 { limbs: [value, 0, 0, 0] }
    }

    /// Reads a number from decimal text; `None` where the text holds anything
    /// but digits and underscores, or the number needs more than 256 bits.
    pub fn from_decimal_str(s: &str) -> (r: Option<U256>)
        ensures
            match u256_of_text(s@) {
                Some(n) => r matches Some(u) && u@ == n,
                None => r is None,
            },
    {
        parse_u256_outside(s)
    }

    /// The number in decimal.
    pub fn to_decimal_string(&self) -> (text: String)
        ensures
            text@ == decimal_text(self@),
    {
        format_u256_outside(self)
    }
}

/// `alloy_primitives::Address::from_str`.
///
/// The crate strips one leading `0x` or `0X`, asks for exactly forty
/// hexadecimal digits of either case, and decodes them two to a byte. It
/// checks no checksum.
#[verifier::external_body]
fn parse_address_outside(s: &str) -> (r: Option<Address>)
    ensures
        match address_bytes(s@) {
            Some(bytes) => r matches Some(a) && a@ == bytes,
            None => r is None,
        },
{
    match <alloy_primitives::Address as std::str::FromStr>::from_str(s) {
        Ok(a) => Some(Address { bytes: a.into_array() }),
        Err(_) => None,
    }
}

/// `alloy_primitives::Address::to_checksum`, without a chain id.
#[verifier::external_body]
fn checksum_outside(a: &Address) -> (text: String)
    ensures
        text@ == checksum_text(a@),
{
    alloy_primitives::Address::new(a.bytes).to_checksum(None)
}

/// `alloy_primitives::U256::from_str_radix` with radix 10.
///
/// The crate reads the digits `0` to `9`, skips underscores, refuses every
/// other character, and refuses a number that does not fit 256 bits. The
/// empty text reads as zero.
#[verifier::external_body]
fn parse_u256_outside(s: &str) -> (r: Option<U256>)
    ensures
        match u256_of_text(s@) {
            Some(n) => r matches Some(u) && u@ == n,
            None => r is None,
        },
{
    match alloy_primitives::U256::from_str_radix(s, 10) {
        Ok(n) => Some(U256 { limbs: n.into_limbs() }),
        Err(_) => None,
    }
}

/// `alloy_primitives::U256`'s `to_string`, which writes the number in
/// decimal, without leading zeros.
#[verifier::external_body]
fn format_u256_outside(n: &U256) -> (text: String)
    ensures
        text@ == decimal_text(n@),
{
    alloy_primitives::U256::from_limbs(n.limbs).to_string()
}

} // verus!
