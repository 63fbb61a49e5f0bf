//! The free-level notation of a group address: one number.

use crate::address::group_address::GroupAddressBytes;
use crate::address::group_address::GroupAddressError;
use crate::address::group_address::GroupAddressErrorKind;
use crate::address::group_address::GroupAddressFault;
use crate::address::group_address::SLASH;
use crate::text::ascii_bytes;
use crate::text::decimal_text;
use crate::text::is_digit;
use crate::text::lemma_decimal_text_digits;
use crate::text::lemma_no_separator;
use crate::text::lemma_parse_decimal_text;
use crate::text::parse_number;
use crate::text::parse_unsigned;
use crate::text::push_decimal;
use crate::text::separator_positions;
use vstd::prelude::*;
use vstd::string::*;
use vstd::utf8::*;

verus! {

/// A group address as one number of sixteen bits. The address 0 is reserved
/// and no value of this type holds it.
#[derive(Debug)]
pub struct GroupAddressFreeLevel {
    address: u16,
}

/// Whether a number is an address: any but 0.
pub open spec fn free_level_valid(address: u16) -> bool {
    address != 0
}

/// The two bytes of an address: the upper eight bits, then the lower eight.
pub open spec fn free_level_bytes(address: u16) -> Seq<u8> {
    seq![(address / 256) as u8, (address % 256) as u8]
}

/// The number that two bytes hold.
pub open spec fn free_level_of_bytes(b: Seq<u8>) -> u16 {
    (b[0] * 256 + b[1]) as u16
}

/// The notation of an address as one number.
pub open spec fn free_level_text(address: u16) -> Seq<char> {
    decimal_text(address as nat)
}

/// What `new` makes of a number.
pub open spec fn free_level_checked(address: u16) -> Result<u16, GroupAddressFault> {
    if address == 0 {
        Err(
            GroupAddressFault {
                kind: GroupAddressErrorKind::Invalid,
                message: "Address 0 is not allowed!"@,
            },
        )
    } else {
        Ok(address)
    }
}

/// What two bytes decode to.
pub open spec fn free_level_decoded(b: Seq<u8>) -> Result<u16, GroupAddressFault> {
    if b[0] == 0 && b[1] == 0 {
        Err(
            GroupAddressFault {
                kind: GroupAddressErrorKind::Invalid,
                message: "Address [0,0] is not allowed because it would lead to address 0"@,
            },
        )
    } else {
        Ok(free_level_of_bytes(b))
    }
}

/// What a text parses to. The text is read as an unsigned number of sixteen
/// bits; one that is none overflows the address from its upper end, the bits
/// of the main group. The number is then checked as `new` checks it.
pub open spec fn free_level_parsed(text: Seq<u8>) -> Result<u16, GroupAddressFault> {
    match parse_unsigned(text, 65535) {
        None => Err(
            GroupAddressFault {
                kind: GroupAddressErrorKind::MainOverflow,
                message: "Address must be between [1-65535], but got: "@ + decode_utf8(text),
            },
        ),
        Some(address) => free_level_checked(address as u16),
    }
}

/// What a result of this module holds.
pub open spec fn free_level_result(r: Result<GroupAddressFreeLevel, GroupAddressError>) -> Result<
    u16,
    GroupAddressFault,
> {
    match r {
        Ok(a) => Ok(a@),
        Err(e) => Err(e@),
    }
}

impl View for GroupAddressFreeLevel {
    type V = u16;

    closed spec fn view(&self) -> u16 {
        self.address
    }
}

impl GroupAddressFreeLevel {
    #[verifier::type_invariant]
    spec fn well_formed(self) -> bool {
        free_level_valid(self@)
    }

    /// The address of the number, if it is one.
    pub fn new(address: u16) -> (r: Result<Self, GroupAddressError>)
        ensures
            free_level_result(r) == free_level_checked(address),
    {
        if address == 0 {
            return Err(
                GroupAddressError::new(
                    GroupAddressErrorKind::Invalid,
                    "Address 0 is not allowed!",
                ),
            );
        }
        Ok(Self { address })
    }

    pub fn address(&self) -> (r: u16)
        ensures
            r == self@,
            r != 0,
    {
        proof {
            use_type_invariant(self);
        }
        self.address
    }

    /// The address that two bytes hold, if they hold one: every pair but
    /// `[0, 0]` does.
    pub fn try_from(value: [u8; 2]) -> (r: Result<Self, GroupAddressError>)
        ensures
            free_level_result(r) == free_level_decoded(value@),
    {
        if value[0] == 0 && value[1] == 0 {
            return Err(
                GroupAddressError::new(
                    GroupAddressErrorKind::Invalid,
                    "Address [0,0] is not allowed because it would lead to address 0",
                ),
            );
        }
        let first: u8 = value[0];
        let second: u8 = value[1];
        let address: u16 = (first as u16) << 8 | second as u16;
        assert(address == first * 256 + second && (address == 0 ==> first == 0 && second == 0))
            by (bit_vector)
            requires
                address == (first as u16) << 8 | second as u16,
        ;
        Ok(Self { address })
    }

    /// The address that a text denotes as one number.
    pub fn from_str(s: &str) -> (r: Result<Self, GroupAddressError>)
        ensures
            free_level_result(r) == free_level_parsed(s.spec_bytes()),
    {
        match parse_number(s.as_bytes(), 65535) {
            Some(value) => Self::new(value as u16),
            None => Err(
                GroupAddressError::with_text(
                    GroupAddressErrorKind::MainOverflow,
                    "Address must be between [1-65535], but got: ",
                    s,
                ),
            ),
        }
    }

    /// The address as one number.
    pub fn to_string(&self) -> (r: String)
        ensures
            r@ == free_level_text(self@),
    {
        let mut text = String::new();
        push_decimal(&mut text, self.address);
        assert(text@ =~= free_level_text(self@));
        text
    }
}

impl GroupAddressBytes for GroupAddressFreeLevel {
    open spec fn wire_bytes(&self) -> Seq<u8> {
        free_level_bytes(self@)
    }

    fn as_bytes(&self) -> (r: [u8; 2]) {
        let address: u16 = self.address;
        assert((address >> 8) as u8 == address / 256 && (address & 0xFF) as u8 == address % 256)
            by (bit_vector);
        let r = [(address >> 8) as u8, (address & 0xFF) as u8];
        assert(r@ =~= free_level_bytes(self@));
        r
    }
}

/// The bytes of an address are two and not both zero.
pub proof fn lemma_free_level_bytes_valid(a: u16)
    requires
        free_level_valid(a),
    ensures
        free_level_bytes(a).len() == 2,
        !(free_level_bytes(a)[0] == 0 && free_level_bytes(a)[1] == 0),
{
}

/// Decoding the bytes of an address gives the address back.
pub proof fn lemma_free_level_decode_encode(a: u16)
    requires
        free_level_valid(a),
    ensures
        free_level_decoded(free_level_bytes(a)) == Ok::<u16, GroupAddressFault>(a),
{
}

/// Two bytes that are not both zero decode to an address, and that address
/// has these two bytes.
pub proof fn lemma_free_level_encode_decode(b: Seq<u8>)
    requires
        b.len() == 2,
        !(b[0] == 0 && b[1] == 0),
    ensures
        free_level_decoded(b) matches Ok(a) && free_level_valid(a) && free_level_bytes(a) == b,
{
    let a = free_level_of_bytes(b);
    assert(free_level_bytes(a) =~= b);
}


/// Parsing the notation of an address gives the address back.
pub proof fn lemma_free_level_parse_text(a: u16)
    requires
        free_level_valid(a),
    ensures
        separator_positions(encode_utf8(free_level_text(a)), SLASH).len() == 0,
        free_level_parsed(encode_utf8(free_level_text(a))) == Ok::<u16, GroupAddressFault>(a),
{
    let b = ascii_bytes(decimal_text(a as nat));
    lemma_decimal_text_digits(a as nat);
    lemma_parse_decimal_text(a as nat, 65535);
    assert forall|i: int| 0 <= i < b.len() implies b[i] != SLASH by {
        assert(is_digit(b[i]));
    }
    lemma_no_separator(b, SLASH);
}

} // verus!
