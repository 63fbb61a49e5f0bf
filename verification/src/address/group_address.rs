//! What the notations of a group address share: the error that a rejected
//! address gives, and the two bytes that stand for an address on the wire.

use crate::address::group_address_free_level::GroupAddressFreeLevel;
use crate::address::group_address_free_level::free_level_bytes;
use crate::address::group_address_free_level::free_level_parsed;
use crate::address::group_address_free_level::free_level_text;
use crate::address::group_address_free_level::free_level_valid;
use crate::address::group_address_free_level::lemma_free_level_bytes_valid;
use crate::address::group_address_free_level::lemma_free_level_parse_text;
use crate::address::group_address_three_level::GroupAddressThreeLevel;
use crate::address::group_address_three_level::ThreeLevel;
use crate::address::group_address_three_level::lemma_three_level_bytes_valid;
use crate::address::group_address_three_level::lemma_three_level_parse_text;
use crate::address::group_address_three_level::three_level_bytes;
use crate::address::group_address_three_level::three_level_parsed;
use crate::address::group_address_three_level::three_level_text;
use crate::address::group_address_three_level::three_level_valid;
use crate::address::group_address_two_level::GroupAddressTwoLevel;
use crate::address::group_address_two_level::TwoLevel;
use crate::address::group_address_two_level::lemma_two_level_bytes_valid;
use crate::address::group_address_two_level::lemma_two_level_parse_text;
use crate::address::group_address_two_level::two_level_bytes;
use crate::address::group_address_two_level::two_level_parsed;
use crate::address::group_address_two_level::two_level_text;
use crate::address::group_address_two_level::two_level_valid;
use crate::text::decimal_text;
use crate::text::find_separators;
use crate::text::push_decimal;
use crate::text::separator_positions;
use vstd::prelude::*;
use vstd::std_specs::cmp::PartialEqSpecImpl;
use vstd::string::*;
use vstd::utf8::*;

verus! {

/// The byte of the separator between the fields of an address.
pub const SLASH: u8 = 0x2F;

/// Why a group address was rejected.
#[derive(Debug, Copy, Clone, PartialEq, Eq, Structural)]
pub enum GroupAddressErrorKind {
    /// No address was given. The parsers of this library do not give this
    /// kind: to them the empty text is a number out of range.
    Empty,
    /// The notation is malformed, or the address is the reserved address 0.
    Invalid,
    /// The main group is no number in its range.
    MainOverflow,
    /// The middle group is no number in its range.
    MiddleOverflow,
    /// The sub group is no number in its range.
    SubOverflow,
}

/// A rejected group address: the kind of the fault and a message for the
/// user.
#[derive(Debug)]
pub struct GroupAddressError {
    kind: GroupAddressErrorKind,
    message: String,
}

/// What a [`GroupAddressError`] holds.
pub struct GroupAddressFault {
    pub kind: GroupAddressErrorKind,
    pub message: Seq<char>,
}

impl View for GroupAddressError {
    type V = GroupAddressFault;

    closed spec fn view(&self) -> GroupAddressFault {
        GroupAddressFault { kind: self.kind, message: self.message@ }
    }
}

/// The text that `to_string` gives for a fault.
pub open spec fn group_address_fault_text(fault: GroupAddressFault) -> Seq<char> {
    "Group Address: "@ + fault.message
}

impl GroupAddressError {
    pub fn new(kind: GroupAddressErrorKind, message: &str) -> (r: Self)
        ensures
            r@ == (GroupAddressFault { kind, message: message@ }),
    {
        GroupAddressError { kind, message: String::from_str(message) }
    }

    /// An error whose message ends in a number.
    pub(crate) fn with_number(kind: GroupAddressErrorKind, words: &str, n: u16) -> (r: Self)
        ensures
            r@ == (GroupAddressFault { kind, message: words@ + decimal_text(n as nat) }),
    {
        let mut message = String::from_str(words);
        push_decimal(&mut message, n);
        GroupAddressError { kind, message }
    }

    /// An error whose message ends in a part of the text that was read.
    pub(crate) fn with_text(kind: GroupAddressErrorKind, words: &str, part: &str) -> (r: Self)
        ensures
            r@ == (GroupAddressFault { kind, message: words@ + decode_utf8(part.spec_bytes()) }),
    {
        let mut message = String::from_str(words);
        message.append(part);
        proof {
            encode_utf8_decode_utf8(part@);
        }
        GroupAddressError { kind, message }
    }

    pub fn kind(&self) -> (r: GroupAddressErrorKind)
        ensures
            r == self@.kind,
    {
        self.kind
    }

    pub fn message(&self) -> (r: &str)
        ensures
            r@ == self@.message,
    {
        self.message.as_str()
    }

    /// The message behind the words `Group Address: `.
    pub fn to_string(&self) -> (r: String)
        ensures
            r@ == group_address_fault_text(self@),
    {
        let mut text = String::from_str("Group Address: ");
        text.append(self.message.as_str());
        text
    }
}

impl PartialEq for GroupAddressError {
    fn eq(&self, other: &Self) -> (r: bool) {
        self.kind == other.kind && self.message == other.message
    }
}

impl PartialEqSpecImpl for GroupAddressError {
    open spec fn obeys_eq_spec() -> bool {
        true
    }

    open spec fn eq_spec(&self, other: &Self) -> bool {
        self@ == other@
    }
}

/// An address that has a form of two bytes on the wire.
pub trait GroupAddressBytes {
    /// The two bytes that stand for the address.
    spec fn wire_bytes(&self) -> Seq<u8>;

    fn as_bytes(&self) -> (r: [u8; 2])
        ensures
            r@ == self.wire_bytes(),
    ;
}

/// A group address in the form that goes on the wire: two bytes, the upper
/// bits first. The pair `[0, 0]` is reserved and no value of this type holds
/// it.
#[derive(Debug)]
pub struct GroupAddress {
    address: [u8; 2],
}

/// Whether two bytes are an address: any pair but `[0, 0]`.
pub open spec fn group_address_valid(b: Seq<u8>) -> bool {
    b.len() == 2 && !(b[0] == 0 && b[1] == 0)
}

/// The error that a text with more than two separators gives.
pub open spec fn group_address_format_fault() -> GroupAddressFault {
    GroupAddressFault {
        kind: GroupAddressErrorKind::Invalid,
        message: "Unsupported group address format provided. Supported are: #/#/#, #/# or #"@,
    }
}

/// The bytes of the address that a text denotes. The number of separators in
/// the text picks the notation: two for three levels, one for two levels,
/// none for the free level. The text is then read in that notation.
pub open spec fn group_address_parsed(text: Seq<u8>) -> Result<Seq<u8>, GroupAddressFault> {
    let separators = separator_positions(text, SLASH).len();
    if separators == 2 {
        match three_level_parsed(text) {
            Ok(a) => Ok(three_level_bytes(a)),
            Err(e) => Err(e),
        }
    } else if separators == 1 {
        match two_level_parsed(text) {
            Ok(a) => Ok(two_level_bytes(a)),
            Err(e) => Err(e),
        }
    } else if separators == 0 {
        match free_level_parsed(text) {
            Ok(a) => Ok(free_level_bytes(a)),
            Err(e) => Err(e),
        }
    } else {
        Err(group_address_format_fault())
    }
}

/// What a result of parsing holds.
pub open spec fn group_address_result(r: Result<GroupAddress, GroupAddressError>) -> Result<
    Seq<u8>,
    GroupAddressFault,
> {
    match r {
        Ok(a) => Ok(a@),
        Err(e) => Err(e@),
    }
}

impl View for GroupAddress {
    type V = Seq<u8>;

    closed spec fn view(&self) -> Seq<u8> {
        self.address@
    }
}

impl GroupAddress {
    #[verifier::type_invariant]
    spec fn well_formed(self) -> bool {
        group_address_valid(self@)
    }

    /// The address that a text denotes in one of the three notations.
    pub fn try_from(value: &str) -> (r: Result<Self, GroupAddressError>)
        ensures
            group_address_result(r) == group_address_parsed(value.spec_bytes()),
            r matches Ok(a) ==> group_address_valid(a@),
    {
        let separators: usize = find_separators(value.as_bytes(), SLASH).len();
        if separators == 2 {
            match GroupAddressThreeLevel::from_str(value) {
                Ok(ga) => {
                    let address = ga.as_bytes();
                    proof {
                        lemma_three_level_bytes_valid(ga@);
                    }
                    Ok(GroupAddress { address })
                },
                Err(e) => Err(e),
            }
        } else if separators == 1 {
            match GroupAddressTwoLevel::from_str(value) {
                Ok(ga) => {
                    let address = ga.as_bytes();
                    proof {
                        lemma_two_level_bytes_valid(ga@);
                    }
                    Ok(GroupAddress { address })
                },
                Err(e) => Err(e),
            }
        } else if separators == 0 {
            match GroupAddressFreeLevel::from_str(value) {
                Ok(ga) => {
                    let address = ga.as_bytes();
                    proof {
                        lemma_free_level_bytes_valid(ga@);
                    }
                    Ok(GroupAddress { address })
                },
                Err(e) => Err(e),
            }
        } else {
            Err(
                GroupAddressError::new(
                    GroupAddressErrorKind::Invalid,
                    "Unsupported group address format provided. Supported are: #/#/#, #/# or #",
                ),
            )
        }
    }
}

impl GroupAddressBytes for GroupAddress {
    open spec fn wire_bytes(&self) -> Seq<u8> {
        self@
    }

    fn as_bytes(&self) -> (r: [u8; 2]) {
        self.address
    }
}


/// The text of an address in any of the three notations parses to the bytes
/// of that address.
pub proof fn lemma_group_address_parse_text(three: ThreeLevel, two: TwoLevel, free: u16)
    requires
        three_level_valid(three),
        two_level_valid(two),
        free_level_valid(free),
    ensures
        group_address_parsed(encode_utf8(three_level_text(three))) == Ok::<
            Seq<u8>,
            GroupAddressFault,
        >(three_level_bytes(three)),
        group_address_parsed(encode_utf8(two_level_text(two))) == Ok::<
            Seq<u8>,
            GroupAddressFault,
        >(two_level_bytes(two)),
        group_address_parsed(encode_utf8(free_level_text(free))) == Ok::<
            Seq<u8>,
            GroupAddressFault,
        >(free_level_bytes(free)),
{
    lemma_three_level_parse_text(three);
    lemma_two_level_parse_text(two);
    lemma_free_level_parse_text(free);
}

} // verus!
