//! The two-level notation of a group address: `main/sub`.

use crate::address::group_address::GroupAddressBytes;
use crate::address::group_address::GroupAddressError;
use crate::address::group_address::GroupAddressErrorKind;
use crate::address::group_address::GroupAddressFault;
use crate::address::group_address::SLASH;
use crate::text::ascii_bytes;
use crate::text::decimal_text;
use crate::text::field;
use crate::text::is_digit;
use crate::text::lemma_ascii_bytes_concat;
use crate::text::lemma_ascii_text_bytes;
use crate::text::lemma_decimal_text_digits;
use crate::text::lemma_fields_of_joined;
use crate::text::lemma_no_separator;
use crate::text::lemma_parse_decimal_text;
use crate::text::parse_number;
use crate::text::parse_unsigned;
use crate::text::push_decimal;
use crate::text::separator_positions;
use crate::text::split_fields;
use vstd::prelude::*;
use vstd::string::*;
use vstd::utf8::*;

verus! {

/// A group address in two levels: five bits of main group and eleven bits of
/// sub group. The address `0/0` is reserved and no value of this type holds
/// it.
#[derive(Debug)]
pub struct GroupAddressTwoLevel {
    main: u8,
    sub: u16,
}

/// The two fields of an address in two levels.
pub struct TwoLevel {
    pub main: u8,
    pub sub: u16,
}

/// Whether two fields make an address: each within its bits, and not both
/// zero.
pub open spec fn two_level_valid(a: TwoLevel) -> bool {
    a.main <= 31 && a.sub <= 2047 && !(a.main == 0 && a.sub == 0)
}

/// The two bytes of an address in two levels: the main group in the upper
/// five bits of the first byte, the upper three bits of the sub group in its
/// lower three, the lower eight bits of the sub group in the second byte.
pub open spec fn two_level_bytes(a: TwoLevel) -> Seq<u8> {
    seq![(a.main * 8 + a.sub / 256) as u8, (a.sub % 256) as u8]
}

/// The fields that two bytes hold.
pub open spec fn two_level_of_bytes(b: Seq<u8>) -> TwoLevel {
    TwoLevel { main: b[0] / 8, sub: ((b[0] % 8) * 256 + b[1]) as u16 }
}

/// The notation of an address in two levels.
pub open spec fn two_level_text(a: TwoLevel) -> Seq<char> {
    decimal_text(a.main as nat) + seq!['/'] + decimal_text(a.sub as nat)
}

/// The error that a main group which is no number up to 31 gives.
pub open spec fn two_level_main_fault() -> GroupAddressFault {
    GroupAddressFault {
        kind: GroupAddressErrorKind::MainOverflow,
        message: "Main must between 0 and 31"@,
    }
}

/// The error that a sub group which is no number up to 2047 gives.
pub open spec fn two_level_sub_fault() -> GroupAddressFault {
    GroupAddressFault {
        kind: GroupAddressErrorKind::SubOverflow,
        message: "Sub must between 0 and 2047"@,
    }
}

/// What `new` makes of two fields.
pub open spec fn two_level_checked(main: u8, sub: u16) -> Result<TwoLevel, GroupAddressFault> {
    if main > 31 {
        Err(two_level_main_fault())
    } else if sub > 2047 {
        Err(two_level_sub_fault())
    } else if main == 0 && sub == 0 {
        Err(
            GroupAddressFault {
                kind: GroupAddressErrorKind::Invalid,
                message: "Address 0/0 is not allowed"@,
            },
        )
    } else {
        Ok(TwoLevel { main, sub })
    }
}

/// What two bytes decode to.
pub open spec fn two_level_decoded(b: Seq<u8>) -> Result<TwoLevel, GroupAddressFault> {
    if b[0] == 0 && b[1] == 0 {
        Err(
            GroupAddressFault {
                kind: GroupAddressErrorKind::Invalid,
                message: "Address [0,0] is not allowed because it would lead to address 0/0"@,
            },
        )
    } else {
        Ok(two_level_of_bytes(b))
    }
}

/// What a text parses to. A text with other than one separator is malformed.
/// The main group is read as an unsigned number of eight bits, the sub group
/// as one of sixteen, and the two numbers are then checked as `new` checks
/// them.
pub open spec fn two_level_parsed(text: Seq<u8>) -> Result<TwoLevel, GroupAddressFault> {
    if separator_positions(text, SLASH).len() != 1 {
        Err(
            GroupAddressFault {
                kind: GroupAddressErrorKind::Invalid,
                message: "Wrong format. Expected: #/#"@,
            },
        )
    } else {
        match parse_unsigned(field(text, SLASH, 0), 255) {
            None => Err(two_level_main_fault()),
            Some(main) => match parse_unsigned(field(text, SLASH, 1), 65535) {
                None => Err(two_level_sub_fault()),
                Some(sub) => two_level_checked(main as u8, sub as u16),
            },
        }
    }
}

/// What a result of this module holds.
pub open spec fn two_level_result(r: Result<GroupAddressTwoLevel, GroupAddressError>) -> Result<
    TwoLevel,
    GroupAddressFault,
> {
    match r {
        Ok(a) => Ok(a@),
        Err(e) => Err(e@),
    }
}

impl View for GroupAddressTwoLevel {
    type V = TwoLevel;

    closed spec fn view(&self) -> TwoLevel {
        TwoLevel { main: self.main, sub: self.sub }
    }
}

impl GroupAddressTwoLevel {
    #[verifier::type_invariant]
    spec fn well_formed(self) -> bool {
        two_level_valid(self@)
    }

    /// The address of the two fields, if they make one.
    pub fn new(main: u8, sub: u16) -> (r: Result<Self, GroupAddressError>)
        ensures
            two_level_result(r) == two_level_checked(main, sub),
            r matches Ok(a) ==> two_level_valid(a@),
    {
        if main > 31 {
            return Err(
                GroupAddressError::new(
                    GroupAddressErrorKind::MainOverflow,
                    "Main must between 0 and 31",
                ),
            );
        }
        if sub > 2047 {
            return Err(
                GroupAddressError::new(
                    GroupAddressErrorKind::SubOverflow,
                    "Sub must between 0 and 2047",
                ),
            );
        }
        if main == 0 && sub == 0 {
            return Err(
                GroupAddressError::new(
                    GroupAddressErrorKind::Invalid,
                    "Address 0/0 is not allowed",
                ),
            );
        }
        Ok(Self { main, sub })
    }

    pub fn main(&self) -> (r: u8)
        ensures
            r == self@.main,
            r <= 31,
    {
        proof {
            use_type_invariant(self);
        }
        self.main
    }

    pub fn sub(&self) -> (r: u16)
        ensures
            r == self@.sub,
            r <= 2047,
    {
        proof {
            use_type_invariant(self);
        }
        self.sub
    }

    /// The address that two bytes hold, if they hold one: every pair but
    /// `[0, 0]` does.
    pub fn try_from(value: [u8; 2]) -> (r: Result<Self, GroupAddressError>)
        ensures
            two_level_result(r) == two_level_decoded(value@),
            r matches Ok(a) ==> two_level_valid(a@),
    {
        if value[0] == 0 && value[1] == 0 {
            return Err(
                GroupAddressError::new(
                    GroupAddressErrorKind::Invalid,
                    "Address [0,0] is not allowed because it would lead to address 0/0",
                ),
            );
        }
        let first: u8 = value[0];
        let second: u8 = value[1];
        let sub: u16 = (first as u16 & 0b0000_0111) << 8 | second as u16;
        assert(first >> 3 == first / 8 && first >> 3 <= 31) by (bit_vector);
        assert(sub == (first % 8) * 256 + second && sub <= 2047 && (first >> 3 == 0 && sub == 0
            ==> first == 0 && second == 0)) by (bit_vector)
            requires
                sub == (first as u16 & 7) << 8 | second as u16,
        ;
        Ok(Self { main: first >> 3, sub })
    }

    /// The address that a text in the notation `main/sub` denotes.
    pub fn from_str(s: &str) -> (r: Result<Self, GroupAddressError>)
        ensures
            two_level_result(r) == two_level_parsed(s.spec_bytes()),
            r matches Ok(a) ==> two_level_valid(a@),
    {
        let split = split_fields(s, SLASH);
        if split.len() != 2 {
            return Err(
                GroupAddressError::new(
                    GroupAddressErrorKind::Invalid,
                    "Wrong format. Expected: #/#",
                ),
            );
        }
        let main: u8 = match parse_number(split[0].as_bytes(), 255) {
            Some(x) => x as u8,
            None => {
                return Err(
                    GroupAddressError::new(
                        GroupAddressErrorKind::MainOverflow,
                        "Main must between 0 and 31",
                    ),
                );
            },
        };
        let sub: u16 = match parse_number(split[1].as_bytes(), 65535) {
            Some(x) => x as u16,
            None => {
                return Err(
                    GroupAddressError::new(
                        GroupAddressErrorKind::SubOverflow,
                        "Sub must between 0 and 2047",
                    ),
                );
            },
        };
        GroupAddressTwoLevel::new(main, sub)
    }

    /// The address in the notation `main/sub`.
    pub fn to_string(&self) -> (r: String)
        ensures
            r@ == two_level_text(self@),
    {
        let mut text = String::new();
        push_decimal(&mut text, self.main as u16);
        text.append("/");
        push_decimal(&mut text, self.sub);
        proof {
            reveal_strlit("/");
            assert("/"@ =~= seq!['/']);
            assert(text@ =~= two_level_text(self@));
        }
        text
    }
}

impl GroupAddressBytes for GroupAddressTwoLevel {
    open spec fn wire_bytes(&self) -> Seq<u8> {
        two_level_bytes(self@)
    }

    fn as_bytes(&self) -> (r: [u8; 2]) {
        proof {
            use_type_invariant(self);
        }
        let main: u8 = self.main;
        let sub: u16 = self.sub;
        let main_as_u8: u8 = (main & 31) << 3;
        let middle_as_u8: u8 = (sub >> 8) as u8 & 7;
        let sub_as_u8: u8 = (sub & 0xFF) as u8;
        assert(main <= 31 && sub <= 2047 ==> (((main & 31) << 3) | ((sub >> 8) as u8 & 7)) == main
            * 8 + sub / 256 && (sub & 0xFF) as u8 == sub % 256) by (bit_vector);
        let r = [main_as_u8 | middle_as_u8, sub_as_u8];
        assert(r@ =~= two_level_bytes(self@));
        r
    }
}

/// The bytes of an address are two and not both zero.
pub proof fn lemma_two_level_bytes_valid(a: TwoLevel)
    requires
        two_level_valid(a),
    ensures
        two_level_bytes(a).len() == 2,
        !(two_level_bytes(a)[0] == 0 && two_level_bytes(a)[1] == 0),
{
}

/// Decoding the bytes of an address gives the address back.
pub proof fn lemma_two_level_decode_encode(a: TwoLevel)
    requires
        two_level_valid(a),
    ensures
        two_level_decoded(two_level_bytes(a)) == Ok::<TwoLevel, GroupAddressFault>(a),
{
}

/// Two bytes that are not both zero decode to an address, and that address
/// has these two bytes.
pub proof fn lemma_two_level_encode_decode(b: Seq<u8>)
    requires
        b.len() == 2,
        !(b[0] == 0 && b[1] == 0),
    ensures
        two_level_decoded(b) matches Ok(a) && two_level_valid(a) && two_level_bytes(a) == b,
{
    let a = two_level_of_bytes(b);
    assert(two_level_bytes(a) =~= b);
}


/// Parsing the notation of an address gives the address back.
pub proof fn lemma_two_level_parse_text(a: TwoLevel)
    requires
        two_level_valid(a),
    ensures
        separator_positions(encode_utf8(two_level_text(a)), SLASH).len() == 1,
        two_level_parsed(encode_utf8(two_level_text(a))) == Ok::<TwoLevel, GroupAddressFault>(a),
{
    let d1 = decimal_text(a.main as nat);
    let d2 = decimal_text(a.sub as nat);
    let slash = seq!['/'];
    let b1 = ascii_bytes(d1);
    let b2 = ascii_bytes(d2);
    let text = two_level_text(a);
    lemma_decimal_text_digits(a.main as nat);
    lemma_decimal_text_digits(a.sub as nat);
    lemma_parse_decimal_text(a.main as nat, 255);
    lemma_parse_decimal_text(a.sub as nat, 65535);
    lemma_ascii_bytes_concat(d1, slash);
    lemma_ascii_bytes_concat(d1 + slash, d2);
    lemma_ascii_text_bytes(text);
    assert(ascii_bytes(slash) =~= seq![SLASH]);
    assert(encode_utf8(text) =~= b1 + seq![SLASH] + b2);
    assert forall|i: int| 0 <= i < b1.len() implies b1[i] != SLASH by {
        assert(is_digit(b1[i]));
    }
    assert forall|i: int| 0 <= i < b2.len() implies b2[i] != SLASH by {
        assert(is_digit(b2[i]));
    }
    lemma_no_separator(b2, SLASH);
    lemma_fields_of_joined(b1, b2, SLASH);
    assert(field(b2, SLASH, 0) =~= b2);
    let whole = b1 + seq![SLASH] + b2;
    assert(field(whole, SLASH, 0) == b1);
    assert(field(whole, SLASH, 1) == b2);
}

} // verus!
