//! The three-level notation of a group address: `main/middle/sub`.

use crate::address::group_address::GroupAddressBytes;
use crate::address::group_address::GroupAddressError;
use crate::address::group_address::GroupAddressErrorKind;
use crate::address::group_address::GroupAddressFault;
use crate::address::group_address::SLASH;
use crate::text::ascii_bytes;
use crate::text::decimal_text;
use crate::text::field;
use crate::text::is_digit;
use crate::text::lemma_ascii_bytes_concat;
use crate::text::lemma_ascii_text_bytes;
use crate::text::lemma_decimal_text_digits;
use crate::text::lemma_fields_of_joined;
use crate::text::lemma_no_separator;
use crate::text::lemma_parse_decimal_text;
use crate::text::parse_number;
use crate::text::parse_unsigned;
use crate::text::push_decimal;
use crate::text::separator_positions;
use crate::text::split_fields;
use vstd::prelude::*;
use vstd::string::*;
use vstd::utf8::*;

verus! {

/// A group address in three levels: five bits of main group, three bits of
/// middle group and eight bits of sub group. The address `0/0/0` is reserved
/// and no value of this type holds it.
#[derive(Debug)]
pub struct GroupAddressThreeLevel {
    main: u8,
    middle: u8,
    sub: u8,
}

/// The three fields of an address in three levels.
pub struct ThreeLevel {
    pub main: u8,
    pub middle: u8,
    pub sub: u8,
}

/// Whether three fields make an address: each within its bits, and not all
/// of them zero.
pub open spec fn three_level_valid(a: ThreeLevel) -> bool {
    a.main <= 31 && a.middle <= 7 && !(a.main == 0 && a.middle == 0 && a.sub == 0)
}

/// The two bytes of an address in three levels: the main group in the upper
/// five bits of the first byte, the middle group in its lower three, the sub
/// group in the second byte.
pub open spec fn three_level_bytes(a: ThreeLevel) -> Seq<u8> {
    seq![(a.main * 8 + a.middle) as u8, a.sub]
}

/// The fields that two bytes hold.
pub open spec fn three_level_of_bytes(b: Seq<u8>) -> ThreeLevel {
    ThreeLevel { main: b[0] / 8, middle: b[0] % 8, sub: b[1] }
}

/// The notation of an address in three levels.
pub open spec fn three_level_text(a: ThreeLevel) -> Seq<char> {
    decimal_text(a.main as nat) + seq!['/'] + decimal_text(a.middle as nat) + seq!['/']
        + decimal_text(a.sub as nat)
}

/// What `new` makes of three fields.
pub open spec fn three_level_checked(main: u8, middle: u8, sub: u8) -> Result<
    ThreeLevel,
    GroupAddressFault,
> {
    if main > 31 {
        Err(
            GroupAddressFault {
                kind: GroupAddressErrorKind::MainOverflow,
                message: "Main must between 0 and 31 but was: "@ + decimal_text(main as nat),
            },
        )
    } else if middle > 7 {
        Err(
            GroupAddressFault {
                kind: GroupAddressErrorKind::MiddleOverflow,
                message: "Middle must between 0 and 7 but was: "@ + decimal_text(middle as nat),
            },
        )
    } else if main == 0 && middle == 0 && sub == 0 {
        Err(
            GroupAddressFault {
                kind: GroupAddressErrorKind::Invalid,
                message: "Address 0/0/0 is not allowed!"@,
            },
        )
    } else {
        Ok(ThreeLevel { main, middle, sub })
    }
}

/// What two bytes decode to.
pub open spec fn three_level_decoded(b: Seq<u8>) -> Result<ThreeLevel, GroupAddressFault> {
    if b[0] == 0 && b[1] == 0 {
        Err(
            GroupAddressFault {
                kind: GroupAddressErrorKind::Invalid,
                message: "Address [0,0] is not allowed because it would lead to address 0/0/0"@,
            },
        )
    } else {
        Ok(three_level_of_bytes(b))
    }
}

/// What a text parses to. A text with other than two separators is
/// malformed. Each field is read as an unsigned number of eight bits, the
/// first that is none gives the error of its field, and the three numbers
/// are then checked as `new` checks them.
pub open spec fn three_level_parsed(text: Seq<u8>) -> Result<ThreeLevel, GroupAddressFault> {
    if separator_positions(text, SLASH).len() != 2 {
        Err(
            GroupAddressFault {
                kind: GroupAddressErrorKind::Invalid,
                message: "Unsupported format. Expected '1/1/1', but got: "@ + decode_utf8(text),
            },
        )
    } else {
        match parse_unsigned(field(text, SLASH, 0), 255) {
            None => Err(
                GroupAddressFault {
                    kind: GroupAddressErrorKind::MainOverflow,
                    message: "Main must between 0 and 31 but was: "@ + decode_utf8(
                        field(text, SLASH, 0),
                    ),
                },
            ),
            Some(main) => match parse_unsigned(field(text, SLASH, 1), 255) {
                None => Err(
                    GroupAddressFault {
                        kind: GroupAddressErrorKind::MiddleOverflow,
                        message: "Middle must between 0 and 7 but was: "@ + decode_utf8(
                            field(text, SLASH, 1),
                        ),
                    },
                ),
                Some(middle) => match parse_unsigned(field(text, SLASH, 2), 255) {
                    None => Err(
                        GroupAddressFault {
                            kind: GroupAddressErrorKind::SubOverflow,
                            message: "Sub must between 0 and 255 but was: "@ + decode_utf8(
                                field(text, SLASH, 2),
                            ),
                        },
                    ),
                    Some(sub) => three_level_checked(main as u8, middle as u8, sub as u8),
                },
            },
        }
    }
}

/// What a result of this module holds.
pub open spec fn three_level_result(r: Result<GroupAddressThreeLevel, GroupAddressError>) -> Result<
    ThreeLevel,
    GroupAddressFault,
> {
    match r {
        Ok(a) => Ok(a@),
        Err(e) => Err(e@),
    }
}

impl View for GroupAddressThreeLevel {
    type V = ThreeLevel;

    closed spec fn view(&self) -> ThreeLevel {
        ThreeLevel { main: self.main, middle: self.middle, sub: self.sub }
    }
}

impl GroupAddressThreeLevel {
    #[verifier::type_invariant]
    spec fn well_formed(self) -> bool {
        three_level_valid(self@)
    }

    /// The address of the three fields, if they make one.
    pub fn new(main: u8, middle: u8, sub: u8) -> (r: Result<Self, GroupAddressError>)
        ensures
            three_level_result(r) == three_level_checked(main, middle, sub),
            r matches Ok(a) ==> three_level_valid(a@),
    {
        if main > 31 {
            return Err(
                GroupAddressError::with_number(
                    GroupAddressErrorKind::MainOverflow,
                    "Main must between 0 and 31 but was: ",
                    main as u16,
                ),
            );
        }
        if middle > 7 {
            return Err(
                GroupAddressError::with_number(
                    GroupAddressErrorKind::MiddleOverflow,
                    "Middle must between 0 and 7 but was: ",
                    middle as u16,
                ),
            );
        }
        if main == 0 && middle == 0 && sub == 0 {
            return Err(
                GroupAddressError::new(
                    GroupAddressErrorKind::Invalid,
                    "Address 0/0/0 is not allowed!",
                ),
            );
        }
        Ok(Self { main, middle, sub })
    }

    pub fn main(&self) -> (r: u8)
        ensures
            r == self@.main,
            r <= 31,
    {
        proof {
            use_type_invariant(self);
        }
        self.main
    }

    pub fn middle(&self) -> (r: u8)
        ensures
            r == self@.middle,
            r <= 7,
    {
        proof {
            use_type_invariant(self);
        }
        self.middle
    }

    pub fn sub(&self) -> (r: u8)
        ensures
            r == self@.sub,
    {
        self.sub
    }

    /// The address that two bytes hold, if they hold one: every pair but
    /// `[0, 0]` does.
    pub fn try_from(value: [u8; 2]) -> (r: Result<Self, GroupAddressError>)
        ensures
            three_level_result(r) == three_level_decoded(value@),
            r matches Ok(a) ==> three_level_valid(a@),
    {
        if value[0] == 0 && value[1] == 0 {
            Err(
                GroupAddressError::new(
                    GroupAddressErrorKind::Invalid,
                    "Address [0,0] is not allowed because it would lead to address 0/0/0",
                ),
            )
        } else {
            let first: u8 = value[0];
            let second: u8 = value[1];
            assert(first >> 3 == first / 8 && first & 7 == first % 8 && first >> 3 <= 31 && first
                & 7 <= 7 && (first >> 3 == 0 && first & 7 == 0 ==> first == 0)) by (bit_vector);
            Ok(Self { main: first >> 3, middle: first & 0b0000_0111, sub: second })
        }
    }

    /// The address that a text in the notation `main/middle/sub` denotes.
    pub fn from_str(s: &str) -> (r: Result<Self, GroupAddressError>)
        ensures
            three_level_result(r) == three_level_parsed(s.spec_bytes()),
            r matches Ok(a) ==> three_level_valid(a@),
    {
        let split = split_fields(s, SLASH);
        if split.len() != 3 {
            return Err(
                GroupAddressError::with_text(
                    GroupAddressErrorKind::Invalid,
                    "Unsupported format. Expected '1/1/1', but got: ",
                    s,
                ),
            );
        }
        let main: u8 = match parse_number(split[0].as_bytes(), 255) {
            Some(value) => value as u8,
            None => {
                return Err(
                    GroupAddressError::with_text(
                        GroupAddressErrorKind::MainOverflow,
                        "Main must between 0 and 31 but was: ",
                        split[0],
                    ),
                );
            },
        };
        let middle: u8 = match parse_number(split[1].as_bytes(), 255) {
            Some(value) => value as u8,
            None => {
                return Err(
                    GroupAddressError::with_text(
                        GroupAddressErrorKind::MiddleOverflow,
                        "Middle must between 0 and 7 but was: ",
                        split[1],
                    ),
                );
            },
        };
        let sub: u8 = match parse_number(split[2].as_bytes(), 255) {
            Some(value) => value as u8,
            None => {
                return Err(
                    GroupAddressError::with_text(
                        GroupAddressErrorKind::SubOverflow,
                        "Sub must between 0 and 255 but was: ",
                        split[2],
                    ),
                );
            },
        };
        Self::new(main, middle, sub)
    }

    /// The address in the notation `main/middle/sub`.
    pub fn to_string(&self) -> (r: String)
        ensures
            r@ == three_level_text(self@),
    {
        let mut text = String::new();
        push_decimal(&mut text, self.main as u16);
        text.append("/");
        push_decimal(&mut text, self.middle as u16);
        text.append("/");
        push_decimal(&mut text, self.sub as u16);
        proof {
            reveal_strlit("/");
            assert("/"@ =~= seq!['/']);
            assert(text@ =~= three_level_text(self@));
        }
        text
    }
}

impl GroupAddressBytes for GroupAddressThreeLevel {
    open spec fn wire_bytes(&self) -> Seq<u8> {
        three_level_bytes(self@)
    }

    fn as_bytes(&self) -> (r: [u8; 2]) {
        proof {
            use_type_invariant(self);
        }
        let main: u8 = self.main;
        let middle: u8 = self.middle;
        assert(main <= 31 && middle <= 7 ==> ((main & 31) << 3 | middle) == main * 8 + middle)
            by (bit_vector);
        let main_as_u8: u8 = (self.main & 31) << 3;
        let r = [main_as_u8 | self.middle, self.sub];
        assert(r@ =~= three_level_bytes(self@));
        r
    }
}

/// The bytes of an address are two and not both zero.
pub proof fn lemma_three_level_bytes_valid(a: ThreeLevel)
    requires
        three_level_valid(a),
    ensures
        three_level_bytes(a).len() == 2,
        !(three_level_bytes(a)[0] == 0 && three_level_bytes(a)[1] == 0),
{
}

/// Decoding the bytes of an address gives the address back.
pub proof fn lemma_three_level_decode_encode(a: ThreeLevel)
    requires
        three_level_valid(a),
    ensures
        three_level_decoded(three_level_bytes(a)) == Ok::<ThreeLevel, GroupAddressFault>(a),
{
}

/// Two bytes that are not both zero decode to an address, and that address
/// has these two bytes.
pub proof fn lemma_three_level_encode_decode(b: Seq<u8>)
    requires
        b.len() == 2,
        !(b[0] == 0 && b[1] == 0),
    ensures
        three_level_decoded(b) matches Ok(a) && three_level_valid(a) && three_level_bytes(a) == b,
{
    let a = three_level_of_bytes(b);
    assert(three_level_bytes(a) =~= b);
}


/// Parsing the notation of an address gives the address back.
pub proof fn lemma_three_level_parse_text(a: ThreeLevel)
    requires
        three_level_valid(a),
    ensures
        separator_positions(encode_utf8(three_level_text(a)), SLASH).len() == 2,
        three_level_parsed(encode_utf8(three_level_text(a))) == Ok::<ThreeLevel, GroupAddressFault>(
            a,
        ),
{
    let d1 = decimal_text(a.main as nat);
    let d2 = decimal_text(a.middle as nat);
    let d3 = decimal_text(a.sub as nat);
    let slash = seq!['/'];
    let b1 = ascii_bytes(d1);
    let b2 = ascii_bytes(d2);
    let b3 = ascii_bytes(d3);
    let text = three_level_text(a);
    lemma_decimal_text_digits(a.main as nat);
    lemma_decimal_text_digits(a.middle as nat);
    lemma_decimal_text_digits(a.sub as nat);
    lemma_parse_decimal_text(a.main as nat, 255);
    lemma_parse_decimal_text(a.middle as nat, 255);
    lemma_parse_decimal_text(a.sub as nat, 255);
    lemma_ascii_bytes_concat(d1, slash);
    lemma_ascii_bytes_concat(d1 + slash, d2);
    lemma_ascii_bytes_concat(d1 + slash + d2, slash);
    lemma_ascii_bytes_concat(d1 + slash + d2 + slash, d3);
    lemma_ascii_text_bytes(text);
    let rest = b2 + seq![SLASH] + b3;
    assert(ascii_bytes(slash) =~= seq![SLASH]);
    assert(encode_utf8(text) =~= b1 + seq![SLASH] + rest);
    assert forall|i: int| 0 <= i < b1.len() implies b1[i] != SLASH by {
        assert(is_digit(b1[i]));
    }
    assert forall|i: int| 0 <= i < b2.len() implies b2[i] != SLASH by {
        assert(is_digit(b2[i]));
    }
    assert forall|i: int| 0 <= i < b3.len() implies b3[i] != SLASH by {
        assert(is_digit(b3[i]));
    }
    lemma_no_separator(b3, SLASH);
    lemma_fields_of_joined(b2, b3, SLASH);
    lemma_fields_of_joined(b1, rest, SLASH);
    assert(field(b3, SLASH, 0) =~= b3);
    assert(field(rest, SLASH, 1) == b3);
    assert(field(rest, SLASH, 0) == b2);
    let whole = b1 + seq![SLASH] + rest;
    assert(field(whole, SLASH, 0) == b1);
    assert(field(whole, SLASH, 1) == b2);
    assert(field(whole, SLASH, 2) == b3);
}

} // verus!
