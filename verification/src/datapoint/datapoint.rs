//! The identifier of a datapoint type: a main type and a sub type of sixteen
//! bits each, written `#`, `#.#`, `dpt-#` or `dpst-#-#`.

use crate::datapoint::pattern::captured_groups;
use crate::datapoint::pattern::captures;
use crate::datapoint::pattern::lower_text;
use crate::datapoint::pattern::regex_captures;
use crate::text::all_digits;
use crate::text::decimal_text;
use crate::text::is_digit;
use crate::text::lemma_decimal_text_digits;
use crate::text::lemma_parse_decimal_text;
use crate::text::parse_number;
use crate::text::parse_unsigned;
use crate::text::push_decimal;
use vstd::prelude::*;
use vstd::std_specs::cmp::PartialEqSpecImpl;
use vstd::string::*;
use vstd::utf8::*;

verus! {

/// The byte of the dot between main type and sub type.
pub const DOT: u8 = 0x2E;

/// The pattern of the notation `#.#`.
pub const DOTTED_PATTERN: &'static str = r"^(\d+)\.(\d+)$";

/// The pattern of the notation `dpt-#`, for a text in lower case.
pub const DPT_PATTERN: &'static str = r"^(?:dpt-)(\d+)$";

/// The pattern of the notation `dpst-#-#`, for a text in lower case.
pub const DPST_PATTERN: &'static str = r"^(?:dpst-)(\d+)-(\d+)$";

/// A rejected datapoint type, with a message for the user.
#[derive(Debug)]
pub struct DataPointError {
    message: String,
}

impl View for DataPointError {
    type V = Seq<char>;

    closed spec fn view(&self) -> Seq<char> {
        self.message@
    }
}

impl DataPointError {
    pub fn new(message: &str) -> (r: Self)
        ensures
            r@ == message@,
    {
        DataPointError { message: String::from_str(message) }
    }

    pub fn message(&self) -> (r: &str)
        ensures
            r@ == self@,
    {
        self.message.as_str()
    }

    /// The message behind the words `Data Point: `.
    pub fn to_string(&self) -> (r: String)
        ensures
            r@ == "Data Point: "@ + self@,
    {
        let mut text = String::from_str("Data Point: ");
        text.append(self.message.as_str());
        text
    }
}

impl PartialEq for DataPointError {
    fn eq(&self, other: &Self) -> (r: bool) {
        self.message == other.message
    }
}

impl PartialEqSpecImpl for DataPointError {
    open spec fn obeys_eq_spec() -> bool {
        true
    }

    open spec fn eq_spec(&self, other: &Self) -> bool {
        self@ == other@
    }
}

/// The identifier of a datapoint type. A sub type of 0 stands for none.
#[derive(Debug, Copy, Clone, PartialEq, Eq, Structural)]
pub struct DataPoint {
    dpt: u16,
    dpst: u16,
}

/// What a [`DataPoint`] holds.
pub struct DataPointId {
    pub dpt: u16,
    pub dpst: u16,
}

impl View for DataPoint {
    type V = DataPointId;

    closed spec fn view(&self) -> DataPointId {
        DataPointId { dpt: self.dpt, dpst: self.dpst }
    }
}

/// The notation that a text is read in.
#[derive(Debug, Copy, Clone, PartialEq, Eq, Structural)]
pub enum DataPointNotation {
    /// `#.#`: main type and sub type around a dot.
    Dotted,
    /// `dpt-#`: the main type alone.
    Dpt,
    /// `dpst-#-#`: main type and sub type.
    Dpst,
    /// `#`: the main type alone, as a bare number.
    Number,
    /// None of the four.
    Unknown,
}

/// The ASCII lower case of a byte.
pub open spec fn lower_byte(b: u8) -> u8 {
    if 0x41 <= b <= 0x5A {
        (b + 32) as u8
    } else {
        b
    }
}

/// Whether a text starts with a prefix, the case of ASCII letters in the text
/// aside. The prefix is in lower case.
pub open spec fn starts_with_lower(bytes: Seq<u8>, prefix: Seq<u8>) -> bool {
    bytes.len() >= prefix.len() && forall|i: int|
        0 <= i < prefix.len() ==> lower_byte(#[trigger] bytes[i]) == prefix[i]
}

/// The bytes of `dpt-`.
pub open spec fn dpt_prefix() -> Seq<u8> {
    seq![0x64, 0x70, 0x74, 0x2D]
}

/// The bytes of `dpst-`.
pub open spec fn dpst_prefix() -> Seq<u8> {
    seq![0x64, 0x70, 0x73, 0x74, 0x2D]
}

/// The notation of a text, by the first of these that holds: it has a dot;
/// it starts with `dpt-`; it starts with `dpst-`; it is made of ASCII digits
/// alone, which the empty text is too.
pub open spec fn notation_of(bytes: Seq<u8>) -> DataPointNotation {
    if bytes.contains(DOT) {
        DataPointNotation::Dotted
    } else if starts_with_lower(bytes, dpt_prefix()) {
        DataPointNotation::Dpt
    } else if starts_with_lower(bytes, dpst_prefix()) {
        DataPointNotation::Dpst
    } else if all_digits(bytes) {
        DataPointNotation::Number
    } else {
        DataPointNotation::Unknown
    }
}

/// The text of a group of a match: `None` where nothing matched, where the
/// match has no such group, and where the group took no part in it.
pub open spec fn group_text(found: Option<Seq<Option<Seq<char>>>>, i: int) -> Option<Seq<char>> {
    match found {
        None => None,
        Some(groups) => if 0 <= i < groups.len() {
            groups[i]
        } else {
            None
        },
    }
}

/// The identifier that a match with two groups of digits gives. Without the
/// two groups the text is not in the format. Each group is read as an
/// unsigned number of sixteen bits, the main type first.
pub open spec fn two_numbers_outcome(
    found: Option<Seq<Option<Seq<char>>>>,
    format_message: Seq<char>,
) -> Result<DataPointId, Seq<char>> {
    if group_text(found, 1) is Some && group_text(found, 2) is Some {
        match parse_unsigned(encode_utf8(group_text(found, 1)->0), 65535) {
            None => Err("Main Data Point Type must be between 0 and 65535"@),
            Some(dpt) => match parse_unsigned(encode_utf8(group_text(found, 2)->0), 65535) {
                None => Err("Sub Data Point Type must be between 0 and 65535"@),
                Some(dpst) => Ok(DataPointId { dpt: dpt as u16, dpst: dpst as u16 }),
            },
        }
    } else {
        Err(format_message)
    }
}

/// The identifier that a match with one group of digits gives: the main
/// type, without a sub type.
pub open spec fn one_number_outcome(
    found: Option<Seq<Option<Seq<char>>>>,
    format_message: Seq<char>,
) -> Result<DataPointId, Seq<char>> {
    if group_text(found, 1) is Some {
        match parse_unsigned(encode_utf8(group_text(found, 1)->0), 65535) {
            None => Err("Data Point Type must be between 0 and 65535"@),
            Some(dpt) => Ok(DataPointId { dpt: dpt as u16, dpst: 0 }),
        }
    } else {
        Err(format_message)
    }
}

/// The identifier that a bare number gives.
pub open spec fn number_outcome(bytes: Seq<u8>) -> Result<DataPointId, Seq<char>> {
    match parse_unsigned(bytes, 65535) {
        None => Err("Data Point Type must be between 0 and 65535"@),
        Some(dpt) => Ok(DataPointId { dpt: dpt as u16, dpst: 0 }),
    }
}

/// What the groups of a match of [`DOTTED_PATTERN`] give.
pub open spec fn dotted_outcome(found: Option<Seq<Option<Seq<char>>>>) -> Result<
    DataPointId,
    Seq<char>,
> {
    two_numbers_outcome(found, "Wrong data point format. Expected: #.#"@)
}

/// What the groups of a match of [`DPT_PATTERN`] give.
pub open spec fn dpt_outcome(found: Option<Seq<Option<Seq<char>>>>) -> Result<
    DataPointId,
    Seq<char>,
> {
    one_number_outcome(found, "Wrong data point format. Expected: dpt-#"@)
}

/// What the groups of a match of [`DPST_PATTERN`] give.
pub open spec fn dpst_outcome(found: Option<Seq<Option<Seq<char>>>>) -> Result<
    DataPointId,
    Seq<char>,
> {
    two_numbers_outcome(found, "Wrong data point format. Expected: dpst-#-#"@)
}

/// What a text parses to. Its notation picks the pattern; the patterns with
/// letters are matched against the text in lower case. A bare number is read
/// without a pattern.
pub open spec fn datapoint_parsed(text: Seq<char>) -> Result<DataPointId, Seq<char>> {
    match notation_of(encode_utf8(text)) {
        DataPointNotation::Dotted => dotted_outcome(regex_captures(DOTTED_PATTERN@, text)),
        DataPointNotation::Dpt => dpt_outcome(regex_captures(DPT_PATTERN@, lower_text(text))),
        DataPointNotation::Dpst => dpst_outcome(regex_captures(DPST_PATTERN@, lower_text(text))),
        DataPointNotation::Number => number_outcome(encode_utf8(text)),
        DataPointNotation::Unknown => Err(
            "Wrong data point format. Expected: #, #.#, dpt-# or dpst-#-#"@,
        ),
    }
}

/// What a result of parsing holds.
pub open spec fn datapoint_result(r: Result<DataPoint, DataPointError>) -> Result<
    DataPointId,
    Seq<char>,
> {
    match r {
        Ok(d) => Ok(d@),
        Err(e) => Err(e@),
    }
}

/// The four bytes of an identifier: the main type, upper byte first, then
/// the sub type, upper byte first.
pub open spec fn datapoint_bytes(d: DataPointId) -> Seq<u8> {
    seq![(d.dpt / 256) as u8, (d.dpt % 256) as u8, (d.dpst / 256) as u8, (d.dpst % 256) as u8]
}

/// The notation that `to_string` gives: `dpt-#` without a sub type,
/// `dpst-#-#` with one.
pub open spec fn datapoint_text(d: DataPointId) -> Seq<char> {
    if d.dpst == 0 {
        "dpt-"@ + decimal_text(d.dpt as nat)
    } else {
        "dpst-"@ + decimal_text(d.dpt as nat) + "-"@ + decimal_text(d.dpst as nat)
    }
}

/// Whether a byte is in a slice.
fn contains_byte(bytes: &[u8], wanted: u8) -> (r: bool)
    ensures
        r == bytes@.contains(wanted),
{
    let len: usize = bytes.len();
    let mut i: usize = 0;
    while i < len
        invariant
            i <= len,
            len == bytes@.len(),
            forall|j: int| 0 <= j < i ==> bytes@[j] != wanted,
        decreases len - i,
    {
        if bytes[i] == wanted {
            return true;
        }
        i = i + 1;
    }
    false
}

/// Whether a text starts with a prefix in lower case, the case of the text
/// aside.
fn has_prefix(bytes: &[u8], prefix: &[u8]) -> (r: bool)
    ensures
        r == starts_with_lower(bytes@, prefix@),
{
    let len: usize = prefix.len();
    if bytes.len() < len {
        return false;
    }
    let mut i: usize = 0;
    while i < len
        invariant
            i <= len,
            len == prefix@.len(),
            len <= bytes@.len(),
            forall|j: int| 0 <= j < i ==> lower_byte(#[trigger] bytes@[j]) == prefix@[j],
        decreases len - i,
    {
        let b: u8 = bytes[i];
        let lower: u8 = if 0x41 <= b && b <= 0x5A {
            b + 32
        } else {
            b
        };
        if lower != prefix[i] {
            assert(lower_byte(bytes@[i as int]) != prefix@[i as int]);
            return false;
        }
        i = i + 1;
    }
    true
}

/// Whether every byte is an ASCII digit.
fn only_digits(bytes: &[u8]) -> (r: bool)
    ensures
        r == all_digits(bytes@),
{
    let len: usize = bytes.len();
    let mut i: usize = 0;
    while i < len
        invariant
            i <= len,
            len == bytes@.len(),
            forall|j: int| 0 <= j < i ==> is_digit(#[trigger] bytes@[j]),
        decreases len - i,
    {
        if bytes[i] < 0x30 || bytes[i] > 0x39 {
            assert(!is_digit(bytes@[i as int]));
            return false;
        }
        i = i + 1;
    }
    true
}

/// The text of a group of a match.
fn group<'a>(found: &'a Option<Vec<Option<String>>>, i: usize) -> (r: Option<&'a str>)
    ensures
        match r {
            Some(s) => group_text(captured_groups(*found), i as int) == Some(s@),
            None => group_text(captured_groups(*found), i as int) is None,
        },
{
    match found {
        None => None,
        Some(groups) => {
            if i < groups.len() {
                match &groups[i] {
                    Some(text) => Some(text.as_str()),
                    None => None,
                }
            } else {
                None
            }
        },
    }
}

/// The identifier that a match with two groups of digits gives.
fn two_numbers(found: &Option<Vec<Option<String>>>, format_message: &str) -> (r: Result<
    DataPoint,
    DataPointError,
>)
    ensures
        datapoint_result(r) == two_numbers_outcome(captured_groups(*found), format_message@),
{
    match (group(found, 1), group(found, 2)) {
        (Some(main), Some(sub)) => {
            let dpt: u16 = match parse_number(main.as_bytes(), 65535) {
                Some(x) => x as u16,
                None => {
                    return Err(
                        DataPointError::new("Main Data Point Type must be between 0 and 65535"),
                    );
                },
            };
            let dpst: u16 = match parse_number(sub.as_bytes(), 65535) {
                Some(x) => x as u16,
                None => {
                    return Err(
                        DataPointError::new("Sub Data Point Type must be between 0 and 65535"),
                    );
                },
            };
            Ok(DataPoint { dpt, dpst })
        },
        _ => Err(DataPointError::new(format_message)),
    }
}

/// The identifier that a match with one group of digits gives.
fn one_number(found: &Option<Vec<Option<String>>>, format_message: &str) -> (r: Result<
    DataPoint,
    DataPointError,
>)
    ensures
        datapoint_result(r) == one_number_outcome(captured_groups(*found), format_message@),
{
    match group(found, 1) {
        Some(main) => match parse_number(main.as_bytes(), 65535) {
            Some(x) => Ok(DataPoint { dpt: x as u16, dpst: 0 }),
            None => Err(DataPointError::new("Data Point Type must be between 0 and 65535")),
        },
        None => Err(DataPointError::new(format_message)),
    }
}

impl DataPoint {
    /// The identifier of a main type and a sub type; a sub type of 0 stands
    /// for none.
    pub fn new(dpt: u16, dpst: u16) -> (r: Self)
        ensures
            r@ == (DataPointId { dpt, dpst }),
    {
        DataPoint { dpt, dpst }
    }

    /// The notation that a text is read in.
    pub fn notation(value: &str) -> (r: DataPointNotation)
        ensures
            r == notation_of(value.spec_bytes()),
    {
        let bytes = value.as_bytes();
        let dpt: [u8; 4] = [0x64, 0x70, 0x74, 0x2D];
        let dpst: [u8; 5] = [0x64, 0x70, 0x73, 0x74, 0x2D];
        assert(dpt@ =~= dpt_prefix());
        assert(dpst@ =~= dpst_prefix());
        if contains_byte(bytes, DOT) {
            DataPointNotation::Dotted
        } else if has_prefix(bytes, dpt.as_slice()) {
            DataPointNotation::Dpt
        } else if has_prefix(bytes, dpst.as_slice()) {
            DataPointNotation::Dpst
        } else if only_digits(bytes) {
            DataPointNotation::Number
        } else {
            DataPointNotation::Unknown
        }
    }

    /// The identifier that the groups of a match of [`DOTTED_PATTERN`] give.
    pub fn from_dotted_groups(found: &Option<Vec<Option<String>>>) -> (r: Result<
        Self,
        DataPointError,
    >)
        ensures
            datapoint_result(r) == dotted_outcome(captured_groups(*found)),
    {
        two_numbers(found, "Wrong data point format. Expected: #.#")
    }

    /// The identifier that the groups of a match of [`DPT_PATTERN`] give.
    pub fn from_dpt_groups(found: &Option<Vec<Option<String>>>) -> (r: Result<
        Self,
        DataPointError,
    >)
        ensures
            datapoint_result(r) == dpt_outcome(captured_groups(*found)),
    {
        one_number(found, "Wrong data point format. Expected: dpt-#")
    }

    /// The identifier that the groups of a match of [`DPST_PATTERN`] give.
    pub fn from_dpst_groups(found: &Option<Vec<Option<String>>>) -> (r: Result<
        Self,
        DataPointError,
    >)
        ensures
            datapoint_result(r) == dpst_outcome(captured_groups(*found)),
    {
        two_numbers(found, "Wrong data point format. Expected: dpst-#-#")
    }

    /// The identifier that a text denotes in one of the four notations.
    pub fn try_from(value: &str) -> (r: Result<Self, DataPointError>)
        ensures
            datapoint_result(r) == datapoint_parsed(value@),
    {
        match DataPoint::notation(value) {
            DataPointNotation::Dotted => parse_with_dot(value),
            DataPointNotation::Dpt => parse_with_dpt(value),
            DataPointNotation::Dpst => parse_with_dpst(value),
            DataPointNotation::Number => parse_with_numbers(value),
            DataPointNotation::Unknown => Err(
                DataPointError::new("Wrong data point format. Expected: #, #.#, dpt-# or dpst-#-#"),
            ),
        }
    }

    /// The four bytes of the identifier.
    pub fn as_bytes(&self) -> (r: [u8; 4])
        ensures
            r@ == datapoint_bytes(self@),
    {
        let dpt: u16 = self.dpt;
        let dpst: u16 = self.dpst;
        assert(((dpt & 0xFF00) >> 8) as u8 == dpt / 256 && (dpt & 0xFF) as u8 == dpt % 256)
            by (bit_vector);
        assert(((dpst & 0xFF00) >> 8) as u8 == dpst / 256 && (dpst & 0xFF) as u8 == dpst % 256)
            by (bit_vector);
        let r = [
            ((dpt & 0xFF00) >> 8) as u8,
            (dpt & 0xFF) as u8,
            ((dpst & 0xFF00) >> 8) as u8,
            (dpst & 0xFF) as u8,
        ];
        assert(r@ =~= datapoint_bytes(self@));
        r
    }

    /// The main type.
    pub fn dpt(&self) -> (r: u16)
        ensures
            r == self@.dpt,
    {
        self.dpt
    }

    /// The sub type, 0 where there is none.
    pub fn dpst(&self) -> (r: u16)
        ensures
            r == self@.dpst,
    {
        self.dpst
    }

    /// The identifier as `dpt-#` or `dpst-#-#`.
    pub fn to_string(&self) -> (r: String)
        ensures
            r@ == datapoint_text(self@),
    {
        if self.dpst == 0 {
            let mut text = String::from_str("dpt-");
            push_decimal(&mut text, self.dpt);
            text
        } else {
            let mut text = String::from_str("dpst-");
            push_decimal(&mut text, self.dpt);
            text.append("-");
            push_decimal(&mut text, self.dpst);
            text
        }
    }
}

/// Reads a text in the notation `#.#`.
fn parse_with_dot(s: &str) -> (r: Result<DataPoint, DataPointError>)
    ensures
        datapoint_result(r) == dotted_outcome(regex_captures(DOTTED_PATTERN@, s@)),
{
    let found = captures(DOTTED_PATTERN, s);
    DataPoint::from_dotted_groups(&found)
}

/// Reads a text in the notation `dpt-#`.
fn parse_with_dpt(s: &str) -> (r: Result<DataPoint, DataPointError>)
    ensures
        datapoint_result(r) == dpt_outcome(regex_captures(DPT_PATTERN@, lower_text(s@))),
{
    let lower = s.to_ascii_lowercase();
    let found = captures(DPT_PATTERN, lower.as_str());
    DataPoint::from_dpt_groups(&found)
}

/// Reads a text in the notation `dpst-#-#`.
fn parse_with_dpst(s: &str) -> (r: Result<DataPoint, DataPointError>)
    ensures
        datapoint_result(r) == dpst_outcome(regex_captures(DPST_PATTERN@, lower_text(s@))),
{
    let lower = s.to_ascii_lowercase();
    let found = captures(DPST_PATTERN, lower.as_str());
    DataPoint::from_dpst_groups(&found)
}

/// Reads a text as a bare number.
fn parse_with_numbers(s: &str) -> (r: Result<DataPoint, DataPointError>)
    ensures
        datapoint_result(r) == number_outcome(s.spec_bytes()),
{
    match parse_number(s.as_bytes(), 65535) {
        Some(dpt) => Ok(DataPoint { dpt: dpt as u16, dpst: 0 }),
        None => Err(DataPointError::new("Data Point Type must be between 0 and 65535")),
    }
}

/// The decimal notation of a number of sixteen bits is read as the main type
/// of that number, without a sub type, whatever the patterns match.
pub proof fn lemma_datapoint_of_number(n: u16)
    ensures
        notation_of(encode_utf8(decimal_text(n as nat))) == DataPointNotation::Number,
        datapoint_parsed(decimal_text(n as nat)) == Ok::<DataPointId, Seq<char>>(
            DataPointId { dpt: n, dpst: 0 },
        ),
{
    let bytes = encode_utf8(decimal_text(n as nat));
    lemma_decimal_text_digits(n as nat);
    lemma_parse_decimal_text(n as nat, 65535);
    assert forall|i: int| 0 <= i < bytes.len() implies bytes[i] != DOT by {
        assert(is_digit(bytes[i]));
    }
    assert(is_digit(bytes[0]));
    assert(lower_byte(bytes[0]) != dpt_prefix()[0]);
    assert(lower_byte(bytes[0]) != dpst_prefix()[0]);
}

} // verus!
