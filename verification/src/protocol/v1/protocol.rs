//! Frames of requests: the values of a write request as bytes, and the
//! header before a body.

use crate::protocol::action::Action;
use crate::protocol::action::action_code;
use crate::protocol::header::Header;
use crate::protocol::v1::read_request_body::ReadRequestBody;
use crate::protocol::v1::read_request_body::read_request;
use crate::protocol::v1::read_request_body::read_request_body;
use crate::protocol::v1::write_request_body::WriteRequestBody;
use crate::protocol::v1::write_request_body::write_request;
use vstd::prelude::*;
use vstd::std_specs::cmp::PartialEqSpecImpl;
use vstd::string::*;

verus! {

/// The byte of the double quote around a value.
pub const QUOTE: u8 = 0x22;

/// The byte of the space between two values.
pub const SPACE: u8 = 0x20;

/// The version of the protocol that this module speaks.
pub const VERSION: u8 = 1;

/// The longest body that a frame can hold: its length goes in one byte.
pub const MAX_BODY_LENGTH: usize = 255;

/// Which part of a request was refused.
#[derive(Debug, Copy, Clone, PartialEq, Eq, Structural)]
pub enum ProtocolErrorKind {
    /// The group address is none.
    GroupAddress,
    /// The datapoint type is none.
    DataPoint,
    /// The body is longer than a frame can hold.
    BodyTooLong,
}

/// A request that cannot be built.
#[derive(Debug)]
pub struct ProtocolError {
    kind: ProtocolErrorKind,
    message: String,
}

/// What a [`ProtocolError`] holds.
pub struct ProtocolFault {
    pub kind: ProtocolErrorKind,
    pub message: Seq<char>,
}

impl View for ProtocolError {
    type V = ProtocolFault;

    closed spec fn view(&self) -> ProtocolFault {
        ProtocolFault { kind: self.kind, message: self.message@ }
    }
}

impl ProtocolError {
    pub fn new(kind: ProtocolErrorKind, message: &str) -> (r: Self)
        ensures
            r@ == (ProtocolFault { kind, message: message@ }),
    {
        ProtocolError { kind, message: String::from_str(message) }
    }

    /// An error whose message is made of fixed words and a text.
    pub(crate) fn with_text(kind: ProtocolErrorKind, words: &str, text: &str) -> (r: Self)
        ensures
            r@ == (ProtocolFault { kind, message: words@ + text@ }),
    {
        let mut message = String::from_str(words);
        message.append(text);
        ProtocolError { kind, message }
    }

    pub fn kind(&self) -> (r: ProtocolErrorKind)
        ensures
            r == self@.kind,
    {
        self.kind
    }

    pub fn message(&self) -> (r: &str)
        ensures
            r@ == self@.message,
    {
        self.message.as_str()
    }
}

impl PartialEq for ProtocolError {
    fn eq(&self, other: &Self) -> (r: bool) {
        self.kind == other.kind && self.message == other.message
    }
}

impl PartialEqSpecImpl for ProtocolError {
    open spec fn obeys_eq_spec() -> bool {
        true
    }

    open spec fn eq_spec(&self, other: &Self) -> bool {
        self@ == other@
    }
}

/// A value between double quotes.
pub open spec fn quoted(value: Seq<u8>) -> Seq<u8> {
    seq![QUOTE] + value + seq![QUOTE]
}

/// The bytes of a list of values: each between double quotes, one space
/// between two of them, nothing before the first or behind the last. Quotes
/// and spaces inside a value stay as they are.
pub open spec fn values_bytes(values: Seq<Seq<u8>>) -> Seq<u8>
    decreases values.len(),
{
    if values.len() == 0 {
        Seq::empty()
    } else if values.len() == 1 {
        quoted(values[0])
    } else {
        values_bytes(values.drop_last()) + seq![SPACE] + quoted(values.last())
    }
}

/// The UTF-8 bytes of each text of a list.
pub open spec fn texts_bytes(texts: Seq<&str>) -> Seq<Seq<u8>> {
    Seq::new(texts.len(), |i: int| texts[i].spec_bytes())
}

/// The length of the bytes of a list of values: the lengths of the values,
/// two quotes for each, and a space for each but the first.
pub open spec fn values_length(values: Seq<Seq<u8>>) -> nat
    decreases values.len(),
{
    if values.len() == 0 {
        0
    } else if values.len() == 1 {
        values[0].len() + 2
    } else {
        values_length(values.drop_last()) + values.last().len() + 3
    }
}

/// The bytes of a list of values have the length that the values, their
/// quotes and the spaces between them take.
pub proof fn lemma_values_bytes_length(values: Seq<Seq<u8>>)
    ensures
        values_bytes(values).len() == values_length(values),
    decreases values.len(),
{
    if values.len() > 1 {
        lemma_values_bytes_length(values.drop_last());
    }
}

/// The bytes of two lists joined are the bytes of each with one space
/// between them, where neither list is empty.
pub proof fn lemma_values_bytes_concat(a: Seq<Seq<u8>>, b: Seq<Seq<u8>>)
    requires
        a.len() > 0,
        b.len() > 0,
    ensures
        values_bytes(a + b) == values_bytes(a) + seq![SPACE] + values_bytes(b),
    decreases b.len(),
{
    let whole = a + b;
    assert(whole.drop_last() =~= a + b.drop_last());
    assert(whole.last() == b.last());
    if b.len() == 1 {
        assert(a + b.drop_last() =~= a);
    } else {
        lemma_values_bytes_concat(a, b.drop_last());
        assert(values_bytes(whole) =~= values_bytes(a) + seq![SPACE] + values_bytes(b));
    }
}

/// The frame of a body: the version, the code of the action and the length
/// of the body, then the body.
pub open spec fn frame(action: Action, body: Seq<u8>) -> Seq<u8> {
    seq![VERSION, action_code(action), body.len() as u8] + body
}

/// What a body gives: its frame, unless it is longer than a frame can hold.
pub open spec fn framed(action: Action, body: Seq<u8>) -> Result<Seq<u8>, ProtocolFault> {
    if body.len() > MAX_BODY_LENGTH {
        Err(
            ProtocolFault {
                kind: ProtocolErrorKind::BodyTooLong,
                message: "Body is longer than 255 bytes"@,
            },
        )
    } else {
        Ok(frame(action, body))
    }
}

/// The frame of a request. A write request is built as
/// [`WriteRequestBody`] builds it. Every other request has the body of a read
/// request, whatever the values are, under the header of its action.
pub open spec fn request(
    action: Action,
    group_address: Seq<char>,
    datapoint: Seq<char>,
    values: Seq<Seq<u8>>,
) -> Result<Seq<u8>, ProtocolFault> {
    if action == Action::WriteRequest {
        write_request(group_address, datapoint, values)
    } else {
        match read_request_body(group_address, datapoint) {
            Err(e) => Err(e),
            Ok(body) => framed(action, body),
        }
    }
}

/// What a result of building holds.
pub open spec fn protocol_result(r: Result<Vec<u8>, ProtocolError>) -> Result<
    Seq<u8>,
    ProtocolFault,
> {
    match r {
        Ok(bytes) => Ok(bytes@),
        Err(e) => Err(e@),
    }
}

/// Appends bytes to a buffer.
pub(crate) fn push_all(out: &mut Vec<u8>, bytes: &[u8])
    ensures
        final(out)@ == old(out)@ + bytes@,
{
    let len: usize = bytes.len();
    let mut i: usize = 0;
    while i < len
        invariant
            i <= len,
            len == bytes@.len(),
            out@ == old(out)@ + bytes@.take(i as int),
        decreases len - i,
    {
        out.push(bytes[i]);
        assert(bytes@.take(i + 1) =~= bytes@.take(i as int).push(bytes@[i as int]));
        i = i + 1;
    }
    assert(bytes@.take(len as int) =~= bytes@);
}

/// The requests of version 1.
pub struct Protocol;

impl Protocol {
    /// The bytes of the values of a write request.
    pub fn convert_values_to_utf8_bytes(values: Vec<&str>) -> (r: Vec<u8>)
        ensures
            r@ == values_bytes(texts_bytes(values@)),
    {
        let mut ve: Vec<u8> = Vec::new();
        let count: usize = values.len();
        let ghost texts = texts_bytes(values@);
        let mut i: usize = 0;
        while i < count
            invariant
                i <= count,
                count == values@.len(),
                texts == texts_bytes(values@),
                ve@ == values_bytes(texts.take(i as int)),
            decreases count - i,
        {
            let ghost before = ve@;
            if i > 0 {
                ve.push(SPACE);
            }
            ve.push(QUOTE);
            push_all(&mut ve, values[i].as_bytes());
            ve.push(QUOTE);
            proof {
                let now = texts.take(i + 1);
                assert(now.drop_last() =~= texts.take(i as int));
                assert(now.last() == values@[i as int].spec_bytes());
                if i == 0 {
                    assert(ve@ =~= quoted(now[0]));
                } else {
                    assert(ve@ =~= before + seq![SPACE] + quoted(now.last()));
                }
            }
            i = i + 1;
        }
        assert(texts.take(count as int) =~= texts);
        ve
    }

    /// The frame of a body: the header of version 1 with the action and the
    /// length, then the body. A body of more than 255 bytes has no frame.
    pub fn frame(action: Action, body: &[u8]) -> (r: Result<Vec<u8>, ProtocolError>)
        ensures
            protocol_result(r) == framed(action, body@),
    {
        if body.len() > MAX_BODY_LENGTH {
            return Err(
                ProtocolError::new(ProtocolErrorKind::BodyTooLong, "Body is longer than 255 bytes"),
            );
        }
        let header = Header::new(VERSION, action, body.len() as u8).as_bytes();
        let mut ve: Vec<u8> = Vec::new();
        push_all(&mut ve, header.as_slice());
        push_all(&mut ve, body);
        assert(ve@ =~= frame(action, body@));
        Ok(ve)
    }

    /// The frame of a request for a group address and a datapoint type that
    /// are given as texts. The values go into a write request and are left
    /// out of every other.
    pub fn as_bytes(action: Action, group_address: &str, datapoint: &str, values: Vec<&str>) -> (r:
        Result<Vec<u8>, ProtocolError>)
        ensures
            protocol_result(r) == request(
                action,
                group_address@,
                datapoint@,
                texts_bytes(values@),
            ),
    {
        match action {
            Action::WriteRequest => WriteRequestBody::as_bytes(group_address, datapoint, values),
            Action::ReadRequest => ReadRequestBody::as_bytes(group_address, datapoint),
            _ => match ReadRequestBody::body(group_address, datapoint) {
                Ok(body) => Protocol::frame(action, body.as_slice()),
                Err(e) => Err(e),
            },
        }
    }
}

/// A read request is built as [`ReadRequestBody`] builds it, whatever the
/// values are, and a write request as [`WriteRequestBody`] builds it.
pub proof fn lemma_request_by_action(
    group_address: Seq<char>,
    datapoint: Seq<char>,
    values: Seq<Seq<u8>>,
)
    ensures
        request(Action::ReadRequest, group_address, datapoint, values) == read_request(
            group_address,
            datapoint,
        ),
        request(Action::WriteRequest, group_address, datapoint, values) == write_request(
            group_address,
            datapoint,
            values,
        ),
{
}

} // verus!
