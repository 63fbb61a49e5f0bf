//! The course of one request: connect, send the frame, then receive frames
//! until one is the last packet or something fails.
//!
//! Nothing here touches a socket. [`Client::step`] takes the state of the
//! course and what the connection just did, and says what the state is now,
//! what to tell the user and what to do next. The caller owns the connection,
//! does that and comes back with the outcome.

use crate::protocol::action::Action;
use crate::protocol::action::action_code;
use crate::protocol::header::Header;
use crate::protocol::header::header_parsed;
use crate::protocol::status::Status;
use crate::protocol::status::status_code;
use crate::protocol::v1::protocol::VERSION;
use crate::protocol::v1::response_body::ResponseBody;
use crate::protocol::v1::response_body::response_parsed;
use vstd::prelude::*;
use vstd::slice::slice_subrange;
use vstd::string::*;
use vstd::utf8::*;

verus! {

/// Where the course of a request stands.
#[derive(Debug, Copy, Clone, PartialEq, Eq, Structural)]
pub enum ClientState {
    /// The connection is being opened.
    Connecting,
    /// The frame of the request is being written.
    Sending,
    /// A frame of the response is awaited.
    ReceivingFrame,
    /// The course is over, and the process ends with this code.
    Done { exit_code: i32 },
}

/// What the connection did.
#[derive(Debug, Copy, Clone, PartialEq, Eq, Structural)]
pub enum ClientEvent {
    /// The connection is open.
    Connected,
    /// The server refused the connection.
    ConnectionRefused,
    /// The connection failed otherwise.
    ConnectionFailed,
    /// The frame of the request was written.
    Sent,
    /// The frame of the request could not be written.
    SendFailed,
    /// Bytes were read. They come with the event.
    Received,
    /// Nothing could be read, or the time ran out.
    ReceiveFailed,
}

/// What the caller does next.
#[derive(Debug, Copy, Clone, PartialEq, Eq, Structural)]
pub enum ClientAction {
    /// Open the connection.
    Connect,
    /// Write the frame of the request, whole.
    Send,
    /// Read up to 255 bytes.
    Receive,
    /// End the process with this code.
    Exit { code: i32 },
}

/// What to tell the user.
#[derive(Debug, Copy, Clone, PartialEq, Eq, Structural)]
pub enum Report {
    /// Nothing.
    Nothing,
    /// The server reports success, with the message of the transition.
    Success,
    /// The server reports this failure, with the message of the transition.
    Failed(Status),
    /// The server reports this failure, with data that is no text.
    FailedWithoutText(Status),
    /// The header has a version that is not supported.
    UnsupportedVersion(u8),
    /// The bytes start with no header.
    HeaderUnreadable,
    /// The bytes behind the header are no body of a response.
    ResponseUnreadable,
    /// The server reports success, with data that is no text.
    SuccessWithoutText,
    /// Nothing was received.
    NotReceived,
    /// The request was not sent.
    NotSent,
    /// The server refused the connection.
    ConnectionRefused,
    /// The connection failed otherwise.
    ConnectionFailed,
}

/// One step of the course.
#[derive(Debug)]
pub struct Transition {
    /// The state after the step.
    pub state: ClientState,
    /// What the caller does next: what the state asks for.
    pub action: ClientAction,
    /// What to tell the user before that.
    pub report: Report,
    /// The message of the server, where the report has one.
    pub message: String,
}

/// What a [`Transition`] holds.
pub struct Step {
    pub state: ClientState,
    pub action: ClientAction,
    pub report: Report,
    pub message: Seq<char>,
}

impl View for Transition {
    type V = Step;

    open spec fn view(&self) -> Step {
        Step {
            state: self.state,
            action: self.action,
            report: self.report,
            message: self.message@,
        }
    }
}

/// The code that the process ends with after a report.
pub open spec fn exit_code_of(report: Report) -> i32 {
    match report {
        Report::Nothing => 0,
        Report::Success => 0,
        Report::NotSent => 30,
        Report::UnsupportedVersion(_) => 40,
        Report::HeaderUnreadable => 41,
        Report::Failed(_) => 42,
        Report::FailedWithoutText(_) => 43,
        Report::ResponseUnreadable => 44,
        Report::SuccessWithoutText => 45,
        Report::NotReceived => 46,
        Report::ConnectionRefused => 50,
        Report::ConnectionFailed => 51,
    }
}

/// The code that the process ends with where the request could not be built:
/// 20 for a write request, 10 for every other.
pub open spec fn refused_exit_code_of(action: Action) -> i32 {
    if action == Action::WriteRequest {
        20
    } else {
        10
    }
}

/// What a state asks the caller to do.
pub open spec fn action_of(state: ClientState) -> ClientAction {
    match state {
        ClientState::Connecting => ClientAction::Connect,
        ClientState::Sending => ClientAction::Send,
        ClientState::ReceivingFrame => ClientAction::Receive,
        ClientState::Done { exit_code } => ClientAction::Exit { code: exit_code },
    }
}

/// The step into a state, with nothing to tell.
pub open spec fn moving_to(state: ClientState) -> Step {
    Step { state, action: action_of(state), report: Report::Nothing, message: Seq::empty() }
}

/// The step that ends the course with a report and its exit code.
pub open spec fn ending_with(report: Report, message: Seq<char>) -> Step {
    Step {
        state: ClientState::Done { exit_code: exit_code_of(report) },
        action: ClientAction::Exit { code: exit_code_of(report) },
        report,
        message,
    }
}

/// The step after bytes were received.
///
/// The bytes start with a header of the supported version, and the body that
/// the header announces follows whole; else the course ends. The body is one
/// of a response; else the course ends. A status other than success ends the
/// course, with the message of the server, or with `<no message>` where it
/// sent none. A success is reported where it has a message, and the course
/// ends if this was the last packet; if it was not, the next frame is
/// received.
pub open spec fn after_receipt(data: Seq<u8>) -> Step {
    match header_parsed(data) {
        Err(_) => ending_with(Report::HeaderUnreadable, Seq::empty()),
        Ok(header) => if header.version != VERSION {
            ending_with(Report::UnsupportedVersion(header.version), Seq::empty())
        } else if data.len() < 3 + header.length {
            ending_with(Report::ResponseUnreadable, Seq::empty())
        } else {
            match response_parsed(data.subrange(3, 3 + header.length)) {
                Err(_) => ending_with(Report::ResponseUnreadable, Seq::empty()),
                Ok(body) => if body.status != Status::Success {
                    if !valid_utf8(body.data) {
                        ending_with(Report::FailedWithoutText(body.status), Seq::empty())
                    } else if decode_utf8(body.data).len() == 0 {
                        ending_with(Report::Failed(body.status), "<no message>"@)
                    } else {
                        ending_with(Report::Failed(body.status), decode_utf8(body.data))
                    }
                } else if !valid_utf8(body.data) {
                    ending_with(Report::SuccessWithoutText, Seq::empty())
                } else {
                    let report = if decode_utf8(body.data).len() == 0 {
                        Report::Nothing
                    } else {
                        Report::Success
                    };
                    if body.last_packet {
                        ending_with(report, decode_utf8(body.data))
                    } else {
                        Step {
                            state: ClientState::ReceivingFrame,
                            action: ClientAction::Receive,
                            report,
                            message: decode_utf8(body.data),
                        }
                    }
                },
            }
        },
    }
}

/// The step from a state on an event. An event that does not answer what the
/// state asked for changes nothing: the state stays and asks again. The
/// bytes count with the event `Received` alone.
pub open spec fn step_of(state: ClientState, event: ClientEvent, data: Seq<u8>) -> Step {
    match state {
        ClientState::Connecting => match event {
            ClientEvent::Connected => moving_to(ClientState::Sending),
            ClientEvent::ConnectionRefused => ending_with(Report::ConnectionRefused, Seq::empty()),
            ClientEvent::ConnectionFailed => ending_with(Report::ConnectionFailed, Seq::empty()),
            _ => moving_to(state),
        },
        ClientState::Sending => match event {
            ClientEvent::Sent => moving_to(ClientState::ReceivingFrame),
            ClientEvent::SendFailed => ending_with(Report::NotSent, Seq::empty()),
            _ => moving_to(state),
        },
        ClientState::ReceivingFrame => match event {
            ClientEvent::Received => after_receipt(data),
            ClientEvent::ReceiveFailed => ending_with(Report::NotReceived, Seq::empty()),
            _ => moving_to(state),
        },
        ClientState::Done { exit_code } => moving_to(state),
    }
}

/// The client of a KNX link server.
pub struct Client;

impl Client {
    /// The code that the process ends with after a report.
    pub fn exit_code(report: Report) -> (r: i32)
        ensures
            r == exit_code_of(report),
    {
        match report {
            Report::Nothing => 0,
            Report::Success => 0,
            Report::NotSent => 30,
            Report::UnsupportedVersion(_) => 40,
            Report::HeaderUnreadable => 41,
            Report::Failed(_) => 42,
            Report::FailedWithoutText(_) => 43,
            Report::ResponseUnreadable => 44,
            Report::SuccessWithoutText => 45,
            Report::NotReceived => 46,
            Report::ConnectionRefused => 50,
            Report::ConnectionFailed => 51,
        }
    }

    /// The code that the process ends with where the request could not be
    /// built, and so nothing was sent.
    pub fn refused_exit_code(action: Action) -> (r: i32)
        ensures
            r == refused_exit_code_of(action),
    {
        match action {
            Action::WriteRequest => 20,
            _ => 10,
        }
    }

    /// What a state asks the caller to do.
    pub fn action(state: ClientState) -> (r: ClientAction)
        ensures
            r == action_of(state),
    {
        match state {
            ClientState::Connecting => ClientAction::Connect,
            ClientState::Sending => ClientAction::Send,
            ClientState::ReceivingFrame => ClientAction::Receive,
            ClientState::Done { exit_code } => ClientAction::Exit { code: exit_code },
        }
    }

    /// The first step: into the state `Connecting`.
    pub fn start() -> (r: Transition)
        ensures
            r@ == moving_to(ClientState::Connecting),
    {
        Client::proceed(ClientState::Connecting)
    }

    fn proceed(state: ClientState) -> (r: Transition)
        ensures
            r@ == moving_to(state),
    {
        Transition {
            state,
            action: Client::action(state),
            report: Report::Nothing,
            message: String::new(),
        }
    }

    fn conclude(report: Report, message: String) -> (r: Transition)
        ensures
            r@ == ending_with(report, message@),
    {
        let code = Client::exit_code(report);
        Transition {
            state: ClientState::Done { exit_code: code },
            action: ClientAction::Exit { code },
            report,
            message,
        }
    }

    /// The step after bytes were received: `data` holds the bytes that were
    /// read, and no others.
    pub fn received(data: &[u8]) -> (r: Transition)
        ensures
            r@ == after_receipt(data@),
    {
        let header = match Header::from_slice(data) {
            Ok(h) => h,
            Err(_) => {
                return Client::conclude(Report::HeaderUnreadable, String::new());
            },
        };
        if header.version() != VERSION {
            return Client::conclude(Report::UnsupportedVersion(header.version()), String::new());
        }
        let end: usize = 3 + header.length() as usize;
        if data.len() < end {
            return Client::conclude(Report::ResponseUnreadable, String::new());
        }
        let body_data = slice_subrange(data, 3, end);
        let body = match ResponseBody::try_from(body_data) {
            Ok(b) => b,
            Err(_) => {
                return Client::conclude(Report::ResponseUnreadable, String::new());
            },
        };
        let status = body.status();
        let last_packet = body.last_packet();
        if status != Status::Success {
            return match body.message() {
                Ok(m) => {
                    let message = if m.is_empty() {
                        "<no message>"
                    } else {
                        m
                    };
                    Client::conclude(Report::Failed(status), String::from_str(message))
                },
                Err(_) => Client::conclude(Report::FailedWithoutText(status), String::new()),
            };
        }
        match body.message() {
            Ok(m) => {
                let report = if m.is_empty() {
                    Report::Nothing
                } else {
                    Report::Success
                };
                if last_packet {
                    Client::conclude(report, String::from_str(m))
                } else {
                    Transition {
                        state: ClientState::ReceivingFrame,
                        action: ClientAction::Receive,
                        report,
                        message: String::from_str(m),
                    }
                }
            },
            Err(_) => Client::conclude(Report::SuccessWithoutText, String::new()),
        }
    }

    /// The step from a state on an event. With the event `Received`, `data`
    /// holds the bytes that were read; with every other it is not looked at.
    pub fn step(state: ClientState, event: ClientEvent, data: &[u8]) -> (r: Transition)
        ensures
            r@ == step_of(state, event, data@),
    {
        match state {
            ClientState::Connecting => match event {
                ClientEvent::Connected => Client::proceed(ClientState::Sending),
                ClientEvent::ConnectionRefused => Client::conclude(
                    Report::ConnectionRefused,
                    String::new(),
                ),
                ClientEvent::ConnectionFailed => Client::conclude(
                    Report::ConnectionFailed,
                    String::new(),
                ),
                _ => Client::proceed(state),
            },
            ClientState::Sending => match event {
                ClientEvent::Sent => Client::proceed(ClientState::ReceivingFrame),
                ClientEvent::SendFailed => Client::conclude(Report::NotSent, String::new()),
                _ => Client::proceed(state),
            },
            ClientState::ReceivingFrame => match event {
                ClientEvent::Received => Client::received(data),
                ClientEvent::ReceiveFailed => Client::conclude(Report::NotReceived, String::new()),
                _ => Client::proceed(state),
            },
            ClientState::Done { exit_code } => Client::proceed(state),
        }
    }
}

/// The bytes of a response in one frame: the header of version 1 with the
/// length of the body, the byte of flags, the code of the status and the
/// message.
pub open spec fn response_frame(
    action: Action,
    flags: u8,
    status: Status,
    message: Seq<char>,
) -> Seq<u8> {
    let text = encode_utf8(message);
    seq![VERSION, action_code(action), (text.len() + 2) as u8, flags, status_code(status)] + text
}

/// After a frame that reports success the next frame is received if and only
/// if the frame was not the last packet; after the last packet the course
/// ends with the exit code 0. The message is reported where there is one.
pub proof fn lemma_success_continues_until_last_packet(
    action: Action,
    flags: u8,
    message: Seq<char>,
)
    requires
        encode_utf8(message).len() + 2 <= 255,
    ensures
        ({
            let step = step_of(
                ClientState::ReceivingFrame,
                ClientEvent::Received,
                response_frame(action, flags, Status::Success, message),
            );
            &&& step.message == message
            &&& step.report == (if message.len() == 0 {
                Report::Nothing
            } else {
                Report::Success
            })
            &&& flags < 0x80 ==> step.state == ClientState::ReceivingFrame && step.action
                == ClientAction::Receive
            &&& flags >= 0x80 ==> step.state == (ClientState::Done { exit_code: 0 }) && step.action
                == (ClientAction::Exit { code: 0 })
        }),
{
    let data = response_frame(action, flags, Status::Success, message);
    let bytes = encode_utf8(message);
    let body = data.subrange(3, 3 + bytes.len() as int + 2);
    assert(body.subrange(2, body.len() as int) =~= bytes);
    encode_utf8_valid_utf8(message);
    encode_utf8_decode_utf8(message);
}

/// A frame that reports a failure ends the course with the exit code 42 and
/// the message of the server, whether or not it is the last packet.
pub proof fn lemma_failure_ends_the_course(
    action: Action,
    flags: u8,
    status: Status,
    message: Seq<char>,
)
    requires
        status != Status::Success,
        message.len() > 0,
        encode_utf8(message).len() + 2 <= 255,
    ensures
        step_of(
            ClientState::ReceivingFrame,
            ClientEvent::Received,
            response_frame(action, flags, status, message),
        ) == (Step {
            state: ClientState::Done { exit_code: 42 },
            action: ClientAction::Exit { code: 42 },
            report: Report::Failed(status),
            message,
        }),
{
    let data = response_frame(action, flags, status, message);
    let bytes = encode_utf8(message);
    let body = data.subrange(3, 3 + bytes.len() as int + 2);
    assert(body.subrange(2, body.len() as int) =~= bytes);
    encode_utf8_valid_utf8(message);
    encode_utf8_decode_utf8(message);
}

/// Every step asks for what its state asks for, and a course that is over
/// stays over.
pub proof fn lemma_step_action(state: ClientState, event: ClientEvent, data: Seq<u8>)
    ensures
        step_of(state, event, data).action == action_of(step_of(state, event, data).state),
        state is Done ==> step_of(state, event, data).state == state,
{
}

} // verus!
