//! The front door: length-prefixed frames, the one request and one answer of a
//! connection, and the turns of the accept loop.

use vstd::prelude::*;
use vstd::utf8::{
    decode_utf8, encode_utf8, encode_utf8_decode_utf8, encode_utf8_valid_utf8, valid_utf8,
};

use crate::frame::{
    body_length, body_text, declared_length, encode, frame_of, lemma_length_round_trip,
    length_prefix, FrameError, PREFIX_LEN,
};
use crate::message::{ResponseModel, WordCountResponse};
use crate::model::server_config::{failed_response, ServerConfig};

verus! {

/// What the handler of a connection waits for.
pub enum Connection {
    /// The four bytes of the length prefix.
    AwaitLength,
    /// The `len` bytes of the payload.
    AwaitBody { len: usize },
    /// The balancer's answer to the request.
    AwaitReply,
    /// Nothing: the connection has had its one answer.
    Closed,
}

/// What happened on a connection since the last action.
pub enum ConnectionEvent {
    /// The bytes that the read brought: all that were asked for, or fewer where
    /// the stream ended or failed first.
    Read(Vec<u8>),
    /// The routed request was answered with this response.
    Handled(String),
    /// Routing the request or calling the endpoint failed.
    HandleFailed,
}

/// What goes back to the client.
pub enum Answer {
    /// The response of the endpoint that served the request.
    Response(String),
    /// The response that stands for every failure.
    Failure(WordCountResponse),
}

/// What the handler of a connection has to do next.
pub enum ConnectionAction {
    /// Read exactly `len` bytes.
    Read { len: usize },
    /// Hand the request to the balancer.
    Route { request: String },
    /// Frame the answer, send it and close the connection.
    Reply { answer: Answer },
    /// Do nothing: the event does not belong to the state the connection is in.
    Ignore,
}

/// The models of the connection types: texts as sequences of characters.
pub enum AnswerModel {
    Response(Seq<char>),
    Failure(ResponseModel),
}

pub enum ConnectionActionModel {
    Read { len: usize },
    Route { request: Seq<char> },
    Reply { answer: AnswerModel },
    Ignore,
}

impl View for ConnectionAction {
    type V = ConnectionActionModel;

    open spec fn view(&self) -> ConnectionActionModel {
        match self {
            ConnectionAction::Read { len } => ConnectionActionModel::Read { len: *len },
            ConnectionAction::Route { request } => ConnectionActionModel::Route { request: request@ },
            ConnectionAction::Reply { answer } => ConnectionActionModel::Reply {
                answer: match answer {
                    Answer::Response(text) => AnswerModel::Response(text@),
                    Answer::Failure(response) => AnswerModel::Failure(response@),
                },
            },
            ConnectionAction::Ignore => ConnectionActionModel::Ignore,
        }
    }
}

pub enum ConnectionEventModel {
    Read(Seq<u8>),
    Handled(Seq<char>),
    HandleFailed,
}

impl View for ConnectionEvent {
    type V = ConnectionEventModel;

    open spec fn view(&self) -> ConnectionEventModel {
        match self {
            ConnectionEvent::Read(bytes) => ConnectionEventModel::Read(bytes@),
            ConnectionEvent::Handled(text) => ConnectionEventModel::Handled(text@),
            ConnectionEvent::HandleFailed => ConnectionEventModel::HandleFailed,
        }
    }
}

/// The answer to a failure: the failure response, and with it the connection
/// closes.
pub open spec fn fail() -> (Connection, ConnectionActionModel) {
    (
        Connection::Closed,
        ConnectionActionModel::Reply { answer: AnswerModel::Failure(failed_response()) },
    )
}

/// The protocol of a connection: one framed request is read, routed and
/// answered, and every failure on the way is answered with the canned
/// failure response. An event that the state does not wait for changes
/// nothing.
pub open spec fn connection_step(state: Connection, event: ConnectionEventModel) -> (
    Connection,
    ConnectionActionModel,
) {
    match (state, event) {
        (Connection::AwaitLength, ConnectionEventModel::Read(bytes)) => {
            if bytes.len() == PREFIX_LEN {
                let len = declared_length(bytes) as usize;
                (Connection::AwaitBody { len }, ConnectionActionModel::Read { len })
            } else {
                fail()
            }
        },
        (Connection::AwaitBody { len }, ConnectionEventModel::Read(bytes)) => {
            if bytes.len() == len && valid_utf8(bytes) {
                (Connection::AwaitReply, ConnectionActionModel::Route { request: decode_utf8(bytes) })
            } else {
                fail()
            }
        },
        (Connection::AwaitReply, ConnectionEventModel::Handled(text)) => (
            Connection::Closed,
            ConnectionActionModel::Reply { answer: AnswerModel::Response(text) },
        ),
        (Connection::AwaitLength, ConnectionEventModel::HandleFailed) => fail(),
        (Connection::AwaitBody { .. }, ConnectionEventModel::HandleFailed) => fail(),
        (Connection::AwaitReply, ConnectionEventModel::HandleFailed) => fail(),
        (state, _) => (state, ConnectionActionModel::Ignore),
    }
}

/// A connection gets one answer and no more: an answer closes it, a closed
/// connection takes no notice of what comes after, and a failure on a
/// connection that is still open is answered with the failure response.
pub proof fn lemma_connection_is_answered_once(state: Connection, event: ConnectionEventModel)
    ensures
        connection_step(state, event).1 is Reply ==> connection_step(state, event).0 is Closed,
        state is Closed ==> connection_step(state, event) == (
            Connection::Closed,
            ConnectionActionModel::Ignore,
        ),
        !(state is Closed) && event is HandleFailed ==> connection_step(state, event) == fail(),
{
}

/// A connection that is fed the frame of a payload, prefix first, asks for as
/// many bytes as the payload has and then hands the payload on to be routed.
pub proof fn lemma_connection_reads_a_frame(payload: Seq<char>)
    requires
        encode_utf8(payload).len() <= u32::MAX,
    ensures
        connection_step(
            Connection::AwaitLength,
            ConnectionEventModel::Read(length_prefix(encode_utf8(payload).len())),
        ) == (
            Connection::AwaitBody { len: encode_utf8(payload).len() as usize },
            ConnectionActionModel::Read { len: encode_utf8(payload).len() as usize },
        ),
        connection_step(
            Connection::AwaitBody { len: encode_utf8(payload).len() as usize },
            ConnectionEventModel::Read(encode_utf8(payload)),
        ) == (Connection::AwaitReply, ConnectionActionModel::Route { request: payload }),
{
    lemma_length_round_trip(encode_utf8(payload).len());
    encode_utf8_valid_utf8(payload);
    encode_utf8_decode_utf8(payload);
}

/// A length prefix that came in short is answered with the failure response.
pub proof fn lemma_short_prefix_fails(bytes: Seq<u8>)
    requires
        bytes.len() < PREFIX_LEN,
    ensures
        connection_step(Connection::AwaitLength, ConnectionEventModel::Read(bytes)) == fail(),
{
}

/// What the accept loop does after a connection was taken in.
#[derive(Clone, Copy, Debug, PartialEq, Eq, Structural)]
pub enum ServerStep {
    /// Go on accepting.
    Accept,
    /// Leave the loop; stop the health maintenance first if `stop_health` says so.
    Shutdown { stop_health: bool },
}

/// The front-door server as far as it decides: its settings.
pub struct LBServer {
    config: ServerConfig,
}

impl LBServer {
    /// The settings the server was built with.
    pub closed spec fn config(&self) -> ServerConfig {
        self.config
    }

    pub fn build(config: ServerConfig) -> (server: Self)
        ensures
            server.config() == config,
    {
        LBServer { config }
    }

    /// Whether the health maintenance is to be started along with the server:
    /// it is where fault tolerance is switched on.
    pub fn start(&self) -> (maintain_health: bool)
        ensures
            maintain_health == (self.config().enable_fault_tolerance == Some(true)),
    {
        self.config.fault_tolerance()
    }

    /// The turn of the accept loop after a connection was taken in: the loop goes
    /// on while `running` holds, and shuts down once it does not.
    pub fn next_step(&self, running: bool) -> (step: ServerStep)
        ensures
            step == if running {
                ServerStep::Accept
            } else {
                ServerStep::Shutdown {
                    stop_health: self.config().enable_fault_tolerance == Some(true),
                }
            },
    {
        if running {
            ServerStep::Accept
        } else {
            ServerStep::Shutdown { stop_health: self.close() }
        }
    }

    /// Whether closing the server has to stop the health maintenance.
    pub fn close(&self) -> (stop_health: bool)
        ensures
            stop_health == (self.config().enable_fault_tolerance == Some(true)),
    {
        self.config.fault_tolerance()
    }

    /// The request that the payload of a frame holds, `len` being the length
    /// that the prefix declared.
    pub fn read_request(len: usize, body: Vec<u8>) -> (request: Result<String, FrameError>)
        ensures
            match request {
                Ok(text) => body@.len() == len && valid_utf8(body@) && text@ == decode_utf8(body@),
                Err(e) => e == if body@.len() != len {
                    FrameError::TruncatedBody
                } else {
                    FrameError::InvalidUtf8
                } && !(body@.len() == len && valid_utf8(body@)),
            },
    {
        body_text(len, body)
    }

    /// The frame that carries `resp` to the client.
    pub fn send_response(resp: &str) -> (frame: Result<Vec<u8>, FrameError>)
        ensures
            match frame {
                Ok(bytes) => encode_utf8(resp@).len() <= u32::MAX && bytes@ == frame_of(resp@),
                Err(e) => e == FrameError::PayloadTooLarge && encode_utf8(resp@).len() > u32::MAX,
            },
    {
        encode(resp)
    }

    fn failure() -> (next: (Connection, ConnectionAction))
        ensures
            (next.0, next.1@) == fail(),
    {
        (
            Connection::Closed,
            ConnectionAction::Reply { answer: Answer::Failure(WordCountResponse::failed_resp()) },
        )
    }

    /// Takes the handler of a connection one step on: from the state it is in
    /// and what happened to the state it is in next and what it has to do.
    pub fn handle_connection(state: Connection, event: ConnectionEvent) -> (next: (
        Connection,
        ConnectionAction,
    ))
        ensures
            (next.0, next.1@) == connection_step(state, event@),
    {
        match (state, event) {
            (Connection::AwaitLength, ConnectionEvent::Read(bytes)) => {
                match body_length(bytes.as_slice()) {
                    Ok(len) => (Connection::AwaitBody { len }, ConnectionAction::Read { len }),
                    Err(_) => Self::failure(),
                }
            },
            (Connection::AwaitBody { len }, ConnectionEvent::Read(bytes)) => {
                match Self::read_request(len, bytes) {
                    Ok(request) => (Connection::AwaitReply, ConnectionAction::Route { request }),
                    Err(_) => Self::failure(),
                }
            },
            (Connection::AwaitReply, ConnectionEvent::Handled(text)) => (
                Connection::Closed,
                ConnectionAction::Reply { answer: Answer::Response(text) },
            ),
            (Connection::AwaitLength, ConnectionEvent::HandleFailed) => Self::failure(),
            (Connection::AwaitBody { .. }, ConnectionEvent::HandleFailed) => Self::failure(),
            (Connection::AwaitReply, ConnectionEvent::HandleFailed) => Self::failure(),
            (state, _) => (state, ConnectionAction::Ignore),
        }
    }
}

} // verus!
