//! The handshake protocol of the example application's WebSocket: what the
//! server answers to a request and when it closes the connection, and how
//! the client keeps track of whether it is connected.

use crate::text::same_text;
use vstd::prelude::*;

verus! {

/// The text of the error with which the stream of responses reports that
/// the connection was closed in the ordinary way.
pub const NORMAL_CLOSURE: &'static str =
    "error reaching server to call server function: WebSocket Closed: code: 1005, reason:";

/// What a client asks of the server. A client is known by a 128-bit
/// identifier.
#[derive(Debug, Clone, Copy, PartialEq, Eq, Structural)]
pub enum Request {
    /// The client opens the conversation.
    Handshake { uuid: u128 },
    /// The client ends the conversation.
    Disconnect { uuid: u128 },
}

/// What the server answers.
#[derive(Debug, Clone, Copy, PartialEq, Eq, Structural)]
pub enum Response {
    /// The handshake is accepted.
    HandshakeResponse,
}

/// What the server's stream of requests yields.
#[derive(Debug, Clone, Copy, PartialEq, Eq, Structural)]
pub enum Input {
    /// A request arrived.
    Received(Request),
    /// A message could not be received or read.
    Failed,
    /// The stream has ended.
    Closed,
}

/// What the server does about an input.
#[derive(Debug, Clone, Copy, PartialEq, Eq, Structural)]
pub struct Reply {
    /// The response to send, if any.
    pub response: Option<Response>,
    /// Whether the server goes on serving the connection.
    pub keep_open: bool,
}

/// The server's answer to a request: a handshake is accepted and the
/// connection kept, a disconnect closes it without an answer.
pub open spec fn reply_to(request: Request) -> Reply {
    match request {
        Request::Handshake { .. } => Reply {
            response: Some(Response::HandshakeResponse),
            keep_open: true,
        },
        Request::Disconnect { .. } => Reply { response: None, keep_open: false },
    }
}

/// The server's reaction to an input: requests are answered, a failure or
/// the end of the stream closes the connection.
pub open spec fn reaction_to(input: Input) -> Reply {
    match input {
        Input::Received(request) => reply_to(request),
        Input::Failed => Reply { response: None, keep_open: false },
        Input::Closed => Reply { response: None, keep_open: false },
    }
}

/// Answers a request.
pub fn handle_request(request: Request) -> (reply: Reply)
    ensures
        reply == reply_to(request),
{
    match request {
        Request::Handshake { .. } => Reply {
            response: Some(Response::HandshakeResponse),
            keep_open: true,
        },
        Request::Disconnect { .. } => Reply { response: None, keep_open: false },
    }
}

/// Reacts to what the stream of requests yields.
pub fn handle_input_result(input: Input) -> (reply: Reply)
    ensures
        reply == reaction_to(input),
{
    match input {
        Input::Received(request) => handle_request(request),
        Input::Failed => Reply { response: None, keep_open: false },
        Input::Closed => Reply { response: None, keep_open: false },
    }
}

/// The connection is served as long as handshakes arrive: the server keeps
/// it open exactly when it answers.
pub proof fn lemma_open_iff_answered(input: Input)
    ensures
        reaction_to(input).keep_open <==> reaction_to(input).response is Some,
        reaction_to(input).keep_open <==> input matches Input::Received(
            Request::Handshake { .. },
        ),
{
}

/// What the client's stream of responses yields.
#[derive(Debug, Clone, Copy, PartialEq, Eq)]
pub enum StreamEvent<'a> {
    /// A response arrived.
    Arrived(Response),
    /// The stream reported an error with this text.
    Failed(&'a str),
}

/// Why a request could not be handed to the connection.
#[derive(Debug, Clone, Copy, PartialEq, Eq, Structural)]
pub enum SendError {
    /// No connection was opened, or its channel is gone.
    NotAvailable,
}

/// What a client knows of its connection.
#[derive(Debug, Clone, Copy, PartialEq, Eq, Structural)]
pub struct WebSocketManager {
    /// The client's identifier.
    pub uuid: u128,
    /// Whether a channel for requests exists.
    pub has_channel: bool,
    /// Whether the server has accepted the handshake and the connection was
    /// not closed since.
    pub is_connected: bool,
}

impl WebSocketManager {
    /// A client that has not connected yet.
    pub fn new(uuid: u128) -> (manager: Self)
        ensures
            manager == (WebSocketManager { uuid, has_channel: false, is_connected: false }),
    {
        WebSocketManager { uuid, has_channel: false, is_connected: false }
    }

    /// Opens the channel and yields the handshake to send first. The client
    /// counts as connected only once the server has answered. If the
    /// handshake cannot be queued, nothing changes.
    pub fn connect(&mut self, handshake_queued: bool) -> (request: Request)
        ensures
            request == (Request::Handshake { uuid: old(self).uuid }),
            *final(self) == if handshake_queued {
                WebSocketManager { has_channel: true, ..*old(self) }
            } else {
                *old(self)
            },
    {
        if handshake_queued {
            self.has_channel = true;
        }
        Request::Handshake { uuid: self.uuid }
    }

    /// Whether a request can be handed to the connection. Without a channel
    /// it cannot, and the client no longer counts as connected.
    pub fn send(&mut self) -> (result: Result<(), SendError>)
        ensures
            result is Ok <==> old(self).has_channel,
            *final(self) == if old(self).has_channel {
                *old(self)
            } else {
                WebSocketManager { is_connected: false, ..*old(self) }
            },
    {
        if self.has_channel {
            Ok(())
        } else {
            self.is_connected = false;
            Err(SendError::NotAvailable)
        }
    }

    /// Yields the request that ends the conversation; the client no longer
    /// counts as connected, whether the request can be sent or not.
    pub fn disconnect(&mut self) -> (request: Request)
        ensures
            request == (Request::Disconnect { uuid: old(self).uuid }),
            *final(self) == (WebSocketManager { is_connected: false, ..*old(self) }),
    {
        self.is_connected = false;
        Request::Disconnect { uuid: self.uuid }
    }

    /// The stream of responses could not be opened: the client is not
    /// connected.
    pub fn stream_refused(&mut self)
        ensures
            *final(self) == (WebSocketManager { is_connected: false, ..*old(self) }),
    {
        self.is_connected = false;
    }

    /// Takes what the stream of responses yields and says whether to go on
    /// listening. An accepted handshake connects the client. The error that
    /// reports an ordinary closure disconnects it and ends the listening;
    /// any other error is passed over.
    pub fn handle_response(&mut self, event: StreamEvent<'_>) -> (listen_on: bool)
        ensures
            match event {
                StreamEvent::Arrived(Response::HandshakeResponse) => listen_on && *final(self)
                    == (WebSocketManager { is_connected: true, ..*old(self) }),
                StreamEvent::Failed(text) => if text@ == NORMAL_CLOSURE@ {
                    !listen_on && *final(self) == (WebSocketManager {
                        is_connected: false,
                        ..*old(self)
                    })
                } else {
                    listen_on && *final(self) == *old(self)
                },
            },
    {
        match event {
            StreamEvent::Arrived(Response::HandshakeResponse) => {
                self.is_connected = true;
                true
            },
            StreamEvent::Failed(text) => {
                if same_text(text, NORMAL_CLOSURE) {
                    self.is_connected = false;
                    false
                } else {
                    true
                }
            },
        }
    }
}

} // verus!
