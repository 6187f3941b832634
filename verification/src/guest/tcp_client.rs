//! The guest's connection to the center: one request at a time, each answered before the next.
use vstd::prelude::*;

use crate::error;
use crate::error::{ErrorView, ScaffoldingError};
use crate::models::protocol::{ProtocolRequest, ProtocolResponse, RequestView, ResponseView};
use crate::session::protocol_serializer;
use crate::text;

verus! {

/// How long to wait for the response to a request, in seconds.
pub const READ_TIMEOUT_SECS: u64 = 15;

/// The guest's connection to the center.
#[derive(Debug, Clone, Copy)]
pub struct TcpClient {
    connected: bool,
}

/// How the exchange of a request for a response went on the connection.
pub enum Exchange {
    /// The request could not be written, for this reason.
    WriteFailed(String),
    /// The request was written but could not be flushed, for this reason.
    FlushFailed(String),
    /// No response came in time.
    TimedOut,
    /// A response came, or could not be read.
    Read(Result<ProtocolResponse, ScaffoldingError>),
}

/// The error for a request without a connection.
pub open spec fn not_connected() -> ErrorView {
    ErrorView::CenterConnection("未连接到联机中心"@)
}

/// The error for a center that could not be connected to.
pub open spec fn connect_failed(host: Seq<char>, port: u16, reason: Seq<char>) -> ErrorView {
    ErrorView::CenterConnection(
        "无法连接到联机中心 "@ + host + ":"@ + text::decimal(port as nat) + ": "@ + reason,
    )
}

/// The bytes to write for a request, by whether there is a connection.
pub open spec fn framed(online: bool, request: RequestView) -> Result<Seq<u8>, ErrorView> {
    if online {
        Ok(protocol_serializer::request_frame(request))
    } else {
        Err(not_connected())
    }
}

/// The result of sending a request, by whether there is a connection.
pub open spec fn sent(online: bool, key: Seq<char>, exchange: Exchange) -> Result<
    ResponseView,
    ErrorView,
> {
    if online {
        exchanged(key, exchange)
    } else {
        Err(not_connected())
    }
}

/// The result of an exchange of the request with a key.
pub open spec fn exchanged(key: Seq<char>, exchange: Exchange) -> Result<ResponseView, ErrorView> {
    match exchange {
        Exchange::WriteFailed(reason) => Err(
            ErrorView::CenterConnection("TCP 发送失败: "@ + key + ": "@ + reason@),
        ),
        Exchange::FlushFailed(reason) => Err(
            ErrorView::CenterConnection("TCP 发送失败: "@ + key + ": "@ + reason@),
        ),
        Exchange::TimedOut => Err(ErrorView::CenterConnection("读取响应超时: "@ + key)),
        Exchange::Read(read) => error::outcome(read),
    }
}

fn send_error(key: &str, reason: &str) -> (error: ScaffoldingError)
    ensures
        error@ == ErrorView::CenterConnection("TCP 发送失败: "@ + key@ + ": "@ + reason@),
{
    let mut message = text::concat("TCP 发送失败: ", key);
    message.append(": ");
    message.append(reason);
    ScaffoldingError::CenterConnection(message)
}

impl TcpClient {
    /// Whether there is a connection.
    pub closed spec fn online(&self) -> bool {
        self.connected
    }

    /// A client without a connection.
    pub fn new() -> (client: Self)
        ensures
            !client.online(),
    {
        TcpClient { connected: false }
    }

    /// Whether there is a connection.
    pub fn is_connected(&self) -> (connected: bool)
        ensures
            connected == self.online(),
    {
        self.connected
    }

    /// Takes over the result of connecting to a center; the error is why it failed.
    pub fn connect(&mut self, host: &str, port: u16, result: Result<(), String>) -> (connected:
        Result<(), ScaffoldingError>)
        ensures
            match result {
                Ok(_) => connected is Ok && final(self).online(),
                Err(reason) => {
                    &&& final(self).online() == old(self).online()
                    &&& connected matches Err(error) && error@ == connect_failed(
                        host@,
                        port,
                        reason@,
                    )
                },
            },
    {
        match result {
            Ok(_) => {
                self.connected = true;
                Ok(())
            },
            Err(reason) => {
                let mut message = text::concat("无法连接到联机中心 ", host);
                message.append(":");
                message.append(text::decimal_text(port as u64).as_str());
                message.append(": ");
                message.append(reason.as_str());
                Err(ScaffoldingError::CenterConnection(message))
            },
        }
    }

    /// The bytes to write for a request; without a connection none are.
    pub fn frame(&self, request: &ProtocolRequest) -> (frame: Result<Vec<u8>, ScaffoldingError>)
        ensures
            match frame {
                Ok(bytes) => framed(self.online(), request@) == Ok::<Seq<u8>, ErrorView>(bytes@),
                Err(error) => framed(self.online(), request@) == Err::<Seq<u8>, ErrorView>(error@),
            },
    {
        if self.connected {
            Ok(protocol_serializer::serialize_request(request))
        } else {
            Err(Self::no_connection_error())
        }
    }

    fn no_connection_error() -> (error: ScaffoldingError)
        ensures
            error@ == not_connected(),
    {
        ScaffoldingError::CenterConnection("未连接到联机中心".to_owned())
    }

    /// The result of sending a request, given how the exchange went on the connection. Without
    /// a connection there is no exchange that counts. A failed exchange does not end the
    /// connection.
    pub fn send(&self, request: &ProtocolRequest, exchange: Exchange) -> (response: Result<
        ProtocolResponse,
        ScaffoldingError,
    >)
        ensures
            error::outcome(response) == sent(self.online(), request@.key(), exchange),
    {
        if !self.connected {
            return Err(Self::no_connection_error());
        }
        let key = request.key();
        match exchange {
            Exchange::WriteFailed(reason) => Err(send_error(key.as_str(), reason.as_str())),
            Exchange::FlushFailed(reason) => Err(send_error(key.as_str(), reason.as_str())),
            Exchange::TimedOut => Err(
                ScaffoldingError::CenterConnection(text::concat("读取响应超时: ", key.as_str())),
            ),
            Exchange::Read(read) => read,
        }
    }

    /// Ends the connection.
    pub fn disconnect(&mut self)
        ensures
            !final(self).online(),
    {
        self.connected = false;
    }
}

// ---------------------------------------------------------------------------------------
// Laws
// ---------------------------------------------------------------------------------------
/// What was read is what sending a request yields, and nothing else yields a response: without a
/// connection, and where the exchange failed, the error says so, with the request's key and the
/// reason.
pub proof fn response_is_what_was_read(key: Seq<char>, exchange: Exchange)
    ensures
        sent(false, key, exchange) == Err::<ResponseView, ErrorView>(
            ErrorView::CenterConnection("未连接到联机中心"@),
        ),
        exchange matches Exchange::Read(Ok(response)) ==> sent(true, key, exchange) == Ok::<
            ResponseView,
            ErrorView,
        >(response@),
        exchange matches Exchange::Read(Err(error)) ==> sent(true, key, exchange) == Err::<
            ResponseView,
            ErrorView,
        >(error@),
        exchange is TimedOut ==> sent(true, key, exchange) == Err::<ResponseView, ErrorView>(
            ErrorView::CenterConnection("读取响应超时: "@ + key),
        ),
        exchange matches Exchange::WriteFailed(reason) ==> sent(true, key, exchange) == Err::<
            ResponseView,
            ErrorView,
        >(ErrorView::CenterConnection("TCP 发送失败: "@ + key + ": "@ + reason@)),
        exchange matches Exchange::FlushFailed(reason) ==> sent(true, key, exchange) == Err::<
            ResponseView,
            ErrorView,
        >(ErrorView::CenterConnection("TCP 发送失败: "@ + key + ": "@ + reason@)),
{
}

/// What is written for a request reads as that request, whatever is written behind it, where the
/// frame's header can describe it, its key is ASCII and its namespace holds no colon. Without a
/// connection nothing is written.
pub proof fn written_request_is_read(request: RequestView, rest: Seq<u8>)
    requires
        protocol_serializer::request_fits(request),
        vstd::utf8::is_ascii_chars(request.key()),
        !request.namespace.contains(':'),
    ensures
        framed(true, request) matches Ok(bytes) && protocol_serializer::parsed_request(bytes + rest)
            == Ok::<RequestView, ErrorView>(request),
        framed(false, request) == Err::<Seq<u8>, ErrorView>(
            ErrorView::CenterConnection("未连接到联机中心"@),
        ),
{
    protocol_serializer::request_roundtrip(request, rest);
}

} // verus!
