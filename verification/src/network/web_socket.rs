//! Web sockets on OpenHarmony: which connections plain TCP can make, the open
//! ones, and what their messages turn into.
use crate::text::{push_text, same_text, to_text};
use vstd::prelude::*;

verus! {

/// How a web socket is to be connected.
#[derive(Clone, Copy, PartialEq, Eq, Structural, Debug)]
pub enum WebSocketTransport {
    Auto,
    PlainTcp,
    Platform,
}

pub open spec fn spec_use_plain(transport: WebSocketTransport, protocol: Seq<char>) -> bool {
    match transport {
        WebSocketTransport::PlainTcp => true,
        WebSocketTransport::Platform => false,
        WebSocketTransport::Auto => protocol == "ws"@ || protocol == "http"@,
    }
}

/// Whether a web socket goes over plain TCP: where that is asked for, or where
/// nothing is and the URL's protocol is not encrypted.
pub fn use_plain(transport: WebSocketTransport, protocol: &str) -> (r: bool)
    ensures
        r == spec_use_plain(transport, protocol@),
{
    match transport {
        WebSocketTransport::PlainTcp => true,
        WebSocketTransport::Platform => false,
        WebSocketTransport::Auto => same_text(protocol, "ws") || same_text(protocol, "http"),
    }
}

/// What a web socket received.
pub enum WebSocketMessage {
    Error(String),
    Binary(Vec<u8>),
    Text(String),
    Opened,
    Closed,
}

/// What is reported of a web socket.
#[allow(inconsistent_fields)]
pub enum NetworkResponse {
    WsError { socket_id: u64, message: String },
    WsBinary { socket_id: u64, data: Vec<u8> },
    WsText { socket_id: u64, data: String },
    WsOpened { socket_id: u64 },
    WsClosed { socket_id: u64 },
}

/// What is reported of a message.
pub fn map_ws_event(socket_id: u64, message: WebSocketMessage) -> (r: NetworkResponse)
    ensures
        r == match message {
            WebSocketMessage::Error(message) => NetworkResponse::WsError { socket_id, message },
            WebSocketMessage::Binary(data) => NetworkResponse::WsBinary { socket_id, data },
            WebSocketMessage::Text(data) => NetworkResponse::WsText { socket_id, data },
            WebSocketMessage::Opened => NetworkResponse::WsOpened { socket_id },
            WebSocketMessage::Closed => NetworkResponse::WsClosed { socket_id },
        },
{
    match message {
        WebSocketMessage::Error(message) => NetworkResponse::WsError { socket_id, message },
        WebSocketMessage::Binary(data) => NetworkResponse::WsBinary { socket_id, data },
        WebSocketMessage::Text(data) => NetworkResponse::WsText { socket_id, data },
        WebSocketMessage::Opened => NetworkResponse::WsOpened { socket_id },
        WebSocketMessage::Closed => NetworkResponse::WsClosed { socket_id },
    }
}

/// What to send.
pub enum WsSend {
    Binary(Vec<u8>),
    Text(String),
}

/// The message that something to send goes out as.
pub fn outbound(message: WsSend) -> (r: WebSocketMessage)
    ensures
        r == match message {
            WsSend::Binary(data) => WebSocketMessage::Binary(data),
            WsSend::Text(data) => WebSocketMessage::Text(data),
        },
{
    match message {
        WsSend::Binary(data) => WebSocketMessage::Binary(data),
        WsSend::Text(data) => WebSocketMessage::Text(data),
    }
}

/// Why the backend refuses.
#[derive(Clone, Copy, PartialEq, Eq, Structural, Debug)]
pub enum BackendError {
    HttpNeedsPlatform,
    TlsNeedsPlatform,
    NotOpen,
    SendFailed,
}

impl BackendError {
    /// What is reported, of a socket that goes by a name.
    pub open spec fn spec_message(self, socket: Seq<char>) -> Seq<char> {
        match self {
            BackendError::HttpNeedsPlatform =>
                "HTTP on OpenHarmony needs a registered platform backend"@,
            BackendError::TlsNeedsPlatform =>
                "TLS websockets on OpenHarmony need a registered platform backend"@,
            BackendError::NotOpen => "ohos websocket "@ + socket + " not open"@,
            BackendError::SendFailed => "ohos websocket send failed"@,
        }
    }

    /// What is reported, of a socket that goes by a name.
    pub fn message(&self, socket: &str) -> (r: String)
        ensures
            r@ == self.spec_message(socket@),
    {
        match self {
            BackendError::HttpNeedsPlatform =>
                "HTTP on OpenHarmony needs a registered platform backend".to_owned(),
            BackendError::TlsNeedsPlatform =>
                "TLS websockets on OpenHarmony need a registered platform backend".to_owned(),
            BackendError::NotOpen => {
                let mut out: Vec<char> = Vec::new();
                push_text(&mut out, "ohos websocket ");
                push_text(&mut out, socket);
                push_text(&mut out, " not open");
                assert(out@ =~= self.spec_message(socket@));
                to_text(out.as_slice())
            },
            BackendError::SendFailed => "ohos websocket send failed".to_owned(),
        }
    }
}

/// The open web sockets.
pub struct OhosBackend {
    sockets: Vec<u64>,
}

impl View for OhosBackend {
    type V = Set<u64>;

    closed spec fn view(&self) -> Set<u64> {
        self.sockets@.to_set()
    }
}

impl OhosBackend {
    pub fn new() -> (r: OhosBackend)
        ensures
            r@ == Set::<u64>::empty(),
    {
        let r = OhosBackend { sockets: Vec::new() };
        assert(r@ =~= Set::<u64>::empty());
        r
    }

    /// HTTP requests need a platform.
    pub fn http_start(&self) -> (r: Result<(), BackendError>)
        ensures
            r == Err::<(), BackendError>(BackendError::HttpNeedsPlatform),
    {
        Err(BackendError::HttpNeedsPlatform)
    }

    /// And so does cancelling one.
    pub fn http_cancel(&self) -> (r: Result<(), BackendError>)
        ensures
            r == Err::<(), BackendError>(BackendError::HttpNeedsPlatform),
    {
        Err(BackendError::HttpNeedsPlatform)
    }

    /// Opens a web socket where plain TCP can.
    pub fn ws_open(&mut self, socket_id: u64, transport: WebSocketTransport, protocol: &str) -> (r:
        Result<(), BackendError>)
        ensures
            if spec_use_plain(transport, protocol@) {
                r is Ok && final(self)@ == old(self)@.insert(socket_id)
            } else {
                r == Err::<(), BackendError>(BackendError::TlsNeedsPlatform) && final(self)@ == old(
                    self,
                )@
            },
    {
        if !use_plain(transport, protocol) {
            return Err(BackendError::TlsNeedsPlatform);
        }
        if !self.has(socket_id) {
            let ghost before = self.sockets@;
            self.sockets.push(socket_id);
            proof {
                assert forall|s: u64| self@.contains(s) <==> old(self)@.insert(socket_id).contains(
                    s,
                ) by {
                    assert(self.sockets@[before.len() as int] == socket_id);
                    if before.contains(s) {
                        let i = choose|i: int| 0 <= i < before.len() && before[i] == s;
                        assert(self.sockets@[i] == s);
                    }
                    if self.sockets@.contains(s) && s != socket_id {
                        let i = choose|i: int|
                            0 <= i < self.sockets@.len() && self.sockets@[i] == s;
                        assert(before[i] == s);
                    }
                }
            }
        }
        assert(self@ =~= old(self)@.insert(socket_id));
        Ok(())
    }

    fn has(&self, socket_id: u64) -> (r: bool)
        ensures
            r == self@.contains(socket_id),
    {
        let mut i: usize = 0;
        while i < self.sockets.len()
            invariant
                i <= self.sockets.len(),
                forall|j: int| 0 <= j < i ==> self.sockets@[j] != socket_id,
            decreases self.sockets.len() - i,
        {
            if self.sockets[i] == socket_id {
                assert(self.sockets@.contains(socket_id));
                return true;
            }
            i = i + 1;
        }
        false
    }

    /// The message to send on an open web socket.
    pub fn ws_send(&self, socket_id: u64, message: WsSend) -> (r: Result<
        WebSocketMessage,
        BackendError,
    >)
        ensures
            if self@.contains(socket_id) {
                r == Ok::<WebSocketMessage, BackendError>(
                    match message {
                        WsSend::Binary(data) => WebSocketMessage::Binary(data),
                        WsSend::Text(data) => WebSocketMessage::Text(data),
                    },
                )
            } else {
                r == Err::<WebSocketMessage, BackendError>(BackendError::NotOpen)
            },
    {
        if !self.has(socket_id) {
            return Err(BackendError::NotOpen);
        }
        Ok(outbound(message))
    }

    /// Closes a web socket: whether it was open.
    pub fn ws_close(&mut self, socket_id: u64) -> (r: bool)
        ensures
            r == old(self)@.contains(socket_id),
            final(self)@ == old(self)@.remove(socket_id),
    {
        let was_open = self.has(socket_id);
        let mut kept: Vec<u64> = Vec::new();
        let ghost all = self.sockets@;
        let mut i: usize = 0;
        while i < self.sockets.len()
            invariant
                i <= self.sockets.len(),
                self.sockets@ == all,
                forall|s: u64| #[trigger]
                    kept@.contains(s) <==> all.take(i as int).contains(s) && s != socket_id,
            decreases self.sockets.len() - i,
        {
            let id: u64 = self.sockets[i];
            let ghost before = kept@;
            if id != socket_id {
                kept.push(id);
            }
            proof {
                let seen = all.take(i as int);
                let next = all.take(i + 1);
                assert forall|s: u64| #[trigger]
                    kept@.contains(s) <==> next.contains(s) && s != socket_id by {
                    assert(before.contains(s) <==> seen.contains(s) && s != socket_id);
                    assert(next[i as int] == id);
                    if seen.contains(s) {
                        let k = choose|k: int| 0 <= k < seen.len() && seen[k] == s;
                        assert(next[k] == s);
                    }
                    if next.contains(s) && s != id {
                        let k = choose|k: int| 0 <= k < next.len() && next[k] == s;
                        assert(seen[k] == s);
                    }
                    if before.contains(s) {
                        let k = choose|k: int| 0 <= k < before.len() && before[k] == s;
                        assert(kept@[k] == s);
                    }
                    if id != socket_id {
                        assert(kept@[before.len() as int] == id);
                        if kept@.contains(s) && s != id {
                            let k = choose|k: int| 0 <= k < kept@.len() && kept@[k] == s;
                            assert(before[k] == s);
                        }
                    }
                }
            }
            i = i + 1;
        }
        assert(all.take(i as int) =~= all);
        self.sockets = kept;
        assert forall|s: u64| #[trigger]
            self@.contains(s) <==> old(self)@.remove(socket_id).contains(s) by {
            assert(kept@.contains(s) <==> all.contains(s) && s != socket_id);
        }
        assert(self@ =~= old(self)@.remove(socket_id));
        was_open
    }
}

/// Left to choose, a socket goes over plain TCP where its protocol has no TLS, and else
/// over the platform; told which, it goes that way whatever its protocol.
pub proof fn only_plain_protocols_go_over_plain_tcp(protocol: Seq<char>)
    ensures
        spec_use_plain(WebSocketTransport::Auto, "ws"@) && spec_use_plain(
            WebSocketTransport::Auto,
            "http"@,
        ),
        protocol.len() > 0 && protocol.last() == 's' && protocol.len() != 2 ==> !spec_use_plain(
            WebSocketTransport::Auto,
            protocol,
        ),
        spec_use_plain(WebSocketTransport::PlainTcp, protocol),
        !spec_use_plain(WebSocketTransport::Platform, protocol),
{
    reveal_strlit("ws");
    reveal_strlit("http");
    assert("http"@.last() == 'p' && "ws"@.len() == 2);
}

} // verus!
