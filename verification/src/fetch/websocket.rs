//! WebSocket: URL and subprotocol validation, and the connection state
//! machine that turns network happenings into the events the page sees.
use vstd::prelude::*;

use crate::text::str_eq;
use crate::file::file_reader::{base64_spec, base64_standard};
use crate::urls::{parse_url_parts, serialize_url, url_parts, url_serialization};

verus! {

/// The address a connection is opened to: the URL as `url::Url::parse`
/// serializes it, or nothing when the parse refuses the URL (the connection
/// then fails with `Connection failed`).
pub fn connect_target(url: &str) -> (r: Option<String>)
    ensures
        match (r, url_serialization(url@)) {
            (Some(a), Some(b)) => a@ == b,
            (None, None) => true,
            _ => false,
        },
        r is Some <==> url_parts(url@) is Some,
{
    serialize_url(url)
}

/// WebSocket ready states.
#[derive(Debug, Clone, Copy, PartialEq, Eq, Structural)]
pub enum ReadyState {
    Connecting,
    Open,
    Closing,
    Closed,
}

impl ReadyState {
    pub open spec fn code(self) -> u16 {
        match self {
            ReadyState::Connecting => 0,
            ReadyState::Open => 1,
            ReadyState::Closing => 2,
            ReadyState::Closed => 3,
        }
    }

    /// The `readyState` number.
    pub fn as_u16(&self) -> (n: u16)
        ensures
            n == self.code(),
    {
        match self {
            ReadyState::Connecting => 0,
            ReadyState::Open => 1,
            ReadyState::Closing => 2,
            ReadyState::Closed => 3,
        }
    }
}

/// Why `new WebSocket(url, protocols)` was refused (a `SyntaxError`).
#[derive(Debug, Clone, Copy, PartialEq, Eq, Structural)]
pub enum WebSocketError {
    InvalidUrl,
    BadScheme,
    InvalidSubprotocol,
    DuplicateSubprotocol,
}

/// The URL check of the constructor: it must parse and use `ws` or `wss`.
pub open spec fn url_check(u: Seq<char>) -> Result<(), WebSocketError> {
    match url_parts(u) {
        None => Err(WebSocketError::InvalidUrl),
        Some((scheme, _, _)) => if scheme == "ws"@ || scheme == "wss"@ {
            Ok(())
        } else {
            Err(WebSocketError::BadScheme)
        },
    }
}

/// Check a WebSocket URL.
pub fn validate_url(u: &str) -> (r: Result<(), WebSocketError>)
    ensures
        r == url_check(u@),
{
    match parse_url_parts(u) {
        None => Err(WebSocketError::InvalidUrl),
        Some((scheme, _, _)) => if str_eq(scheme.as_str(), "ws") || str_eq(scheme.as_str(), "wss") {
            Ok(())
        } else {
            Err(WebSocketError::BadScheme)
        },
    }
}

/// A subprotocol token: not empty, without ASCII control characters, spaces
/// or commas.
pub open spec fn valid_subprotocol(p: Seq<char>) -> bool {
    p.len() > 0 && forall|i: int|
        0 <= i < p.len() ==> !((#[trigger] p[i] as u32) < 32 || p[i] as u32 == 127 || p[i] == ' ' || p[i] == ',')
}

/// The first problem of a protocol list, checking each protocol in order for
/// validity and then for repeating an earlier one.
pub open spec fn protocols_error(ps: Seq<Seq<char>>) -> Option<WebSocketError>
    decreases ps.len(),
{
    if ps.len() == 0 {
        None
    } else {
        match protocols_error(ps.drop_last()) {
            Some(e) => Some(e),
            None => if !valid_subprotocol(ps.last()) {
                Some(WebSocketError::InvalidSubprotocol)
            } else if ps.drop_last().contains(ps.last()) {
                Some(WebSocketError::DuplicateSubprotocol)
            } else {
                None
            },
        }
    }
}

fn check_subprotocol(p: &str) -> (r: bool)
    ensures
        r == valid_subprotocol(p@),
{
    let n = p.unicode_len();
    if n == 0 {
        return false;
    }
    let mut i: usize = 0;
    while i < n
        invariant
            n == p@.len(),
            i <= n,
            forall|j: int| 0 <= j < i ==> !((#[trigger] p@[j] as u32) < 32 || p@[j] as u32 == 127 || p@[j] == ' ' || p@[j] == ','),
        decreases n - i,
    {
        let c = p.get_char(i);
        let code = c as u32;
        if code < 32 || code == 127 || c == ' ' || c == ',' {
            return false;
        }
        i = i + 1;
    }
    true
}

/// Check the subprotocols given as an array.
pub fn validate_protocols(protocols: &Vec<String>) -> (r: Result<(), WebSocketError>)
    ensures
        r == match protocols_error(protocols@.map_values(|x: String| x@)) {
            Some(e) => Err(e),
            None => Ok(()),
        },
{
    let ghost ps = protocols@.map_values(|x: String| x@);
    let mut i: usize = 0;
    while i < protocols.len()
        invariant
            0 <= i <= protocols@.len(),
            ps == protocols@.map_values(|x: String| x@),
            protocols_error(ps.take(i as int)) is None,
        decreases protocols@.len() - i,
    {
        proof {
            assert(ps.take(i + 1).drop_last() =~= ps.take(i as int));
            assert(ps.take(i + 1).last() == protocols@[i as int]@);
        }
        proof {
            assert(ps[i as int] == protocols@[i as int]@);
        }
        if !check_subprotocol(protocols[i].as_str()) {
            proof {
                lemma_protocols_error_prefix(ps, i + 1);
            }
            return Err(WebSocketError::InvalidSubprotocol);
        }
        let mut j: usize = 0;
        while j < i
            invariant
                0 <= j <= i < protocols@.len(),
                ps == protocols@.map_values(|x: String| x@),
                protocols_error(ps.take(i as int)) is None,
                valid_subprotocol(ps[i as int]),
                forall|k: int| 0 <= k < j ==> ps[k] != ps[i as int],
            decreases i - j,
        {
            if str_eq(protocols[j].as_str(), protocols[i].as_str()) {
                proof {
                    assert(ps[j as int] == protocols@[j as int]@);
                    assert(ps[i as int] == protocols@[i as int]@);
                    assert(ps.take(i + 1).drop_last() =~= ps.take(i as int));
                    assert(ps.take(i + 1).last() == ps[i as int]);
                    assert(ps.take(i as int)[j as int] == ps[i as int]);
                    assert(ps.take(i + 1).drop_last().contains(ps.take(i + 1).last()));
                    lemma_protocols_error_prefix(ps, i + 1);
                }
                return Err(WebSocketError::DuplicateSubprotocol);
            }
            j = j + 1;
        }
        proof {
            assert forall|k: int| 0 <= k < ps.take(i as int).len() implies ps.take(i as int)[k] != ps[i as int] by {
                assert(ps.take(i as int)[k] == ps[k]);
            }
            assert(!ps.take(i + 1).drop_last().contains(ps.take(i + 1).last()));
        }
        i = i + 1;
    }
    proof {
        assert(ps.take(protocols@.len() as int) =~= ps);
    }
    Ok(())
}

/// An error found in a prefix is the error of the whole list.
proof fn lemma_protocols_error_prefix(ps: Seq<Seq<char>>, k: int)
    requires
        0 <= k <= ps.len(),
        protocols_error(ps.take(k)) is Some,
    ensures
        protocols_error(ps) == protocols_error(ps.take(k)),
    decreases ps.len() - k,
{
    if k < ps.len() {
        assert(ps.take(k + 1).drop_last() =~= ps.take(k));
        lemma_protocols_error_prefix(ps, k + 1);
    } else {
        assert(ps.take(k) =~= ps);
    }
}

/// An event waiting to be dispatched to the page.
#[derive(Debug, Clone, PartialEq, Eq)]
pub enum PendingEvent {
    Open,
    Close { code: u16, reason: String, was_clean: bool },
    Error { message: String },
    Message { data: String, is_binary: bool },
}

/// The state of one connection.
pub struct Connection {
    pub state: ReadyState,
    pub buffered_amount: u64,
    pub pending_events: Vec<PendingEvent>,
    pub selected_protocol: String,
}

impl Connection {
    /// A connection that is being opened.
    pub fn new() -> (c: Self)
        ensures
            c.state == ReadyState::Connecting,
            c.buffered_amount == 0,
            c.pending_events@.len() == 0,
            c.selected_protocol@ == Seq::<char>::empty(),
    {
        Connection {
            state: ReadyState::Connecting,
            buffered_amount: 0,
            pending_events: Vec::new(),
            selected_protocol: String::new(),
        }
    }

    /// The handshake succeeded with the server's chosen subprotocol: open,
    /// and an `open` event waits.
    pub fn on_connected(&mut self, selected_protocol: String)
        ensures
            final(self).state == ReadyState::Open,
            final(self).selected_protocol@ == selected_protocol@,
            final(self).pending_events@ == old(self).pending_events@.push(PendingEvent::Open),
            final(self).buffered_amount == old(self).buffered_amount,
    {
        self.state = ReadyState::Open;
        self.selected_protocol = selected_protocol;
        self.pending_events.push(PendingEvent::Open);
    }

    /// A message arrived as the page sees it: text as it came, binary data
    /// already in base64 (`on_binary_message` encodes it).
    pub fn on_message(&mut self, data: String, is_binary: bool)
        ensures
            final(self).state == old(self).state,
            final(self).pending_events@ == old(self).pending_events@.push(PendingEvent::Message { data, is_binary }),
            final(self).selected_protocol == old(self).selected_protocol,
            final(self).buffered_amount == old(self).buffered_amount,
    {
        self.pending_events.push(PendingEvent::Message { data, is_binary });
    }

    /// A binary message arrived: the page sees its bytes in standard base64.
    pub fn on_binary_message(&mut self, data: &Vec<u8>)
        ensures
            final(self).state == old(self).state,
            final(self).pending_events@.len() == old(self).pending_events@.len() + 1,
            final(self).pending_events@.drop_last() == old(self).pending_events@,
            final(self).pending_events@.last() matches PendingEvent::Message { data: d, is_binary: true } && d@
                == base64_spec(data@),
            final(self).selected_protocol == old(self).selected_protocol,
            final(self).buffered_amount == old(self).buffered_amount,
    {
        let encoded = base64_standard(data);
        self.pending_events.push(PendingEvent::Message { data: encoded, is_binary: true });
        proof {
            assert(self.pending_events@.drop_last() =~= old(self).pending_events@);
        }
    }

    /// The server closed the connection, with its close frame's code and
    /// reason if it sent one (1005 and no reason otherwise).
    pub fn on_close_frame(&mut self, frame: Option<(u16, String)>)
        ensures
            final(self).state == ReadyState::Closed,
            final(self).pending_events@.len() == old(self).pending_events@.len() + 1,
            final(self).pending_events@.drop_last() == old(self).pending_events@,
            match frame {
                Some((c, r)) => final(self).pending_events@.last() == (PendingEvent::Close {
                    code: c,
                    reason: r,
                    was_clean: true,
                }),
                None => final(self).pending_events@.last() matches PendingEvent::Close { code, reason, was_clean }
                    && code == 1005 && reason@ == Seq::<char>::empty() && was_clean,
            },
            final(self).selected_protocol == old(self).selected_protocol,
            final(self).buffered_amount == old(self).buffered_amount,
    {
        let (code, reason) = match frame {
            Some((c, r)) => (c, r),
            None => (1005u16, String::new()),
        };
        self.state = ReadyState::Closed;
        self.pending_events.push(PendingEvent::Close { code, reason, was_clean: true });
        proof {
            assert(self.pending_events@.drop_last() =~= old(self).pending_events@);
        }
    }

    /// The connection failed (`reason` is `Connection failed` when the
    /// handshake failed, `Abnormal closure` when reading failed): an `error`
    /// event, then an unclean close with code 1006.
    pub fn on_failure(&mut self, message: String, handshake: bool)
        ensures
            final(self).state == ReadyState::Closed,
            final(self).pending_events@.len() == old(self).pending_events@.len() + 2,
            final(self).pending_events@.take(old(self).pending_events@.len() as int) == old(self).pending_events@,
            final(self).pending_events@[old(self).pending_events@.len() as int] == (PendingEvent::Error { message }),
            final(self).pending_events@.last() matches PendingEvent::Close { code, reason, was_clean } && code == 1006
                && !was_clean && reason@ == (if handshake {
                "Connection failed"@
            } else {
                "Abnormal closure"@
            }),
            final(self).selected_protocol == old(self).selected_protocol,
            final(self).buffered_amount == old(self).buffered_amount,
    {
        self.pending_events.push(PendingEvent::Error { message });
        self.state = ReadyState::Closed;
        let reason = if handshake {
            "Connection failed".to_owned()
        } else {
            "Abnormal closure".to_owned()
        };
        self.pending_events.push(PendingEvent::Close { code: 1006, reason, was_clean: false });
        proof {
            assert(self.pending_events@.take(old(self).pending_events@.len() as int) =~= old(self).pending_events@);
        }
    }

    /// `send()`: data goes out only on an open connection.
    pub fn can_send(&self) -> (r: bool)
        ensures
            r == (self.state == ReadyState::Open),
    {
        self.state == ReadyState::Open
    }

    /// `close()`: a connection that is closing or closed stays as it is;
    /// otherwise it starts closing. Returns whether a close frame is to be
    /// sent.
    pub fn close(&mut self) -> (send_close: bool)
        ensures
            (old(self).state == ReadyState::Closing || old(self).state == ReadyState::Closed) ==> !send_close
                && final(self).state == old(self).state,
            !(old(self).state == ReadyState::Closing || old(self).state == ReadyState::Closed) ==> send_close
                && final(self).state == ReadyState::Closing,
            final(self).pending_events == old(self).pending_events,
            final(self).selected_protocol == old(self).selected_protocol,
            final(self).buffered_amount == old(self).buffered_amount,
    {
        if self.state == ReadyState::Closing || self.state == ReadyState::Closed {
            return false;
        }
        self.state = ReadyState::Closing;
        true
    }

    /// Take the events waiting for dispatch, in the order they happened.
    pub fn take_pending_events(&mut self) -> (r: Vec<PendingEvent>)
        ensures
            r@ == old(self).pending_events@,
            final(self).pending_events@.len() == 0,
            final(self).state == old(self).state,
            final(self).selected_protocol == old(self).selected_protocol,
            final(self).buffered_amount == old(self).buffered_amount,
    {
        let mut out: Vec<PendingEvent> = Vec::new();
        std::mem::swap(&mut out, &mut self.pending_events);
        out
    }
}

/// Internal data of a WebSocket.
pub struct WebSocketData {
    pub url: String,
    pub protocols: Vec<String>,
    pub connection: Connection,
    pub binary_type: String,
    pub extensions: String,
}

impl WebSocketData {
    /// A WebSocket on `url` that is connecting.
    pub fn new(url: String, protocols: Vec<String>) -> (d: Self)
        ensures
            d.url@ == url@,
            d.protocols@ == protocols@,
            d.connection.state == ReadyState::Connecting,
            d.connection.pending_events@.len() == 0,
            d.binary_type@ == "blob"@,
            d.extensions@ == Seq::<char>::empty(),
    {
        WebSocketData {
            url,
            protocols,
            connection: Connection::new(),
            binary_type: "blob".to_owned(),
            extensions: String::new(),
        }
    }
}


/// A WebSocket URL is accepted exactly when it parses with scheme `ws` or
/// `wss`; a URL that does not parse is invalid, and any other scheme is
/// refused as a bad scheme.
pub proof fn law_url_check_schemes(u: Seq<char>)
    ensures
        (url_parts(u) matches Some((s, _, _)) && s == "ws"@) ==> url_check(u) == Ok::<(), WebSocketError>(()),
        (url_parts(u) matches Some((s, _, _)) && s == "wss"@) ==> url_check(u) == Ok::<(), WebSocketError>(()),
        (url_parts(u) matches Some((s, _, _)) && s != "ws"@ && s != "wss"@) ==> url_check(u) == Err::<
            (),
            WebSocketError,
        >(WebSocketError::BadScheme),
        url_parts(u) is None ==> url_check(u) == Err::<(), WebSocketError>(WebSocketError::InvalidUrl),
{
}

} // verus!
