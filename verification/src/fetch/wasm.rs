//! The networking constructors of a WebAssembly build, where the browser's
//! own implementations are used: each refuses with a message that says so.
use vstd::prelude::*;

verus! {

/// EventSource ready states.
#[derive(Debug, Clone, Copy, PartialEq, Eq, Structural)]
pub enum ReadyState {
    Connecting,
    Open,
    Closed,
}

impl ReadyState {
    /// The number JavaScript sees (`CONNECTING`, `OPEN`, `CLOSED`).
    pub fn as_u32(&self) -> (n: u32)
        ensures
            n == match self {
                ReadyState::Connecting => 0u32,
                ReadyState::Open => 1u32,
                ReadyState::Closed => 2u32,
            },
    {
        match self {
            ReadyState::Connecting => 0,
            ReadyState::Open => 1,
            ReadyState::Closed => 2,
        }
    }
}

/// Internal data of an EventSource (none in this build).
pub struct EventSourceData;

/// JavaScript `EventSource` constructor.
pub struct EventSource;

/// Internal data of an XMLHttpRequest (none in this build).
pub struct XmlHttpRequestData;

/// JavaScript `XMLHttpRequest` constructor.
pub struct XmlHttpRequest;

/// JavaScript `fetch()` of this build.
pub struct Fetch;

/// JavaScript `Request` constructor of this build.
pub struct Request;

/// JavaScript `Response` constructor of this build.
pub struct Response;

/// JavaScript `Headers` constructor of this build.
pub struct Headers;

/// The networking APIs this build leaves to the browser.
#[derive(Debug, Clone, Copy, PartialEq, Eq, Structural)]
pub enum BrowserApi {
    Fetch,
    Request,
    Response,
    Headers,
    WebSocket,
    XmlHttpRequest,
    EventSource,
}

/// The error a call of the API gives in this build.
pub fn unavailable_message(api: BrowserApi) -> (m: &'static str)
    ensures
        m@ == match api {
            BrowserApi::Fetch => "fetch() is not available in WASM. Use the browser's native fetch API."@,
            BrowserApi::Request => "Request is not available in WASM. Use the browser's native Request."@,
            BrowserApi::Response => "Response is not available in WASM. Use the browser's native Response."@,
            BrowserApi::Headers => "Headers is not available in WASM. Use the browser's native Headers."@,
            BrowserApi::WebSocket => "WebSocket is not available in WASM. Use the browser's native WebSocket API."@,
            BrowserApi::XmlHttpRequest => "XMLHttpRequest is not available in WASM. Use the browser's native XMLHttpRequest."@,
            BrowserApi::EventSource => "EventSource is not available in WASM. Use the browser's native EventSource."@,
        },
{
    match api {
        BrowserApi::Fetch => "fetch() is not available in WASM. Use the browser's native fetch API.",
        BrowserApi::Request => "Request is not available in WASM. Use the browser's native Request.",
        BrowserApi::Response => "Response is not available in WASM. Use the browser's native Response.",
        BrowserApi::Headers => "Headers is not available in WASM. Use the browser's native Headers.",
        BrowserApi::WebSocket => "WebSocket is not available in WASM. Use the browser's native WebSocket API.",
        BrowserApi::XmlHttpRequest => "XMLHttpRequest is not available in WASM. Use the browser's native XMLHttpRequest.",
        BrowserApi::EventSource => "EventSource is not available in WASM. Use the browser's native EventSource.",
    }
}

} // verus!
