//! Fetch and networking: headers, CORS decisions, the fetch init and response
//! values, service-worker fetch interception and WebSocket state.
pub mod headers;
pub mod cors;
pub mod preflight_cache;
pub mod fetch;
pub mod sw_fetch_intercept;
pub mod websocket;
pub mod wasm;
