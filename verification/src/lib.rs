//! Verified core of the Thalora browser Web APIs: DOM events and their
//! propagation, the File / FileReader model, the WHATWG File System API with its
//! origin-private backend, fetch-side CORS and service-worker decisions,
//! WebSocket state, and the blocking HTTP / module-loader helpers.
pub mod file;
pub mod events;
pub mod fetch;
pub mod text;
pub mod urls;
pub mod path;
pub mod http_blocking;
pub mod http_module_loader;
