# thalora_browser_apis

Verified core of the Thalora browser Web APIs, written in Verus.

- `src/events`: the Event object, EventTarget listener lists, the dispatch
  through the capturing, at-target and bubbling phases, and the data of the
  event subclasses (keyboard, touch, close, progress, abort signals,
  `FetchEvent`).
- `src/file`: blobs and `File`, `FileReader` with its states and events, and
  the WHATWG File System API: the permission store, handles, the per-origin
  private file system (path resolution, origin slugs), sync access locks,
  directory iterators and writable streams.
- `src/fetch`: header maps, CORS decisions and the preflight cache, the
  values of `Request`, `Response` and `Headers`, service-worker fetch scopes,
  WebSocket validation and connection state, and the messages of a
  WebAssembly build.
- `src/http_blocking.rs`, `src/http_module_loader.rs`: the blocking client's
  builder and ES-module specifier resolution.
- `src/path.rs`, `src/text.rs`, `src/urls.rs`: path components and
  normalisation, string helpers, and what the `url` crate makes of URLs.

`app/` holds what the library leaves to its embedding: disk I/O of the
private file system, the process-wide registries, the picker sample files,
and the event data that carries floating-point coordinates.
