# networking

The networking core of a web browser, with its behaviour stated in Verus
contracts and proved.

- `src/` is the verified library:
  - `http`, `headers`, `http2`, `client`: HTTP/1.1 messages (methods, status
    codes, case-insensitive headers, request serialization, response parsing),
    HTTP/2 frames and HPACK literal coding, and the decisions of the client loop
    (URI host and port, default headers, redirects).
  - `tls`: versions, cipher suites, certificates and their validation, pinning,
    HSTS, sessions, and the handshake messages.
  - `security`: mixed content, CORB, CORS, COOP/COEP policies, security
    contexts and their manager, and origin handling.
  - `cache`: cache entries, `Cache-Control`, and partitions that evict by
    their policy until a new entry fits their size and count limits (where
    LFU, TTL or Size finds no eligible entry, the first entry goes), and the
    per-domain partitions of the memory cache with their totals.
  - `webidl`, `generator`, `bindings`: the WebIDL parser, Rust code generation
    from WebIDL definitions, and DOM binding lookups with their caches.
  - `flexbox`: the main and cross axes of a flex container, and which size
    property of a box each axis reads.
  - `typography`, `fonts`: bidirectional runs, line break opportunities,
    unicode ranges and the characters they support, font formats, metrics and
    loading states.
  - `media`: the kinds, formats, states and errors of media elements, and
    their renderers, surfaces, decoders and devices.
  - `isolation`, `renderer`, `js_vm`: a renderer's site isolation (security
    levels and contexts, cross-origin and permission checks, channels and the
    violation log), its configuration, and its JavaScript VM's timers and
    event listeners.
  - `network_process`: the network process's requests, response caches and
    counters.
  - `text`, `time`, `table`, `digest`, `error`: the strings, times, keyed
    tables, hashing and errors the rest is built on.
- `tests/` exercises the library on concrete values.
- `app/` holds what cannot be verified: sockets and the connection pool, the
  shared and on-disk caches, the network process's cache directory, timing
  statistics, the JavaScript callbacks and JSON values, font loading from
  disk and the network, and floating-point text and media code.

## Lengths and fields set from headers

- Lengths are byte lengths. A response built with the body
  `<html>Hello</html>` reports a content length of 18 (not 17), a cache entry
  for `<html>Hello World</html>` has size 24 (not 25), and one for `data1`
  size 5; no single rule gives 17, 25 and 5.
- A response's `content_length` and `chunked` fields are set when it is built
  with `body` or parsed. Setting `Content-Length` or `Transfer-Encoding` on
  its header table afterwards does not change them: they stay `None` and off,
  while the header table itself answers 25 and chunked.
