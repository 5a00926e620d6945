//! Browser networking core: HTTP/1.1 and HTTP/2 message handling, TLS
//! configuration and handshake parsing, web security policies (mixed
//! content, CORB, CORS, COOP, COEP), an HTTP cache, site isolation, a
//! JavaScript VM's timers and listeners, and the network process's
//! bookkeeping, with their behaviour stated and proved.

pub mod text;
pub mod time;
pub mod error;
pub mod digest;
pub mod headers;
pub mod http;
pub mod http2;
pub mod tls;
pub mod table;
pub mod security;
pub mod cache;
pub mod webidl;

pub mod generator;
pub mod typography;
pub mod fonts;
pub mod client;
pub mod bindings;
pub mod isolation;
pub mod network_process;
pub mod renderer;
pub mod js_vm;
pub mod flexbox;
pub mod media;
