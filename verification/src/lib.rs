//! The decisions of `ech-tls-tunnel`, a SIP003 plugin that carries shadowsocks
//! over WebSocket and TLS with an ECH-protected handshake, and renews its
//! certificate by itself.
//!
//! The library reads no file and opens no socket: it takes plain values in, and
//! says what is to be done.

pub mod acme;
pub mod challenge;
pub mod client;
pub mod clienthello;
pub mod config;
pub mod ech;
pub mod fingerprint;
pub mod namemap;
pub mod net;
pub mod server;
pub mod sip003;
pub mod startup;
pub mod stealth;
pub mod text;
pub mod tls_client;
pub mod tls_server;
pub mod wire;
pub mod ws;
