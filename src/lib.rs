//! Observability core of a process network monitor: recognising HTTP requests in
//! captured frames, summarising them into call signatures, correlating sockets to
//! a process, the capture session's lifecycle, and the DNS allow-list policy.
pub mod types;
pub mod contract;
pub mod matcher;
pub mod demux;
pub mod fields;
pub mod signature;
pub mod http;
pub mod correlate;
pub mod session;
pub mod filter;
pub mod dns;
pub mod dnswire;
