//! A single-upstream reverse proxy for the Kobo store API: the decisions it
//! makes on each request and response, the body codec it rewrites bodies
//! with, and the lifecycle of the server that runs it.

pub mod body;
pub mod config;
pub mod decimal;
pub mod error;
pub mod forward;
pub mod headers;
pub mod lifecycle;
pub mod routing;
pub mod stub_client;

pub use body::{
    body_for_log, compress_gzip, decode_response_body, decompress_gzip, encode_body_bytes, encode_response_body,
    is_gzip_encoded, BodyError,
};
pub use config::{CommandLineArguments, ServerBuilder, ServerSettings, TokioTcpListener};
pub use error::ErrorStatus;
pub use forward::{
    dispatch, forward_request, forward_response, replace_bytes, rewrite_response, ForwardRequest, ProxyRequest,
    ProxyResponse, UPSTREAM_AUTHORITY, UPSTREAM_URL,
};
pub use headers::Header;
pub use lifecycle::{Lifecycle, Phase};
pub use routing::{normalize_target, route_for, Route};
pub use stub_client::{FakeKoboClient, RecordedRequest};
