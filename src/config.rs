//! Start-up configuration: the command-line arguments, and the builder a
//! server is made from.

use vstd::prelude::*;
use vstd::string::*;

use crate::decimal::{append_decimal, decimal_text};

verus! {

/// The log level used when none is given.
pub const DEFAULT_LOG_LEVEL: &'static str = "info";

/// The port listened on when none is given.
pub const DEFAULT_PORT: u16 = 8089;

/// The port a fresh server builder listens on.
pub const BUILDER_PORT: u16 = 8080;

/// The front door's URL, but for its port, when none is given.
pub const LOCALHOST_URL: &'static str = "http://localhost:";

/// The front door on this machine at `port`.
pub open spec fn localhost_url(port: u16) -> Seq<char> {
    LOCALHOST_URL@ + decimal_text(port as nat)
}

/// `http://localhost:<port>`.
pub fn localhost_frontend_url(port: u16) -> (r: String)
    ensures
        r@ == localhost_url(port),
{
    let mut url = String::from_str(LOCALHOST_URL);
    append_decimal(&mut url, port as u64);
    url
}

/// The command-line arguments of the proxy.
#[derive(Clone, Debug)]
pub struct CommandLineArguments {
    /// The log level for the application.
    pub log_level: String,
    /// The port to listen on.
    pub port: u16,
    /// The URL the proxy is reached at, which rewritten bodies point to.
    pub frontend_url: Option<String>,
    /// Whether requests are logged.
    pub enable_request_logging: bool,
    /// Whether responses are logged.
    pub enable_response_logging: bool,
}

impl CommandLineArguments {
    /// The front door's URL: the one given, or `http://localhost:<port>`.
    pub fn frontend_url_or_default(&self) -> (r: String)
        ensures
            match self.frontend_url {
                Some(u) => r@ == u@,
                None => r@ == localhost_url(self.port),
            },
    {
        match &self.frontend_url {
            Some(u) => u.clone(),
            None => localhost_frontend_url(self.port),
        }
    }
}

impl Default for CommandLineArguments {
    /// The arguments of a command line that gives none.
    fn default() -> (r: Self)
        ensures
            r.log_level@ == DEFAULT_LOG_LEVEL@,
            r.port == DEFAULT_PORT,
            r.frontend_url is None,
            !r.enable_request_logging,
            !r.enable_response_logging,
    {
        CommandLineArguments {
            log_level: String::from_str(DEFAULT_LOG_LEVEL),
            port: DEFAULT_PORT,
            frontend_url: None,
            enable_request_logging: false,
            enable_response_logging: false,
        }
    }
}

/// Relies on tokio_util's `CancellationToken` only as a value that is
/// carried to the server; nothing is assumed of it.
#[verifier::external_type_specification]
#[verifier::external_body]
pub struct ExCancellationToken(tokio_util::sync::CancellationToken);

/// Marks a builder that listens on a TCP socket bound on all interfaces.
pub struct TokioTcpListener;

/// What a server is built with.
#[derive(Clone, Debug)]
pub struct ServerSettings {
    pub port: u16,
    pub frontend_url: String,
    pub enable_request_logging: bool,
    pub enable_response_logging: bool,
}

/// Builder for a server: where it listens, what it rewrites to, what it
/// logs, and the token that stops it.
pub struct ServerBuilder<L> {
    listener_builder: L,
    cancellation_token: tokio_util::sync::CancellationToken,
    settings: ServerSettings,
}

impl ServerBuilder<TokioTcpListener> {
    /// A builder that listens on TCP port 8080, rewrites to
    /// `http://localhost:8080` and logs nothing.
    pub fn new(cancellation_token: tokio_util::sync::CancellationToken) -> (r: Self)
        ensures
            r.config().port == BUILDER_PORT,
            r.config().frontend_url@ == localhost_url(BUILDER_PORT),
            !r.config().enable_request_logging,
            !r.config().enable_response_logging,
    {
        ServerBuilder {
            listener_builder: TokioTcpListener,
            cancellation_token,
            settings: ServerSettings {
                port: BUILDER_PORT,
                frontend_url: localhost_frontend_url(BUILDER_PORT),
                enable_request_logging: false,
                enable_response_logging: false,
            },
        }
    }
}

impl<L> ServerBuilder<L> {
    /// The settings so far.
    pub closed spec fn config(&self) -> ServerSettings {
        self.settings
    }

    /// Turns request logging on or off.
    pub fn enable_request_logging(self, enable: bool) -> (r: Self)
        ensures
            r.config() == (ServerSettings { enable_request_logging: enable, ..self.config() }),
    {
        let ServerBuilder { listener_builder, cancellation_token, settings } = self;
        ServerBuilder { listener_builder, cancellation_token, settings: ServerSettings { enable_request_logging: enable, ..settings } }
    }

    /// Turns response logging on or off.
    pub fn enable_response_logging(self, enable: bool) -> (r: Self)
        ensures
            r.config() == (ServerSettings { enable_response_logging: enable, ..self.config() }),
    {
        let ServerBuilder { listener_builder, cancellation_token, settings } = self;
        ServerBuilder { listener_builder, cancellation_token, settings: ServerSettings { enable_response_logging: enable, ..settings } }
    }

    /// Sets the front door's URL that rewritten bodies point to.
    pub fn frontend_url(self, frontend_url: String) -> (r: Self)
        ensures
            r.config() == (ServerSettings { frontend_url, ..self.config() }),
    {
        let ServerBuilder { listener_builder, cancellation_token, settings } = self;
        ServerBuilder { listener_builder, cancellation_token, settings: ServerSettings { frontend_url, ..settings } }
    }

    /// Sets the port to listen on; 0 asks for any free port.
    pub fn port(self, port: u16) -> (r: Self)
        ensures
            r.config() == (ServerSettings { port, ..self.config() }),
    {
        let ServerBuilder { listener_builder, cancellation_token, settings } = self;
        ServerBuilder { listener_builder, cancellation_token, settings: ServerSettings { port, ..settings } }
    }

    /// Replaces what makes the listener, keeping the settings.
    pub fn listener_builder<N>(self, listener_builder: N) -> (r: ServerBuilder<N>)
        ensures
            r.config() == self.config(),
    {
        ServerBuilder { listener_builder, cancellation_token: self.cancellation_token, settings: self.settings }
    }

    /// The settings so far.
    pub fn settings(&self) -> (r: &ServerSettings)
        ensures
            *r == self.config(),
    {
        &self.settings
    }

    /// Takes the builder apart for building: what makes the listener, the
    /// token that stops the server, and the settings.
    pub fn into_parts(self) -> (r: (L, tokio_util::sync::CancellationToken, ServerSettings))
        ensures
            r.2 == self.config(),
    {
        (self.listener_builder, self.cancellation_token, self.settings)
    }
}

} // verus!
