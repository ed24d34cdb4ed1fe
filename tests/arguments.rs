use std::str::FromStr as _;

use kobo_server::{CommandLineArguments, ServerBuilder, TokioTcpListener};

#[test]
fn test_default_log_level_is_valid() {
    let args = CommandLineArguments::default();
    assert!(tracing::Level::from_str(&args.log_level).is_ok());
}

#[test]
fn default_arguments() {
    let args = CommandLineArguments::default();
    assert_eq!(args.log_level, "info");
    assert_eq!(args.port, 8089);
    assert!(args.frontend_url.is_none());
    assert!(!args.enable_request_logging);
    assert!(!args.enable_response_logging);
}

#[test]
fn frontend_url_defaults_to_localhost_on_the_port() {
    let mut args = CommandLineArguments::default();
    assert_eq!(args.frontend_url_or_default(), "http://localhost:8089");
    args.port = 0;
    assert_eq!(args.frontend_url_or_default(), "http://localhost:0");
    args.port = 65535;
    assert_eq!(args.frontend_url_or_default(), "http://localhost:65535");
    args.frontend_url = Some("https://books.example".to_owned());
    assert_eq!(args.frontend_url_or_default(), "https://books.example");
}

#[test]
fn server_builder_sets_frontend_url() {
    let builder = ServerBuilder::new(tokio_util::sync::CancellationToken::new())
        .frontend_url("https://example.test".to_owned());
    assert_eq!(builder.settings().frontend_url, "https://example.test");
}

#[test]
fn server_builder_defaults() {
    let builder = ServerBuilder::new(tokio_util::sync::CancellationToken::new());
    assert_eq!(builder.settings().frontend_url, "http://localhost:8080");
    assert_eq!(builder.settings().port, 8080);
}

#[test]
fn builder_setters_and_listener_swap() {
    let builder = ServerBuilder::new(tokio_util::sync::CancellationToken::new())
        .port(0)
        .enable_request_logging(true)
        .enable_response_logging(true)
        .listener_builder(7u8);
    let (listener, _token, settings) = builder.into_parts();
    assert_eq!(listener, 7u8);
    assert_eq!(settings.port, 0);
    assert!(settings.enable_request_logging);
    assert!(settings.enable_response_logging);
    let _tcp: ServerBuilder<TokioTcpListener> = ServerBuilder::new(tokio_util::sync::CancellationToken::new());
}
