use mq_bridge::transport::{TransportKind, TransportUrl, TransportUrlErrorKind};

fn parse(url: &str) -> Result<TransportUrl, mq_bridge::transport::TransportUrlError> {
    TransportUrl::parse(url, "/run/mq-bridge")
}

#[test]
fn test_parse_memory_url() {
    match parse("memory://test-topic").unwrap() {
        TransportUrl::Memory { namespace } => assert_eq!(namespace, "test-topic"),
        other => panic!("unexpected {other:?}"),
    }
}

#[test]
fn test_parse_legacy_topic() {
    match parse("test-topic").unwrap() {
        TransportUrl::Memory { namespace } => assert_eq!(namespace, "test-topic"),
        other => panic!("unexpected {other:?}"),
    }
}

#[test]
fn test_parse_unix_socket() {
    match parse("unix:///tmp/test.sock").unwrap() {
        TransportUrl::Unix { path } => assert_eq!(path, "/tmp/test.sock"),
        other => panic!("unexpected {other:?}"),
    }
}

#[test]
fn test_parse_ipc_named() {
    let url = parse("ipc://worker").unwrap();
    match url {
        TransportUrl::Unix { path } => {
            assert!(path.contains("worker.sock"));
            assert_eq!(path, "/run/mq-bridge/worker.sock");
        }
        _ => panic!("Expected Unix transport"),
    }
}

#[test]
fn test_parse_ipc_absolute() {
    match parse("ipc:///var/run/test.sock").unwrap() {
        TransportUrl::Unix { path } => assert_eq!(path, "/var/run/test.sock"),
        other => panic!("unexpected {other:?}"),
    }
}

#[test]
fn test_parse_empty_url() {
    let result = parse("");
    assert!(result.is_err());
    assert_eq!(result.unwrap_err().message(), "Transport URL cannot be empty");
}

#[test]
fn test_parse_unknown_scheme() {
    let result = parse("http://test");
    assert!(result.is_err());
    let err = result.unwrap_err();
    assert_eq!(err.kind, TransportUrlErrorKind::UnknownScheme);
    assert_eq!(err.message(), "Unknown transport scheme: http");
}

#[test]
fn relative_unix_paths_and_empty_names_are_refused() {
    assert_eq!(parse("unix://tmp/x").unwrap_err().message(), "Unix socket path must be absolute: unix://tmp/x");
    assert_eq!(parse("memory://").unwrap_err().kind, TransportUrlErrorKind::EmptyNamespace);
    assert_eq!(parse("ipc://").unwrap_err().kind, TransportUrlErrorKind::EmptyIpcName);
}

#[test]
fn only_named_ipc_urls_need_the_socket_directory() {
    assert!(TransportUrl::needs_socket_dir("ipc://worker"));
    assert!(!TransportUrl::needs_socket_dir("ipc:///abs"));
    assert!(!TransportUrl::needs_socket_dir("memory://x"));
    assert!(!TransportUrl::needs_socket_dir("worker"));
}

#[test]
fn display_names_parse_back() {
    for url in ["memory://jobs", "unix:///tmp/a.sock", "jobs"] {
        let parsed = parse(url).unwrap();
        let shown = parsed.display_name();
        let again = parse(&shown).unwrap();
        assert_eq!(again.display_name(), shown);
        assert_eq!(again.namespace(), parsed.namespace());
    }
    let _ = TransportKind::Memory;
}

#[test]
fn test_parse_pipe() {
    match TransportUrl::parse_windows("pipe://worker").unwrap() {
        TransportUrl::Pipe { name } => assert_eq!(name, "worker"),
        other => panic!("unexpected {other:?}"),
    }
}

#[test]
fn test_parse_ipc_windows() {
    match TransportUrl::parse_windows("ipc://worker").unwrap() {
        TransportUrl::Pipe { name } => assert_eq!(name, "mq-bridge-worker"),
        other => panic!("unexpected {other:?}"),
    }
}

#[test]
fn windows_has_no_unix_sockets_and_needs_a_pipe_name() {
    assert_eq!(TransportUrl::parse_windows("unix:///tmp/x").unwrap_err().kind, TransportUrlErrorKind::UnknownScheme);
    let err = TransportUrl::parse_windows("pipe://").unwrap_err();
    assert_eq!(err.kind, TransportUrlErrorKind::EmptyPipeName);
    assert_eq!(err.message(), "Pipe name cannot be empty");
    let pipe = TransportUrl::parse_windows("ipc://worker").unwrap();
    assert_eq!(pipe.display_name(), "pipe://mq-bridge-worker");
    assert_eq!(pipe.namespace(), "mq-bridge-worker");
    match TransportUrl::parse_windows(&pipe.display_name()).unwrap() {
        TransportUrl::Pipe { name } => assert_eq!(name, "mq-bridge-worker"),
        other => panic!("unexpected {other:?}"),
    }
    assert_eq!(parse("pipe://worker").unwrap_err().kind, TransportUrlErrorKind::UnknownScheme);
}

#[test]
fn named_sockets_go_to_the_first_usable_directory() {
    assert_eq!(mq_bridge::transport::ipc_socket_dir(true, Some("/run/user/1000"), true), "/run/mq-bridge");
    assert_eq!(mq_bridge::transport::ipc_socket_dir(false, Some("/run/user/1000"), true), "/run/user/1000/mq-bridge");
    assert_eq!(mq_bridge::transport::ipc_socket_dir(false, Some("/run/user/1000/"), true), "/run/user/1000/mq-bridge");
    assert_eq!(mq_bridge::transport::ipc_socket_dir(false, Some("/run/user/1000"), false), "/tmp/mq-bridge");
    assert_eq!(mq_bridge::transport::ipc_socket_dir(false, None, false), "/tmp/mq-bridge");
}
