use yuha_core::error::TransportError;
use yuha_core::transport::ConnectionState;
use yuha_core::transport::TransportCapabilities;
use yuha_core::transport::TransportType;

#[test]
fn test_kind_round_trip_canonical_strings() {
    let cases = [
        (TransportType::Ssh, "ssh"),
        (TransportType::Local, "local"),
        (TransportType::Tcp, "tcp"),
        (TransportType::Wsl, "wsl"),
    ];
    for (kind, name) in cases {
        assert_eq!(kind.to_canonical_string(), name);
        assert_eq!(TransportType::parse(name), Ok(kind));
    }
}

#[test]
fn test_parse_is_case_insensitive() {
    assert_eq!(TransportType::parse("SSH"), Ok(TransportType::Ssh));
    assert_eq!(TransportType::parse("Local"), Ok(TransportType::Local));
    assert_eq!(TransportType::parse("tCp"), Ok(TransportType::Tcp));
    assert_eq!(TransportType::parse("WSL"), Ok(TransportType::Wsl));
}

#[test]
fn test_parse_rejects_unknown_kind() {
    let r = TransportType::parse("bogus");
    match r {
        Err(TransportError::ConfigurationError { reason }) => {
            assert_eq!(reason, "Unknown transport type: bogus");
        }
        other => panic!("expected a configuration error, got {:?}", other),
    }
    assert!(TransportType::parse("").is_err());
    assert!(TransportType::parse("ssh ").is_err());
    assert!(TransportType::parse("l0cal").is_err());
}

#[test]
fn test_capability_table() {
    let ssh = TransportCapabilities::for_transport_type(TransportType::Ssh);
    assert!(ssh.auto_upload);
    assert!(ssh.port_forwarding);
    assert!(ssh.secure);
    assert!(!ssh.platform_specific);
    assert!(ssh.reconnectable);
    assert!(ssh.multiplexing);

    let local = TransportCapabilities::for_transport_type(TransportType::Local);
    assert!(!local.auto_upload);
    assert!(!local.port_forwarding);
    assert!(!local.secure);
    assert!(!local.platform_specific);
    assert!(!local.reconnectable);
    assert!(!local.multiplexing);

    let tcp = TransportCapabilities::for_transport_type(TransportType::Tcp);
    assert!(!tcp.auto_upload);
    assert!(!tcp.port_forwarding);
    assert!(!tcp.secure);
    assert!(!tcp.platform_specific);
    assert!(tcp.reconnectable);
    assert!(!tcp.multiplexing);

    let wsl = TransportCapabilities::for_transport_type(TransportType::Wsl);
    assert!(!wsl.auto_upload);
    assert!(!wsl.port_forwarding);
    assert!(!wsl.secure);
    assert!(wsl.platform_specific);
    assert!(!wsl.reconnectable);
    assert!(!wsl.multiplexing);
}

#[test]
fn test_connection_state_transitions() {
    let ssh = TransportCapabilities::for_transport_type(TransportType::Ssh);
    let local = TransportCapabilities::for_transport_type(TransportType::Local);

    assert!(ConnectionState::Disconnected.transition_allowed(ConnectionState::Connecting, &ssh));
    assert!(ConnectionState::Connecting.transition_allowed(ConnectionState::Connected, &ssh));
    assert!(ConnectionState::Connecting.transition_allowed(ConnectionState::Failed, &ssh));
    assert!(ConnectionState::Connected.transition_allowed(ConnectionState::Disconnected, &ssh));
    assert!(ConnectionState::Reconnecting.transition_allowed(ConnectionState::Connecting, &ssh));
    assert!(ConnectionState::Reconnecting.transition_allowed(ConnectionState::Failed, &ssh));

    // An I/O failure on a reconnectable transport goes to Reconnecting, on
    // any other to Failed.
    assert!(ConnectionState::Connected.transition_allowed(ConnectionState::Reconnecting, &ssh));
    assert!(!ConnectionState::Connected.transition_allowed(ConnectionState::Failed, &ssh));
    assert!(!ConnectionState::Connected.transition_allowed(ConnectionState::Reconnecting, &local));
    assert!(ConnectionState::Connected.transition_allowed(ConnectionState::Failed, &local));

    // Failed and Disconnected are terminal but for a fresh connect.
    assert!(!ConnectionState::Failed.transition_allowed(ConnectionState::Connecting, &ssh));
    assert!(!ConnectionState::Failed.transition_allowed(ConnectionState::Connected, &ssh));
    assert!(!ConnectionState::Disconnected.transition_allowed(ConnectionState::Connected, &ssh));
    assert!(!ConnectionState::Connecting.transition_allowed(ConnectionState::Reconnecting, &ssh));
}

#[test]
fn test_connection_state_display_names() {
    assert_eq!(ConnectionState::Disconnected.to_display_string(), "disconnected");
    assert_eq!(ConnectionState::Connecting.to_display_string(), "connecting");
    assert_eq!(ConnectionState::Connected.to_display_string(), "connected");
    assert_eq!(ConnectionState::Failed.to_display_string(), "failed");
    assert_eq!(ConnectionState::Reconnecting.to_display_string(), "reconnecting");
}
