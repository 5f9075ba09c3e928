//! Transport kinds, their capability table, and the connection state machine.
//!
//! A `TransportType` names one of the four interchangeable mechanisms a
//! connection can run over. Its canonical lowercase string is the only
//! serialized form; parsing is case-insensitive. `TransportCapabilities` is a
//! pure, table-driven record of what each kind supports, and
//! `ConnectionState` carries the legal transition graph that an external
//! connection manager must respect.

use crate::error::TransportError;
use vstd::prelude::*;
use vstd::string::StrSliceExecFns;
use vstd::string::StringExecFns;

verus! {

/// One of the four supported connection mechanisms.
#[derive(Debug, Clone, Copy, PartialEq, Eq, Hash, Structural)]
pub enum TransportType {
    /// Secure-shell tunnel to a remote host.
    Ssh,
    /// Local subprocess pipe.
    Local,
    /// Direct network socket.
    Tcp,
    /// Host/guest subsystem bridge.
    Wsl,
}

/// ASCII lowercase of one character; characters outside `A..=Z` are
/// unchanged.
pub open spec fn lower_char(c: char) -> char {
    if 'A' <= c && c <= 'Z' {
        (((c as u8) + 32) as u8) as char
    } else {
        c
    }
}

/// A string folded to ASCII lowercase, character by character.
pub open spec fn lowered(s: Seq<char>) -> Seq<char> {
    s.map_values(|c: char| lower_char(c))
}

/// The canonical lowercase string of a kind: its only serialized form.
pub open spec fn canonical_name(k: TransportType) -> Seq<char> {
    match k {
        TransportType::Ssh => "ssh"@,
        TransportType::Local => "local"@,
        TransportType::Tcp => "tcp"@,
        TransportType::Wsl => "wsl"@,
    }
}

/// Case-insensitive parsing: a string names a kind exactly when its
/// lowercase form is that kind's canonical name.
pub open spec fn spec_parse(s: Seq<char>) -> Option<TransportType> {
    if lowered(s) == canonical_name(TransportType::Ssh) {
        Some(TransportType::Ssh)
    } else if lowered(s) == canonical_name(TransportType::Local) {
        Some(TransportType::Local)
    } else if lowered(s) == canonical_name(TransportType::Tcp) {
        Some(TransportType::Tcp)
    } else if lowered(s) == canonical_name(TransportType::Wsl) {
        Some(TransportType::Wsl)
    } else {
        None
    }
}

/// The reason string of a configuration error, naming the offending input.
pub open spec fn config_error_reason(s: Seq<char>) -> Seq<char> {
    "Unknown transport type: "@ + s
}

/// The four canonical names are pairwise distinct.
proof fn lemma_names_distinct()
    ensures
        "ssh"@ != "local"@,
        "ssh"@ != "tcp"@,
        "ssh"@ != "wsl"@,
        "local"@ != "tcp"@,
        "local"@ != "wsl"@,
        "tcp"@ != "wsl"@,
{
    reveal_strlit("ssh");
    reveal_strlit("local");
    reveal_strlit("tcp");
    reveal_strlit("wsl");
    assert("ssh"@.len() == 3 && "local"@.len() == 5 && "tcp"@.len() == 3 && "wsl"@.len() == 3);
    assert("ssh"@[0] == 's' && "tcp"@[0] == 't' && "wsl"@[0] == 'w');
}

/// ASCII lowercase of one character, as [`lower_char`] gives it.
fn to_lower(c: char) -> (r: char)
    ensures
        r == lower_char(c),
{
    if 'A' <= c && c <= 'Z' {
        ((c as u8) + 32) as char
    } else {
        c
    }
}

impl TransportType {
    /// Parse a transport kind from its configuration string,
    /// case-insensitively. Any string that lowercases to none of the four
    /// canonical names fails with a `ConfigurationError` naming it.
    pub fn parse(s: &str) -> (r: Result<TransportType, TransportError>)
        ensures
            match r {
                Ok(k) => spec_parse(s@) == Some(k),
                Err(e) => spec_parse(s@) is None && (e
                    matches TransportError::ConfigurationError { reason } && reason@
                    == config_error_reason(s@)),
            },
    {
        proof {
            reveal_strlit("ssh");
            reveal_strlit("local");
            reveal_strlit("tcp");
            reveal_strlit("wsl");
            lemma_names_distinct();
        }
        let n = s.unicode_len();
        if n == 3 {
            let c0 = to_lower(s.get_char(0));
            let c1 = to_lower(s.get_char(1));
            let c2 = to_lower(s.get_char(2));
            proof {
                assert(lowered(s@).len() == 3);
                assert(lowered(s@)[0] == c0 && lowered(s@)[1] == c1 && lowered(s@)[2] == c2);
            }
            if c0 == 's' && c1 == 's' && c2 == 'h' {
                proof {
                    assert(lowered(s@) =~= "ssh"@);
                }
                return Ok(TransportType::Ssh);
            }
            if c0 == 't' && c1 == 'c' && c2 == 'p' {
                proof {
                    assert(lowered(s@) =~= "tcp"@);
                }
                return Ok(TransportType::Tcp);
            }
            if c0 == 'w' && c1 == 's' && c2 == 'l' {
                proof {
                    assert(lowered(s@) =~= "wsl"@);
                }
                return Ok(TransportType::Wsl);
            }
            proof {
                assert(spec_parse(s@) is None);
            }
        } else if n == 5 {
            let c0 = to_lower(s.get_char(0));
            let c1 = to_lower(s.get_char(1));
            let c2 = to_lower(s.get_char(2));
            let c3 = to_lower(s.get_char(3));
            let c4 = to_lower(s.get_char(4));
            proof {
                assert(lowered(s@).len() == 5);
                assert(lowered(s@)[0] == c0 && lowered(s@)[1] == c1 && lowered(s@)[2] == c2
                    && lowered(s@)[3] == c3 && lowered(s@)[4] == c4);
            }
            if c0 == 'l' && c1 == 'o' && c2 == 'c' && c3 == 'a' && c4 == 'l' {
                proof {
                    assert(lowered(s@) =~= "local"@);
                }
                return Ok(TransportType::Local);
            }
            proof {
                assert(spec_parse(s@) is None);
            }
        } else {
            proof {
                assert(lowered(s@).len() == s@.len());
                assert(spec_parse(s@) is None);
            }
        }
        let mut reason = "Unknown transport type: ".to_owned();
        reason.append(s);
        Err(TransportError::ConfigurationError { reason })
    }

    /// The canonical lowercase string of this kind; the exact inverse of
    /// [`TransportType::parse`].
    pub fn to_canonical_string(&self) -> (r: String)
        ensures
            r@ == canonical_name(*self),
    {
        match self {
            TransportType::Ssh => "ssh".to_owned(),
            TransportType::Local => "local".to_owned(),
            TransportType::Tcp => "tcp".to_owned(),
            TransportType::Wsl => "wsl".to_owned(),
        }
    }
}

/// Kind round trip: parsing the canonical string of any kind yields exactly
/// that kind, so serialization and parsing are mutual inverses.
pub proof fn lemma_kind_round_trip(k: TransportType)
    ensures
        spec_parse(canonical_name(k)) == Some(k),
{
    reveal_strlit("ssh");
    reveal_strlit("local");
    reveal_strlit("tcp");
    reveal_strlit("wsl");
    lemma_names_distinct();
    match k {
        TransportType::Ssh => {
            assert(lowered("ssh"@) =~= "ssh"@);
        },
        TransportType::Local => {
            assert(lowered("local"@) =~= "local"@);
        },
        TransportType::Tcp => {
            assert(lowered("tcp"@) =~= "tcp"@);
        },
        TransportType::Wsl => {
            assert(lowered("wsl"@) =~= "wsl"@);
        },
    }
}

/// Feature flags of a transport kind, derived purely from the kind.
#[derive(Debug, Clone, PartialEq, Eq, Structural)]
pub struct TransportCapabilities {
    /// Supports automatic binary upload.
    pub auto_upload: bool,
    /// Supports port forwarding.
    pub port_forwarding: bool,
    /// Supports secure connections.
    pub secure: bool,
    /// Platform-specific transport.
    pub platform_specific: bool,
    /// Supports reconnection.
    pub reconnectable: bool,
    /// Supports multiplexing.
    pub multiplexing: bool,
}

/// The capability table: the single source of truth for what each kind
/// supports.
pub open spec fn spec_capabilities(t: TransportType) -> TransportCapabilities {
    match t {
        TransportType::Ssh => (TransportCapabilities {
            auto_upload: true,
            port_forwarding: true,
            secure: true,
            platform_specific: false,
            reconnectable: true,
            multiplexing: true,
        }),
        TransportType::Local => (TransportCapabilities {
            auto_upload: false,
            port_forwarding: false,
            secure: false,
            platform_specific: false,
            reconnectable: false,
            multiplexing: false,
        }),
        TransportType::Tcp => (TransportCapabilities {
            auto_upload: false,
            port_forwarding: false,
            secure: false,
            platform_specific: false,
            reconnectable: true,
            multiplexing: false,
        }),
        TransportType::Wsl => (TransportCapabilities {
            auto_upload: false,
            port_forwarding: false,
            secure: false,
            platform_specific: true,
            reconnectable: false,
            multiplexing: false,
        }),
    }
}

impl TransportCapabilities {
    /// Get the capabilities of a transport kind, exactly as the table gives
    /// them. Total over all four kinds.
    pub fn for_transport_type(transport_type: TransportType) -> (r: Self)
        ensures
            r == spec_capabilities(transport_type),
    {
        match transport_type {
            TransportType::Ssh => Self {
                auto_upload: true,
                port_forwarding: true,
                secure: true,
                platform_specific: false,
                reconnectable: true,
                multiplexing: true,
            },
            TransportType::Local => Self {
                auto_upload: false,
                port_forwarding: false,
                secure: false,
                platform_specific: false,
                reconnectable: false,
                multiplexing: false,
            },
            TransportType::Tcp => Self {
                auto_upload: false,
                port_forwarding: false,
                secure: false,
                platform_specific: false,
                reconnectable: true,
                multiplexing: false,
            },
            TransportType::Wsl => Self {
                auto_upload: false,
                port_forwarding: false,
                secure: false,
                platform_specific: true,
                reconnectable: false,
                multiplexing: false,
            },
        }
    }
}

/// State of a logical connection, owned by an external connection manager.
#[derive(Debug, Clone, Copy, PartialEq, Eq, Structural)]
pub enum ConnectionState {
    /// Not connected (initial).
    Disconnected,
    /// Connecting in progress.
    Connecting,
    /// Connected and ready.
    Connected,
    /// Connection failed.
    Failed,
    /// Reconnecting after failure.
    Reconnecting,
}

/// The lowercase display name of a connection state.
pub open spec fn state_display_name(s: ConnectionState) -> Seq<char> {
    match s {
        ConnectionState::Disconnected => "disconnected"@,
        ConnectionState::Connecting => "connecting"@,
        ConnectionState::Connected => "connected"@,
        ConnectionState::Failed => "failed"@,
        ConnectionState::Reconnecting => "reconnecting"@,
    }
}

/// The legal transition graph of the connection state machine. A connected
/// channel that hits a transport-level failure may move to `Reconnecting`
/// only when its transport is reconnectable; otherwise it moves to `Failed`.
pub open spec fn spec_transition_allowed(
    from: ConnectionState,
    to: ConnectionState,
    reconnectable: bool,
) -> bool {
    match (from, to) {
        (ConnectionState::Disconnected, ConnectionState::Connecting) => true,
        (ConnectionState::Connecting, ConnectionState::Connected) => true,
        (ConnectionState::Connecting, ConnectionState::Failed) => true,
        (ConnectionState::Connected, ConnectionState::Disconnected) => true,
        (ConnectionState::Connected, ConnectionState::Reconnecting) => reconnectable,
        (ConnectionState::Connected, ConnectionState::Failed) => !reconnectable,
        (ConnectionState::Reconnecting, ConnectionState::Connecting) => true,
        (ConnectionState::Reconnecting, ConnectionState::Failed) => true,
        _ => false,
    }
}

impl ConnectionState {
    /// Whether moving from this state to `to` is a legal transition for a
    /// transport with the given capabilities.
    pub fn transition_allowed(self, to: ConnectionState, caps: &TransportCapabilities) -> (r: bool)
        ensures
            r == spec_transition_allowed(self, to, caps.reconnectable),
    {
        match (self, to) {
            (ConnectionState::Disconnected, ConnectionState::Connecting) => true,
            (ConnectionState::Connecting, ConnectionState::Connected) => true,
            (ConnectionState::Connecting, ConnectionState::Failed) => true,
            (ConnectionState::Connected, ConnectionState::Disconnected) => true,
            (ConnectionState::Connected, ConnectionState::Reconnecting) => caps.reconnectable,
            (ConnectionState::Connected, ConnectionState::Failed) => !caps.reconnectable,
            (ConnectionState::Reconnecting, ConnectionState::Connecting) => true,
            (ConnectionState::Reconnecting, ConnectionState::Failed) => true,
            _ => false,
        }
    }

    /// The lowercase display name of this state, for configuration and logs.
    pub fn to_display_string(&self) -> (r: String)
        ensures
            r@ == state_display_name(*self),
    {
        match self {
            ConnectionState::Disconnected => "disconnected".to_owned(),
            ConnectionState::Connecting => "connecting".to_owned(),
            ConnectionState::Connected => "connected".to_owned(),
            ConnectionState::Failed => "failed".to_owned(),
            ConnectionState::Reconnecting => "reconnecting".to_owned(),
        }
    }
}

} // verus!

