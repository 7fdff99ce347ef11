use vstd::prelude::*;

verus! {

/// Live connection state of one OBS instance.
pub enum ConnectionStatus {
    Disabled,
    Connecting,
    Connected { obs_version: String, websocket_version: String },
    AuthFailed { message: String },
    Unreachable { message: String },
}

impl ConnectionStatus {
    pub fn is_connected(&self) -> (b: bool)
        ensures
            b == (*self is Connected),
    {
        matches!(self, Self::Connected { .. })
    }
}

impl Clone for ConnectionStatus {
    fn clone(&self) -> (c: Self)
        ensures
            c == *self,
    {
        match self {
            ConnectionStatus::Disabled => ConnectionStatus::Disabled,
            ConnectionStatus::Connecting => ConnectionStatus::Connecting,
            ConnectionStatus::Connected { obs_version, websocket_version } => ConnectionStatus::Connected {
                obs_version: obs_version.clone(),
                websocket_version: websocket_version.clone(),
            },
            ConnectionStatus::AuthFailed { message } => ConnectionStatus::AuthFailed {
                message: message.clone(),
            },
            ConnectionStatus::Unreachable { message } => ConnectionStatus::Unreachable {
                message: message.clone(),
            },
        }
    }
}

/// Snapshot pushed to the property inspector.
pub struct InstanceStatus {
    pub id: String,
    pub name: String,
    pub color: String,
    pub host: String,
    pub port: u16,
    pub enabled: bool,
    pub status: ConnectionStatus,
}

} // verus!
