use vstd::prelude::*;

verus! {

/// One source the registration response offers: whether it is enabled, its
/// label, and the path of the file to tail.
#[derive(Clone, Debug)]
pub struct SourceEntry {
    pub enabled: bool,
    pub label: String,
    pub path: String,
}

/// The registration call's request: the project key, this host's identity,
/// and — when one was persisted — the agent identifier whose continuity is
/// requested.
#[derive(Clone, Debug)]
pub struct RegisterRequest {
    pub project_key: String,
    pub hostname: String,
    pub os: String,
    pub os_version: String,
    pub agent_uuid: Option<String>,
}

/// The registration call's response: fresh credentials and the settings the
/// service assigns.
#[derive(Clone, Debug)]
pub struct RegisterResponse {
    pub success: bool,
    pub access_token: String,
    pub refresh_token: String,
    pub agent_uuid: String,
    pub batch_size: u32,
    pub flush_interval_sec: u64,
    pub heartbeat_interval_sec: u64,
    pub sources: Vec<SourceEntry>,
}

/// The token-refresh call's request.
#[derive(Clone, Debug)]
pub struct RefreshRequest {
    pub refresh_token: String,
}

/// The token-refresh call's response: a fresh access token and, when the
/// service rotates it, a replacement refresh token (empty means no rotation).
#[derive(Clone, Debug)]
pub struct RefreshResponse {
    pub success: bool,
    pub access_token: String,
    pub refresh_token: String,
}

} // verus!
