//! What the daemon and the Android app tell each other, and the decisions that the
//! bridge between them takes.
use crate::config::texts;
use std::collections::HashMap;
use vstd::prelude::*;
use vstd::string::StringExecFns;

verus! {

/// What a device says of itself when it registers.
#[derive(Clone, Debug, PartialEq, Eq)]
pub struct DeviceInfo {
    pub device_id: String,
    pub device_name: String,
    pub os_version: String,
    pub app_version: String,
    pub hardware_info: HashMap<String, String>,
}

/// The state of a device. Times are seconds since the epoch.
#[derive(Clone, Debug, PartialEq, Eq)]
pub struct DeviceStatus {
    pub online: bool,
    pub last_backup: Option<u64>,
    pub storage_usage: StorageInfo,
    pub network_status: NetworkStatus,
}

/// Storage in bytes.
#[derive(Clone, Copy, Debug, PartialEq, Eq, Structural)]
pub struct StorageInfo {
    pub total_space: u64,
    pub free_space: u64,
    pub backup_usage: u64,
}

#[derive(Clone, Debug, PartialEq, Eq)]
pub struct NetworkStatus {
    pub connected: bool,
    pub connection_type: String,
    pub signal_strength: i32,
}

/// How a backup is to be made.
#[derive(Clone, Debug, PartialEq, Eq)]
pub struct BackupOptions {
    pub incremental: bool,
    pub compression: bool,
    pub encryption: bool,
    pub priority: u8,
    pub exclude_patterns: Vec<String>,
}

/// A file as it is listed. Times are seconds since the epoch.
#[derive(Clone, Debug, PartialEq, Eq)]
pub struct FileInfo {
    pub path: String,
    pub size: u64,
    pub modified: u64,
    pub file_type: String,
    pub backed_up: bool,
    pub backup_time: Option<u64>,
}

/// The answer to an authentication request.
#[derive(Clone, Debug, PartialEq, Eq)]
pub struct AuthOutcome {
    pub success: bool,
    pub device_id: String,
}

/// An error as it is sent to the app.
#[derive(Clone, Debug, PartialEq, Eq)]
pub struct ErrorReply {
    pub code: u32,
    pub message: String,
}

/// A connected client, and for how long nothing has been heard of it.
#[derive(Clone, Debug, PartialEq, Eq)]
pub struct Heartbeat {
    pub client_id: String,
    pub idle_nanos: u128,
}

/// The code of the error that says that a backup could not be started.
pub const BACKUP_FAILED: u32 = 1001;

/// The code of the error that says that files could not be listed.
pub const LISTING_FAILED: u32 = 1002;

/// The memory that the daemon reports to use, in bytes.
pub const REPORTED_MEMORY: u64 = 64 * 1024 * 1024;

/// A client is stale when it has been idle for longer than the timeout.
pub open spec fn is_stale(idle_nanos: u128, timeout_seconds: u64) -> bool {
    idle_nanos > timeout_seconds * 1_000_000_000
}

/// The ids of the stale clients among the first `n`, in the order of the list.
pub open spec fn stale_ids(clients: Seq<Heartbeat>, timeout_seconds: u64, n: nat) -> Seq<
    Seq<char>,
>
    decreases n,
{
    if n == 0 {
        Seq::empty()
    } else if is_stale(clients[n - 1].idle_nanos, timeout_seconds) {
        stale_ids(clients, timeout_seconds, (n - 1) as nat).push(clients[n - 1].client_id@)
    } else {
        stale_ids(clients, timeout_seconds, (n - 1) as nat)
    }
}

/// Decides on an authentication request: the token has to be the configured one. A
/// device that is let in gets the fresh id; one that is not is called `unauthorized`.
pub fn auth_response(token: &str, auth_token: &str, fresh_id: String) -> (outcome: AuthOutcome)
    ensures
        outcome.success == (token@ == auth_token@),
        outcome.device_id@ == if token@ == auth_token@ {
            fresh_id@
        } else {
            "unauthorized"@
        },
{
    let success = token.eq(auth_token);
    let device_id = if success {
        fresh_id
    } else {
        "unauthorized".to_owned()
    };
    AuthOutcome { success, device_id }
}

/// The error that is sent when a backup could not be started.
pub fn backup_failure(detail: &str) -> (reply: ErrorReply)
    ensures
        reply.code == BACKUP_FAILED,
        reply.message@ == "Failed to start backup: "@ + detail@,
{
    ErrorReply { code: BACKUP_FAILED, message: "Failed to start backup: ".to_owned().concat(detail) }
}

/// The error that is sent when files could not be listed.
pub fn listing_failure(detail: &str) -> (reply: ErrorReply)
    ensures
        reply.code == LISTING_FAILED,
        reply.message@ == "Failed to list files: "@ + detail@,
{
    ErrorReply { code: LISTING_FAILED, message: "Failed to list files: ".to_owned().concat(detail) }
}

/// A service of the backup system and whether it is up.
#[derive(Clone, Debug, PartialEq, Eq)]
pub struct ServiceState {
    pub name: String,
    pub up: bool,
}

/// The services that are reported, with their states: all up but the encryption service.
pub open spec fn reported_services() -> Seq<(Seq<char>, bool)> {
    seq![
        ("backup_engine"@, true),
        ("storage_hal"@, true),
        ("compression_engine"@, true),
        ("encryption_service"@, false),
        ("ml_optimizer"@, true),
    ]
}

/// The names and states of a list of services.
pub open spec fn states(services: Seq<ServiceState>) -> Seq<(Seq<char>, bool)> {
    Seq::new(services.len(), |i: int| (services[i].name@, services[i].up))
}

/// The state of each service that the daemon reports on.
pub fn services_status() -> (services: Vec<ServiceState>)
    ensures
        states(services@) == reported_services(),
{
    let mut services: Vec<ServiceState> = Vec::new();
    services.push(ServiceState { name: "backup_engine".to_owned(), up: true });
    services.push(ServiceState { name: "storage_hal".to_owned(), up: true });
    services.push(ServiceState { name: "compression_engine".to_owned(), up: true });
    services.push(ServiceState { name: "encryption_service".to_owned(), up: false });
    services.push(ServiceState { name: "ml_optimizer".to_owned(), up: true });
    assert(states(services@) =~= reported_services());
    services
}

/// The time after which a silent client is dropped: two heartbeat intervals, or the
/// largest number of seconds where that is too large.
pub fn heartbeat_timeout(heartbeat_interval: u64) -> (timeout: u64)
    ensures
        timeout == if heartbeat_interval * 2 <= u64::MAX {
            heartbeat_interval * 2
        } else {
            u64::MAX as int
        },
{
    if heartbeat_interval > u64::MAX / 2 {
        u64::MAX
    } else {
        heartbeat_interval * 2
    }
}

/// The clients to drop: those that have been idle for longer than the timeout.
pub fn stale_clients(clients: &Vec<Heartbeat>, timeout_seconds: u64) -> (stale: Vec<String>)
    ensures
        texts(stale@) == stale_ids(clients@, timeout_seconds, clients@.len()),
{
    let limit: u128 = timeout_seconds as u128 * 1_000_000_000;
    let mut stale: Vec<String> = Vec::new();
    let mut i: usize = 0;
    while i < clients.len()
        invariant
            i <= clients@.len(),
            limit == timeout_seconds * 1_000_000_000,
            texts(stale@) =~= stale_ids(clients@, timeout_seconds, i as nat),
        decreases clients@.len() - i,
    {
        if clients[i].idle_nanos > limit {
            stale.push(clients[i].client_id.clone());
        }
        i += 1;
    }
    stale
}

} // verus!
