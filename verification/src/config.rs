//! The configuration of the daemon: its sections, its defaults, and the rules that a
//! configuration has to meet.
use vstd::prelude::*;

verus! {

/// The whole configuration.
#[derive(Clone, Debug, PartialEq, Eq)]
pub struct DaemonConfig {
    pub grpc: GrpcConfig,
    pub android: AndroidConfig,
    pub backup: BackupConfig,
    pub filesystem: FilesystemConfig,
    pub kernel: KernelConfig,
    pub logging: LoggingConfig,
}

/// Where the gRPC server listens. Paths are kept as text.
#[derive(Clone, Debug, PartialEq, Eq)]
pub struct GrpcConfig {
    pub host: String,
    pub port: u16,
    pub tls_enabled: bool,
    pub cert_path: Option<String>,
    pub key_path: Option<String>,
}

/// The bridge to the Android app.
#[derive(Clone, Debug, PartialEq, Eq)]
pub struct AndroidConfig {
    pub bridge_port: u16,
    pub auth_token: String,
    pub max_connections: u16,
    /// Seconds between two heartbeats.
    pub heartbeat_interval: u64,
}

/// How backups are made and kept.
#[derive(Clone, Debug, PartialEq, Eq)]
pub struct BackupConfig {
    pub backup_root: String,
    /// Bytes per chunk.
    pub chunk_size: usize,
    /// From 0 to 9.
    pub compression_level: u8,
    pub encryption: EncryptionConfig,
    pub retention: RetentionConfig,
    pub services: ServiceEndpoints,
}

#[derive(Clone, Debug, PartialEq, Eq)]
pub struct EncryptionConfig {
    pub enabled: bool,
    pub algorithm: String,
    pub key_rotation_days: u32,
}

#[derive(Clone, Copy, Debug, PartialEq, Eq, Structural)]
pub struct RetentionConfig {
    pub full_backup_days: u32,
    pub incremental_backup_days: u32,
    pub max_versions: u32,
}

/// The addresses of the services that the daemon talks to.
#[derive(Clone, Debug, PartialEq, Eq)]
pub struct ServiceEndpoints {
    pub backup_engine: String,
    pub storage_hal: String,
    pub compression_engine: String,
    pub encryption_service: String,
    pub deduplication_service: String,
    pub ml_optimizer: String,
    pub sync_coordinator: String,
}

/// What is watched in the file system. Intervals are in seconds.
#[derive(Clone, Debug, PartialEq, Eq)]
pub struct FilesystemConfig {
    pub watch_paths: Vec<String>,
    pub exclude_patterns: Vec<String>,
    pub scan_interval: u64,
    pub debounce_delay: u64,
}

/// The kernel module and what it is used for.
#[derive(Clone, Debug, PartialEq, Eq)]
pub struct KernelConfig {
    pub module_enabled: bool,
    pub module_file: String,
    pub snapshot_enabled: bool,
    pub cow_enabled: bool,
}

#[derive(Clone, Debug, PartialEq, Eq)]
pub struct LoggingConfig {
    pub level: String,
    pub file_path: Option<String>,
    /// Bytes per log file.
    pub max_file_size: u64,
    pub max_files: u32,
}

/// The texts of a list of strings.
pub open spec fn texts(list: Seq<String>) -> Seq<Seq<char>> {
    Seq::new(list.len(), |i: int| list[i]@)
}

/// The default gRPC section: the local host, port 50051, no TLS.
pub open spec fn is_default_grpc(grpc: GrpcConfig) -> bool {
    &&& grpc.host@ == "127.0.0.1"@
    &&& grpc.port == 50051
    &&& !grpc.tls_enabled
    &&& grpc.cert_path is None
    &&& grpc.key_path is None
}

/// The default Android section.
pub open spec fn is_default_android(android: AndroidConfig) -> bool {
    &&& android.bridge_port == 8080
    &&& android.auth_token@ == "default-token"@
    &&& android.max_connections == 10
    &&& android.heartbeat_interval == 30
}

/// The default service addresses: ports 8001 to 8007 on the local host.
pub open spec fn is_default_services(services: ServiceEndpoints) -> bool {
    &&& services.backup_engine@ == "http://localhost:8001"@
    &&& services.storage_hal@ == "http://localhost:8002"@
    &&& services.compression_engine@ == "http://localhost:8003"@
    &&& services.encryption_service@ == "http://localhost:8004"@
    &&& services.deduplication_service@ == "http://localhost:8005"@
    &&& services.ml_optimizer@ == "http://localhost:8006"@
    &&& services.sync_coordinator@ == "http://localhost:8007"@
}

/// The default backup section: chunks of 4 MiB, compression level 6, encryption on.
pub open spec fn is_default_backup(backup: BackupConfig) -> bool {
    &&& backup.backup_root@ == "/data/backups"@
    &&& backup.chunk_size == 4 * 1024 * 1024
    &&& backup.compression_level == 6
    &&& backup.encryption.enabled
    &&& backup.encryption.algorithm@ == "AES-256-GCM"@
    &&& backup.encryption.key_rotation_days == 30
    &&& backup.retention == (RetentionConfig {
        full_backup_days: 30,
        incremental_backup_days: 7,
        max_versions: 10,
    })
    &&& is_default_services(backup.services)
}

/// The default file system section: two watched paths, four excluded patterns.
pub open spec fn is_default_filesystem(filesystem: FilesystemConfig) -> bool {
    &&& texts(filesystem.watch_paths@) == seq!["/sdcard"@, "/data/data"@]
    &&& texts(filesystem.exclude_patterns@) == seq![
        "*.tmp"@,
        "*.log"@,
        ".cache/*"@,
        "node_modules/*"@,
    ]
    &&& filesystem.scan_interval == 300
    &&& filesystem.debounce_delay == 5
}

/// The default kernel section: everything on.
pub open spec fn is_default_kernel(kernel: KernelConfig) -> bool {
    &&& kernel.module_enabled
    &&& kernel.module_file@ == "/system/lib/modules/corestate.ko"@
    &&& kernel.snapshot_enabled
    &&& kernel.cow_enabled
}

/// The default logging section: level `info`, five files of 10 MiB.
pub open spec fn is_default_logging(logging: LoggingConfig) -> bool {
    &&& logging.level@ == "info"@
    &&& logging.file_path is Some
    &&& logging.file_path->Some_0@ == "/data/logs/daemon.log"@
    &&& logging.max_file_size == 10 * 1024 * 1024
    &&& logging.max_files == 5
}

/// The default configuration.
pub open spec fn is_default(config: DaemonConfig) -> bool {
    &&& is_default_grpc(config.grpc)
    &&& is_default_android(config.android)
    &&& is_default_backup(config.backup)
    &&& is_default_filesystem(config.filesystem)
    &&& is_default_kernel(config.kernel)
    &&& is_default_logging(config.logging)
}

/// The first rule that a configuration breaks, as the message that says so.
pub open spec fn first_violation(config: DaemonConfig) -> Option<Seq<char>> {
    if config.grpc.port == 0 {
        Some("gRPC port cannot be 0"@)
    } else if config.android.bridge_port == 0 {
        Some("Android bridge port cannot be 0"@)
    } else if config.backup.chunk_size == 0 {
        Some("Backup chunk size cannot be 0"@)
    } else if config.backup.compression_level > 9 {
        Some("Compression level must be between 0-9"@)
    } else if config.filesystem.watch_paths@.len() == 0 {
        Some("At least one filesystem watch path must be configured"@)
    } else {
        None
    }
}

impl Default for DaemonConfig {
    fn default() -> (config: Self)
        ensures
            is_default(config),
    {
        let mut watch_paths: Vec<String> = Vec::new();
        watch_paths.push("/sdcard".to_owned());
        watch_paths.push("/data/data".to_owned());
        let mut exclude_patterns: Vec<String> = Vec::new();
        exclude_patterns.push("*.tmp".to_owned());
        exclude_patterns.push("*.log".to_owned());
        exclude_patterns.push(".cache/*".to_owned());
        exclude_patterns.push("node_modules/*".to_owned());
        proof {
            assert(texts(watch_paths@) =~= seq!["/sdcard"@, "/data/data"@]);
            assert(texts(exclude_patterns@) =~= seq![
                "*.tmp"@,
                "*.log"@,
                ".cache/*"@,
                "node_modules/*"@,
            ]);
        }
        DaemonConfig {
            grpc: GrpcConfig {
                host: "127.0.0.1".to_owned(),
                port: 50051,
                tls_enabled: false,
                cert_path: None,
                key_path: None,
            },
            android: AndroidConfig {
                bridge_port: 8080,
                auth_token: "default-token".to_owned(),
                max_connections: 10,
                heartbeat_interval: 30,
            },
            backup: BackupConfig {
                backup_root: "/data/backups".to_owned(),
                chunk_size: 4 * 1024 * 1024,
                compression_level: 6,
                encryption: EncryptionConfig {
                    enabled: true,
                    algorithm: "AES-256-GCM".to_owned(),
                    key_rotation_days: 30,
                },
                retention: RetentionConfig {
                    full_backup_days: 30,
                    incremental_backup_days: 7,
                    max_versions: 10,
                },
                services: ServiceEndpoints {
                    backup_engine: "http://localhost:8001".to_owned(),
                    storage_hal: "http://localhost:8002".to_owned(),
                    compression_engine: "http://localhost:8003".to_owned(),
                    encryption_service: "http://localhost:8004".to_owned(),
                    deduplication_service: "http://localhost:8005".to_owned(),
                    ml_optimizer: "http://localhost:8006".to_owned(),
                    sync_coordinator: "http://localhost:8007".to_owned(),
                },
            },
            filesystem: FilesystemConfig {
                watch_paths,
                exclude_patterns,
                scan_interval: 300,
                debounce_delay: 5,
            },
            kernel: KernelConfig {
                module_enabled: true,
                module_file: "/system/lib/modules/corestate.ko".to_owned(),
                snapshot_enabled: true,
                cow_enabled: true,
            },
            logging: LoggingConfig {
                level: "info".to_owned(),
                file_path: Some("/data/logs/daemon.log".to_owned()),
                max_file_size: 10 * 1024 * 1024,
                max_files: 5,
            },
        }
    }
}

impl DaemonConfig {
    /// The places where a configuration file is looked for, in the order in which they
    /// are tried.
    pub fn search_paths() -> (paths: Vec<String>)
        ensures
            texts(paths@) == seq![
                "/data/local/tmp/corestate/daemon.toml"@,
                "/system/etc/corestate/daemon.toml"@,
                "./daemon.toml"@,
            ],
    {
        let mut paths: Vec<String> = Vec::new();
        paths.push("/data/local/tmp/corestate/daemon.toml".to_owned());
        paths.push("/system/etc/corestate/daemon.toml".to_owned());
        paths.push("./daemon.toml".to_owned());
        assert(texts(paths@) =~= seq![
            "/data/local/tmp/corestate/daemon.toml"@,
            "/system/etc/corestate/daemon.toml"@,
            "./daemon.toml"@,
        ]);
        paths
    }

    /// Checks the rules in order and reports the first that is broken: the two ports
    /// and the chunk size are not 0, the compression level is at most 9, and at least one
    /// path is watched.
    pub fn validate(&self) -> (r: Result<(), String>)
        ensures
            r is Ok <==> first_violation(*self) is None,
            r is Err ==> first_violation(*self) == Some(r->Err_0@),
    {
        if self.grpc.port == 0 {
            return Err("gRPC port cannot be 0".to_owned());
        }
        if self.android.bridge_port == 0 {
            return Err("Android bridge port cannot be 0".to_owned());
        }
        if self.backup.chunk_size == 0 {
            return Err("Backup chunk size cannot be 0".to_owned());
        }
        if self.backup.compression_level > 9 {
            return Err("Compression level must be between 0-9".to_owned());
        }
        if self.filesystem.watch_paths.is_empty() {
            return Err("At least one filesystem watch path must be configured".to_owned());
        }
        Ok(())
    }
}

/// The default configuration meets every rule.
pub proof fn default_is_valid(config: DaemonConfig)
    requires
        is_default(config),
    ensures
        first_violation(config) is None,
{
    assert(texts(config.filesystem.watch_paths@).len() == 2);
}

} // verus!
