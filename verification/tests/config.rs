use corestate::config::{DaemonConfig, RetentionConfig};

#[test]
fn the_default_configuration() {
    let c = DaemonConfig::default();
    assert_eq!(c.grpc.host, "127.0.0.1");
    assert_eq!(c.grpc.port, 50051);
    assert!(!c.grpc.tls_enabled);
    assert_eq!(c.grpc.cert_path, None);
    assert_eq!(c.grpc.key_path, None);
    assert_eq!(c.android.bridge_port, 8080);
    assert_eq!(c.android.auth_token, "default-token");
    assert_eq!(c.android.max_connections, 10);
    assert_eq!(c.android.heartbeat_interval, 30);
    assert_eq!(c.backup.backup_root, "/data/backups");
    assert_eq!(c.backup.chunk_size, 4_194_304);
    assert_eq!(c.backup.compression_level, 6);
    assert!(c.backup.encryption.enabled);
    assert_eq!(c.backup.encryption.algorithm, "AES-256-GCM");
    assert_eq!(c.backup.encryption.key_rotation_days, 30);
    assert_eq!(
        c.backup.retention,
        RetentionConfig { full_backup_days: 30, incremental_backup_days: 7, max_versions: 10 }
    );
    assert_eq!(c.backup.services.backup_engine, "http://localhost:8001");
    assert_eq!(c.backup.services.storage_hal, "http://localhost:8002");
    assert_eq!(c.backup.services.compression_engine, "http://localhost:8003");
    assert_eq!(c.backup.services.encryption_service, "http://localhost:8004");
    assert_eq!(c.backup.services.deduplication_service, "http://localhost:8005");
    assert_eq!(c.backup.services.ml_optimizer, "http://localhost:8006");
    assert_eq!(c.backup.services.sync_coordinator, "http://localhost:8007");
    assert_eq!(c.filesystem.watch_paths, vec!["/sdcard", "/data/data"]);
    assert_eq!(
        c.filesystem.exclude_patterns,
        vec!["*.tmp", "*.log", ".cache/*", "node_modules/*"]
    );
    assert_eq!(c.filesystem.scan_interval, 300);
    assert_eq!(c.filesystem.debounce_delay, 5);
    assert!(c.kernel.module_enabled);
    assert_eq!(c.kernel.module_file, "/system/lib/modules/corestate.ko");
    assert!(c.kernel.snapshot_enabled);
    assert!(c.kernel.cow_enabled);
    assert_eq!(c.logging.level, "info");
    assert_eq!(c.logging.file_path, Some("/data/logs/daemon.log".to_string()));
    assert_eq!(c.logging.max_file_size, 10_485_760);
    assert_eq!(c.logging.max_files, 5);
}

#[test]
fn the_default_configuration_is_valid() {
    assert_eq!(DaemonConfig::default().validate(), Ok(()));
}

#[test]
fn each_rule_has_its_message() {
    let mut c = DaemonConfig::default();
    c.grpc.port = 0;
    assert_eq!(c.validate(), Err("gRPC port cannot be 0".to_string()));

    let mut c = DaemonConfig::default();
    c.android.bridge_port = 0;
    assert_eq!(c.validate(), Err("Android bridge port cannot be 0".to_string()));

    let mut c = DaemonConfig::default();
    c.backup.chunk_size = 0;
    assert_eq!(c.validate(), Err("Backup chunk size cannot be 0".to_string()));

    let mut c = DaemonConfig::default();
    c.backup.compression_level = 10;
    assert_eq!(c.validate(), Err("Compression level must be between 0-9".to_string()));

    let mut c = DaemonConfig::default();
    c.filesystem.watch_paths.clear();
    assert_eq!(
        c.validate(),
        Err("At least one filesystem watch path must be configured".to_string())
    );
}

#[test]
fn the_first_broken_rule_is_reported() {
    let mut c = DaemonConfig::default();
    c.filesystem.watch_paths.clear();
    c.backup.compression_level = 200;
    assert_eq!(c.validate(), Err("Compression level must be between 0-9".to_string()));
    c.backup.chunk_size = 0;
    assert_eq!(c.validate(), Err("Backup chunk size cannot be 0".to_string()));
    c.android.bridge_port = 0;
    assert_eq!(c.validate(), Err("Android bridge port cannot be 0".to_string()));
    c.grpc.port = 0;
    assert_eq!(c.validate(), Err("gRPC port cannot be 0".to_string()));
}

#[test]
fn the_limits_of_the_rules() {
    let mut c = DaemonConfig::default();
    c.backup.compression_level = 9;
    c.grpc.port = 1;
    c.android.bridge_port = 65535;
    c.backup.chunk_size = 1;
    c.filesystem.watch_paths.truncate(1);
    assert_eq!(c.validate(), Ok(()));
    c.backup.compression_level = 0;
    assert_eq!(c.validate(), Ok(()));
}

#[test]
fn where_a_configuration_is_looked_for() {
    assert_eq!(
        DaemonConfig::search_paths(),
        vec![
            "/data/local/tmp/corestate/daemon.toml",
            "/system/etc/corestate/daemon.toml",
            "./daemon.toml",
        ]
    );
}
