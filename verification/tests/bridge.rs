use corestate::android_bridge::{
    auth_response, backup_failure, heartbeat_timeout, listing_failure, services_status,
    stale_clients, AuthOutcome, ErrorReply, Heartbeat, ServiceState, BACKUP_FAILED,
    LISTING_FAILED, REPORTED_MEMORY,
};
use corestate::config::DaemonConfig;
use corestate::kernel_interface::{load_command, unload_command, KernelStatus};

#[test]
fn the_right_token_lets_a_device_in() {
    let outcome = auth_response("secret", "secret", "device-1".to_string());
    assert_eq!(outcome, AuthOutcome { success: true, device_id: "device-1".to_string() });
}

#[test]
fn a_wrong_token_is_unauthorized() {
    for token in ["", "Secret", "secret ", "secre"] {
        let outcome = auth_response(token, "secret", "device-1".to_string());
        assert_eq!(
            outcome,
            AuthOutcome { success: false, device_id: "unauthorized".to_string() }
        );
    }
}

#[test]
fn error_replies_carry_code_and_detail() {
    assert_eq!(
        backup_failure("disk full"),
        ErrorReply { code: 1001, message: "Failed to start backup: disk full".to_string() }
    );
    assert_eq!(
        listing_failure("no such directory"),
        ErrorReply { code: 1002, message: "Failed to list files: no such directory".to_string() }
    );
    assert_eq!(BACKUP_FAILED, 1001);
    assert_eq!(LISTING_FAILED, 1002);
    assert_eq!(REPORTED_MEMORY, 67_108_864);
}

#[test]
fn the_timeout_is_two_intervals() {
    assert_eq!(heartbeat_timeout(0), 0);
    assert_eq!(heartbeat_timeout(30), 60);
    assert_eq!(heartbeat_timeout(u64::MAX / 2), u64::MAX - 1);
    assert_eq!(heartbeat_timeout(u64::MAX / 2 + 1), u64::MAX);
    assert_eq!(heartbeat_timeout(u64::MAX), u64::MAX);
}

#[test]
fn clients_idle_for_longer_than_the_timeout_are_stale() {
    let clients = vec![
        Heartbeat { client_id: "a".to_string(), idle_nanos: 59_999_999_999 },
        Heartbeat { client_id: "b".to_string(), idle_nanos: 60_000_000_000 },
        Heartbeat { client_id: "c".to_string(), idle_nanos: 60_000_000_001 },
        Heartbeat { client_id: "d".to_string(), idle_nanos: 0 },
        Heartbeat { client_id: "e".to_string(), idle_nanos: u128::MAX },
    ];
    assert_eq!(stale_clients(&clients, 60), vec!["c", "e"]);
    assert_eq!(stale_clients(&clients, 0), vec!["a", "b", "c", "e"]);
    assert_eq!(stale_clients(&clients, u64::MAX), vec!["e"]);
    assert!(stale_clients(&Vec::new(), 60).is_empty());
}

#[test]
fn the_kernel_status_follows_the_configuration() {
    let mut kernel = DaemonConfig::default().kernel;
    let status = KernelStatus::report(true, &kernel);
    assert_eq!(
        status,
        KernelStatus {
            loaded: true,
            version: "2.0.0".to_string(),
            features: vec!["cow".to_string(), "snapshots".to_string()],
        }
    );
    kernel.cow_enabled = false;
    let status = KernelStatus::report(false, &kernel);
    assert_eq!(
        status,
        KernelStatus {
            loaded: false,
            version: "unloaded".to_string(),
            features: vec!["snapshots".to_string()],
        }
    );
    kernel.cow_enabled = true;
    kernel.snapshot_enabled = false;
    assert_eq!(KernelStatus::report(true, &kernel).features, vec!["cow"]);
    kernel.cow_enabled = false;
    assert!(KernelStatus::report(true, &kernel).features.is_empty());
}

#[test]
fn the_module_commands() {
    assert_eq!(
        load_command("/system/lib/modules/corestate.ko"),
        "insmod /system/lib/modules/corestate.ko"
    );
    assert_eq!(load_command(""), "insmod ");
    assert_eq!(unload_command(), "rmmod corestate");
}

#[test]
fn the_reported_services() {
    let expected = [
        ("backup_engine", true),
        ("storage_hal", true),
        ("compression_engine", true),
        ("encryption_service", false),
        ("ml_optimizer", true),
    ];
    let services = services_status();
    assert_eq!(services.len(), expected.len());
    for (service, (name, up)) in services.iter().zip(expected) {
        assert_eq!(service, &ServiceState { name: name.to_string(), up });
    }
}
