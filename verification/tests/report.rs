use identity_client::decimal::to_decimal;
use identity_client::error::Field;
use identity_client::response::{IdentityResponse, RunnerInfo};
use identity_client::strings::{chars_of, same_text};

fn sample(runner: Option<RunnerInfo>) -> IdentityResponse {
    IdentityResponse {
        identity: "svc-a".to_string(),
        idm_url: "https://idm".to_string(),
        config_url: "https://cfg".to_string(),
        token: "tok123".to_string(),
        process: "worker".to_string(),
        pid: 42,
        uid: 1000,
        gid: 1001,
        runner,
    }
}

fn runner(instance_id: Option<u64>, timestamp: Option<u64>) -> RunnerInfo {
    RunnerInfo {
        hostname: "worker-01".to_string(),
        process: "worker".to_string(),
        pid: 42,
        uid: 1000,
        gid: 1001,
        instance_id,
        timestamp,
    }
}

#[test]
fn report_of_flat_response() {
    assert_eq!(
        sample(None).report("Identity retrieved successfully!"),
        vec![
            "Identity retrieved successfully!",
            "",
            "  Identity:   svc-a",
            "  IDM URL:    https://idm",
            "  Config URL: https://cfg",
            "  Token:      tok123",
            "",
            "  Runner:",
            "    Process:     worker",
            "    PID:         42",
            "    UID:         1000",
            "    GID:         1001",
        ]
    );
}

#[test]
fn report_of_nested_response_with_all_fields() {
    assert_eq!(
        sample(Some(runner(Some(7), Some(1738512000)))).report("Identity retrieved successfully (async)!"),
        vec![
            "Identity retrieved successfully (async)!",
            "",
            "  Identity:   svc-a",
            "  IDM URL:    https://idm",
            "  Config URL: https://cfg",
            "  Token:      tok123",
            "",
            "  Runner:",
            "    Hostname:    worker-01",
            "    Process:     worker",
            "    PID:         42",
            "    UID:         1000",
            "    GID:         1001",
            "    Instance ID: 7",
            "    Timestamp:   1738512000",
        ]
    );
}

#[test]
fn report_leaves_out_absent_fields() {
    let lines = sample(Some(runner(None, Some(5)))).report("ok");
    assert_eq!(lines.len(), 14);
    assert_eq!(lines[13], "    Timestamp:   5");
    let lines = sample(Some(runner(Some(5), None))).report("ok");
    assert_eq!(lines.len(), 14);
    assert_eq!(lines[13], "    Instance ID: 5");
    let lines = sample(Some(runner(None, None))).report("ok");
    assert_eq!(lines.len(), 13);
}

#[test]
fn decimal_numerals() {
    assert_eq!(to_decimal(0), "0");
    assert_eq!(to_decimal(9), "9");
    assert_eq!(to_decimal(10), "10");
    assert_eq!(to_decimal(1234567890), "1234567890");
    assert_eq!(to_decimal(u64::MAX), "18446744073709551615");
}

#[test]
fn field_names() {
    let names: Vec<&str> = [
        Field::Identity,
        Field::IdmUrl,
        Field::ConfigUrl,
        Field::Token,
        Field::Runner,
        Field::Hostname,
        Field::Process,
        Field::Pid,
        Field::Uid,
        Field::Gid,
        Field::InstanceId,
        Field::Timestamp,
    ]
    .iter()
    .map(|f| f.name())
    .collect();
    assert_eq!(
        names,
        vec![
            "identity", "idm_url", "config_url", "token", "runner", "hostname", "process", "pid",
            "uid", "gid", "instance_id", "timestamp",
        ]
    );
}

#[test]
fn text_helpers() {
    assert!(same_text("", ""));
    assert!(same_text("pid", "pid"));
    assert!(!same_text("pid", "uid"));
    assert!(!same_text("pid", "pi"));
    assert!(!same_text("é", "e"));
    assert_eq!(chars_of("aé😀"), vec!['a', 'é', '😀']);
    assert_eq!(chars_of(""), Vec::<char>::new());
}
