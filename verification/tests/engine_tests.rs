use shannonscope::desktop::threat::ThreatEngine;
use shannonscope::engine::safety::SafetyGuard;

#[test]
fn test_threat_engine() {
    let engine = ThreatEngine::new();
    let safe_payload = b"Just some normal text data. Nothing to see here.";
    let malicious_payload = b"Hello this is WanaCrypt0r ransomware!";

    assert_eq!(engine.scan_payload(safe_payload).len(), 0);

    let threats = engine.scan_payload(malicious_payload);
    assert_eq!(threats.len(), 1);
    assert!(threats[0].contains("WannaCry"));
}

#[test]
#[should_panic(
    expected = "CRITICAL SAFETY ABORT: Target '/dev/sda' matches protected host drive '/dev/sda'. Execution blocked."
)]
fn test_forbidden_drive_panics() {
    SafetyGuard::validate_target("/dev/sda").unwrap();
}

#[test]
fn test_allowed_loopback_succeeds() {
    SafetyGuard::validate_target("tests/test_drive.raw").unwrap();
}
