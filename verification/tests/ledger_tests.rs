use sha2::{Digest, Sha256};
use shannonscope::desktop::audit::AuditLedger as DesktopLedger;
use shannonscope::digest::sha256_hex;
use shannonscope::engine::audit::AuditLedger;

fn hex_of(data: &[u8]) -> String {
    let mut h = Sha256::new();
    h.update(data);
    h.finalize().iter().map(|b| format!("{:02x}", b)).collect()
}

fn field(s: &str) -> String {
    format!("{}:{}", s.chars().count(), s)
}

fn payload(fields: &[&str]) -> String {
    fields.iter().map(|f| field(f)).collect()
}

#[test]
fn sha256_hex_known_vector() {
    assert_eq!(sha256_hex(b"abc"), "ba7816bf8f01cfea414140de5dae2223b00361a396177a9cb410ff61f20015ad");
    assert_eq!(sha256_hex(b""), "e3b0c44298fc1c149afbf4c8996fb92427ae41e4649b934ca495991b7852b855");
}

#[test]
fn cli_append_links_and_hashes() {
    let mut ledger = AuditLedger::init("logs/audit_chain.json", Vec::new());
    let first = ledger.append_at("CARVE", "tests/test_drive.raw", "SUCCESS", "OPERATOR_ADMIN", 1700000000);
    assert_eq!(first.index, 0);
    assert_eq!(first.previous_hash, "0".repeat(64));
    let genesis = "0".repeat(64);
    let expected = hex_of(
        payload(&["0", "1700000000", "CARVE", "tests/test_drive.raw", "SUCCESS", "OPERATOR_ADMIN", &genesis])
            .as_bytes(),
    );
    assert_eq!(
        payload(&["0", "1700000000", "CARVE", "tests/test_drive.raw", "SUCCESS", "OPERATOR_ADMIN", &genesis]),
        format!("1:010:17000000005:CARVE20:tests/test_drive.raw7:SUCCESS14:OPERATOR_ADMIN64:{}", genesis)
    );
    assert_eq!(first.record_hash, expected);
    let second = ledger.append_at("WIPE", "/dev/sdc", "VERIFIED_CLEAN", "OPERATOR_ADMIN", 1700000100);
    assert_eq!(second.index, 1);
    assert_eq!(second.previous_hash, first.record_hash);
    assert_eq!(ledger.entries.len(), 2);
    assert_eq!(ledger.log_path, "logs/audit_chain.json");
    assert_eq!(ledger.verify_integrity(), (true, None));
}

#[test]
fn cli_append_uses_clock() {
    let mut ledger = AuditLedger::init("x.json", Vec::new());
    let e = ledger.append("CARVE", "t", "SUCCESS", "OP");
    assert!(e.timestamp > 1_600_000_000);
    assert_eq!(ledger.verify_integrity(), (true, None));
}

#[test]
fn cli_empty_chain_verifies() {
    let ledger = AuditLedger::init("x.json", Vec::new());
    assert_eq!(ledger.verify_integrity(), (true, None));
}

#[test]
fn cli_forged_record_hash_is_reported() {
    let mut ledger = AuditLedger::init("x.json", Vec::new());
    ledger.append_at("A", "t", "S", "O", 1);
    ledger.append_at("B", "t", "S", "O", 2);
    ledger.append_at("C", "t", "S", "O", 3);
    ledger.entries[1].record_hash = "f".repeat(64);
    assert_eq!(ledger.verify_integrity(), (false, Some(1)));
}

#[test]
fn cli_forged_link_is_reported() {
    let mut ledger = AuditLedger::init("x.json", Vec::new());
    ledger.append_at("A", "t", "S", "O", 1);
    ledger.append_at("B", "t", "S", "O", 2);
    ledger.entries[1].previous_hash = "1".repeat(64);
    assert_eq!(ledger.verify_integrity(), (false, Some(1)));
}

#[test]
fn cli_edited_field_is_reported() {
    let mut ledger = AuditLedger::init("x.json", Vec::new());
    ledger.append_at("A", "t", "S", "O", 1);
    ledger.append_at("B", "t", "S", "O", 2);
    ledger.entries[0].status = "FORGED".to_string();
    assert_eq!(ledger.verify_integrity(), (false, Some(0)));
}

#[test]
fn cli_loaded_entries_are_kept_and_checked() {
    let mut source = AuditLedger::init("x.json", Vec::new());
    source.append_at("A", "t", "S", "O", 7);
    let loaded = vec![source.entries[0].duplicate()];
    let mut ledger = AuditLedger::init("y.json", loaded);
    assert_eq!(ledger.verify_integrity(), (true, None));
    let next = ledger.append_at("B", "t", "S", "O", 8);
    assert_eq!(next.previous_hash, source.entries[0].record_hash);
    assert_eq!(ledger.verify_integrity(), (true, None));
}

#[test]
fn cli_csv_report() {
    let mut ledger = AuditLedger::init("x.json", Vec::new());
    let e = ledger.append_at("WIPE", "/dev/sdc", "VERIFIED_CLEAN", "OPERATOR_ADMIN", 42);
    let csv = ledger.csv_report();
    assert_eq!(
        csv,
        format!(
            "Index,Timestamp,Action,Target,Status,Operator,RecordHash\n0,42,WIPE,/dev/sdc,VERIFIED_CLEAN,OPERATOR_ADMIN,{}\n",
            e.record_hash
        )
    );
}

#[test]
fn cli_certificate_lines() {
    let mut ledger = AuditLedger::init("x.json", Vec::new());
    let e = ledger.append_at("WIPE", "/dev/sdc", "VERIFIED_CLEAN", "OPERATOR_ADMIN", 1234);
    assert_eq!(ledger.certificate_lines(1), Err("Invalid entry index".to_string()));
    let lines = ledger.certificate_lines(0).unwrap();
    assert_eq!(lines.len(), 9);
    assert_eq!(lines[0], "Digital Forensics Compliance Certificate");
    assert_eq!(lines[1], "Action: WIPE");
    assert_eq!(lines[2], "Target: /dev/sdc");
    assert_eq!(lines[3], "Timestamp: 1234");
    assert_eq!(lines[4], "Status: VERIFIED_CLEAN");
    assert_eq!(lines[5], "Operator ID: OPERATOR_ADMIN");
    assert_eq!(lines[6], "Standard: NIST SP 800-88 Rev.1");
    assert_eq!(lines[7], format!("Entry hash: {}", e.record_hash));
    assert_eq!(lines[8], format!("Previous hash: {}", "0".repeat(64)));
}

#[test]
fn desktop_append_and_verify() {
    let mut ledger = DesktopLedger::init("logs/audit_chain.json", Vec::new());
    let first = ledger.append_at("CARVE", "/dev/sdc", "SUCCESS", "OPERATOR_ADMIN", 99);
    assert_eq!(first.previous_hash, "GENESIS_BLOCK");
    assert_eq!(
        first.record_hash,
        hex_of(payload(&["0", "99", "CARVE", "/dev/sdc", "SUCCESS", "OPERATOR_ADMIN", "GENESIS_BLOCK"]).as_bytes())
    );
    let second = ledger.append_at("WIPE", "/dev/sdc", "VERIFIED_CLEAN", "OPERATOR_ADMIN", 100);
    assert_eq!(second.index, 1);
    assert_eq!(second.previous_hash, first.record_hash);
    assert!(ledger.verify_chain());
    ledger.entries[0].record_hash = "0".repeat(64);
    assert!(!ledger.verify_chain());
}

#[test]
fn desktop_operator_is_hashed() {
    let mut ledger = DesktopLedger::init("x.json", Vec::new());
    ledger.append_at("A", "t", "S", "O", 1);
    assert!(ledger.verify_chain());
    ledger.entries[0].operator_id = "SOMEONE_ELSE".to_string();
    assert!(!ledger.verify_chain());
}

#[test]
fn desktop_forged_link_breaks_chain() {
    let mut ledger = DesktopLedger::init("x.json", Vec::new());
    ledger.append_at("A", "t", "S", "O", 1);
    ledger.entries[0].previous_hash = "X".to_string();
    assert!(!ledger.verify_chain());
}

#[test]
fn desktop_moved_separator_breaks_chain() {
    let mut ledger = DesktopLedger::init("x.json", Vec::new());
    ledger.append_at("WIPE", "a_b", "OK", "op", 5);
    assert!(ledger.verify_chain());
    ledger.entries[0].action = "WIPE_a".to_string();
    ledger.entries[0].target = "b".to_string();
    assert!(!ledger.verify_chain());
}

#[test]
fn cli_moved_separator_is_reported() {
    let mut ledger = AuditLedger::init("x.json", Vec::new());
    ledger.append("WIPE", "a:b", "OK", "op");
    assert_eq!(ledger.verify_integrity(), (true, None));
    ledger.entries[0].action = "WIPE:a".to_string();
    ledger.entries[0].target = "b".to_string();
    assert_eq!(ledger.verify_integrity(), (false, Some(0)));
}

#[test]
fn cli_edited_operator_is_reported() {
    let mut ledger = AuditLedger::init("x.json", Vec::new());
    ledger.append_at("A", "t", "S", "O", 1);
    ledger.append_at("B", "t", "S", "O", 2);
    ledger.entries[1].operator_id = "P".to_string();
    assert_eq!(ledger.verify_integrity(), (false, Some(1)));
}

#[test]
fn desktop_certificate_lines() {
    let mut ledger = DesktopLedger::init("x.json", Vec::new());
    for i in 0..25u64 {
        ledger.append_at("WIPE", &format!("/dev/sd{}", i), "VERIFIED_CLEAN", "OP", i);
    }
    let lines = ledger.certificate_lines();
    assert_eq!(lines.len(), 23);
    assert_eq!(lines[0], "CERTIFICATE OF DATA DESTRUCTION");
    assert_eq!(lines[1], "Merkle Chain Integrity: VERIFIED INTACT");
    assert_eq!(lines[2], "[WIPE] /dev/sd0 -> VERIFIED_CLEAN");
    assert_eq!(lines[22], "[WIPE] /dev/sd20 -> VERIFIED_CLEAN");
    ledger.entries[3].status = "X".to_string();
    assert_eq!(ledger.certificate_lines()[1], "Merkle Chain Integrity: TAMPERED / BROKEN");
}
