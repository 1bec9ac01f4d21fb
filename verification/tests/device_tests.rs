use shannonscope::desktop::commands::{clone_result, clone_status, forensic_image_file, hex_dump, ImageCopy};
use shannonscope::desktop::drives::{drive_entries, BlockDevice, DriveEntry, MountedDisk};
use shannonscope::desktop::hardware::{check_rotational, parse_ata_string, DriveInfo};
use shannonscope::desktop::harvest::{harvest, harvest_artifact};
use shannonscope::desktop::safety::SafetyGuard as DesktopGuard;
use shannonscope::desktop::sandbox::SandboxEngine;
use shannonscope::desktop::threat::ThreatEngine;
use shannonscope::desktop::timeline::{TimelineEngine, TimelineEvent};
use shannonscope::engine::safety::SafetyGuard;
use shannonscope::engine::sanitizer::{
    failure_status, wipe_status, SanitizerEngine, WipePass, WipeProfile, WipeVerifier,
};

#[test]
fn forbidden_partitions_are_refused() {
    let e = SafetyGuard::validate_target("/dev/nvme0n1p2").unwrap_err();
    assert_eq!(
        e,
        "CRITICAL SAFETY ABORT: Target '/dev/nvme0n1p2' matches protected host drive '/dev/nvme0n1'. Execution blocked."
    );
    assert!(SafetyGuard::validate_target("/dev/mapper").is_err());
}

#[test]
fn unapproved_targets_are_restricted() {
    let e = SafetyGuard::validate_target("/home/user/disk.img").unwrap_err();
    assert_eq!(
        e,
        "SAFETY RESTRICTION: Target '/home/user/disk.img' is not an approved test fixture. Must end with 'test_drive.raw' or match assigned removable USB nodes."
    );
    assert!(SafetyGuard::validate_target("/dev/loop3").is_ok());
    assert!(SafetyGuard::validate_target("/dev/sdc").is_ok());
    assert!(SafetyGuard::validate_target("/dev/sdd1").is_ok());
    assert!(SafetyGuard::validate_target("/dev/sda1").is_err());
}

#[test]
fn desktop_guard_refuses_empty_and_host_drives() {
    assert_eq!(DesktopGuard::validate_target(""), Err("Target path cannot be empty".to_string()));
    assert_eq!(
        DesktopGuard::validate_target("/dev/sda"),
        Err("CRITICAL SAFETY ABORT: Target '/dev/sda' matches protected host drive '/dev/sda'. Execution blocked."
            .to_string())
    );
    assert!(DesktopGuard::validate_target("/dev/nvme0n1").is_err());
    assert!(DesktopGuard::validate_target("/dev/nvme0n1p3").is_err());
    assert_eq!(DesktopGuard::validate_target("/dev/sdc"), Ok(()));
    assert_eq!(DesktopGuard::validate_target("/home/user/evidence.img"), Ok(()));
}

#[test]
fn wipe_plans_follow_profiles() {
    let plan = SanitizerEngine::plan_sanitization("tests/test_drive.raw", WipeProfile::Dod522022M).unwrap();
    assert_eq!(plan.steps.len(), 3);
    assert_eq!(plan.steps[0].pass, WipePass::Fill(0x00));
    assert_eq!(plan.steps[1].pass, WipePass::Fill(0xFF));
    assert_eq!(plan.steps[2].pass, WipePass::Random);
    assert_eq!(plan.steps[2].label, "DoD Pass 3/3 [PRNG Random]");
    assert_eq!(plan.expected_pattern, None);
    assert_eq!(plan.stride_step, 4096);
    let nist = SanitizerEngine::plan_sanitization("tests/test_drive.raw", WipeProfile::NistClear).unwrap();
    assert_eq!(nist.expected_pattern, Some(0));
    assert_eq!(nist.steps[0].label, "NIST-Clear [0x00]");
    assert!(SanitizerEngine::plan_sanitization("/dev/sda", WipeProfile::NistClear).is_err());
}

#[test]
fn profile_names() {
    assert_eq!(WipeProfile::from_cli_name("dod-3pass"), Some(WipeProfile::Dod522022M));
    assert_eq!(WipeProfile::from_cli_name("hardware-purge"), Some(WipeProfile::HardwarePurge));
    assert_eq!(WipeProfile::from_cli_name("nist_clear"), None);
    assert_eq!(WipeProfile::from_ui_name("nist_clear"), Some(WipeProfile::NistClear));
    assert_eq!(wipe_status(true), "VERIFIED_CLEAN");
    assert_eq!(wipe_status(false), "VERIFICATION_FAILED");
    assert_eq!(failure_status("boom"), "FAILED: boom");
}

#[test]
fn chunking_and_random_blocks() {
    assert_eq!(SanitizerEngine::next_chunk_len(10, 4, 4), 4);
    assert_eq!(SanitizerEngine::next_chunk_len(10, 8, 4), 2);
    assert_eq!(SanitizerEngine::random_block(1000).len(), 1000);
    let a = SanitizerEngine::random_block(64);
    let b = SanitizerEngine::random_block(64);
    assert_ne!(a, b);
}

#[test]
fn verifier_samples_at_stride() {
    let mut v = WipeVerifier::new(10000, 4096, Some(0));
    assert_eq!(v.next_offset(), Some(0));
    v.record_sample(&[0u8; 512]);
    assert_eq!(v.next_offset(), Some(4096));
    v.record_sample(&[0u8; 512]);
    assert_eq!(v.next_offset(), Some(8192));
    v.record_sample(&[0u8; 512]);
    assert_eq!(v.verdict(), Some(true));
    assert_eq!(v.next_offset(), None);

    let mut dirty = WipeVerifier::new(10000, 4096, Some(0));
    let mut block = [0u8; 512];
    block[100] = 7;
    dirty.record_sample(&block);
    assert_eq!(dirty.verdict(), Some(false));

    let mut short = WipeVerifier::new(10000, 4096, Some(0xFF));
    short.record_sample(&[]);
    assert_eq!(short.verdict(), Some(true));

    let mut random = WipeVerifier::new(100, 4096, None);
    random.record_sample(&[1, 2, 3]);
    assert_eq!(random.verdict(), Some(true));

    let empty = WipeVerifier::new(0, 0, Some(0));
    assert_eq!(empty.verdict(), Some(true));
    assert_eq!(empty.next_offset(), None);
}

#[test]
fn rotational_flag() {
    assert!(SanitizerEngine::is_rotational(Some("1\n")));
    assert!(!SanitizerEngine::is_rotational(Some("0\n")));
    assert!(!SanitizerEngine::is_rotational(None));
    assert!(check_rotational(Some(" 1 ")));
    assert_eq!(SanitizerEngine::rotational_flag_file("/dev/sdc"), "/sys/block/sdc/queue/rotational");
    assert_eq!(SanitizerEngine::rotational_flag_file("/dev/sdc/./"), "/sys/block/sdc/queue/rotational");
    assert_eq!(SanitizerEngine::rotational_flag_file("nvme0n1"), "/sys/block/nvme0n1/queue/rotational");
    assert_eq!(SanitizerEngine::rotational_flag_file("/dev/.."), "/sys/block//queue/rotational");
    assert_eq!(SanitizerEngine::rotational_flag_file("/"), "/sys/block//queue/rotational");
}

#[test]
fn ata_strings_are_byte_swapped_and_trimmed() {
    let bytes = [b'e', b'S', b'i', b'r', b'l', b'a', 0, 0, b' ', b' ', b'X'];
    assert_eq!(parse_ata_string(&bytes), "Serial");
    let mut identify = [0u8; 512];
    let info = DriveInfo::from_identify("/dev/sdc", &identify, false);
    assert_eq!(info.serial_number, "S_UNKNOWN_OR_PERMISSION_DENIED");
    assert_eq!(info.firmware_revision, "FW_UNAVAILABLE");
    identify[20] = b'B';
    identify[21] = b'A';
    identify[46] = b'2';
    identify[47] = b'1';
    let info = DriveInfo::from_identify("/dev/sdc", &identify, true);
    assert_eq!(info.serial_number, "AB");
    assert_eq!(info.firmware_revision, "12");
    assert!(info.is_rotational);
}

#[test]
fn sandbox_paths_and_results() {
    assert_eq!(SandboxEngine::mount_point("/dev/sdc1"), "/mnt/shannon_sandbox_sdc1");
    let r = SandboxEngine::mounted("/mnt/x".to_string());
    assert!(r.success);
    assert_eq!(r.message, "Device securely sandboxed at Read-Only, No-Exec mode.");
    assert_eq!(SandboxEngine::released().mount_point, "");
    assert_eq!(SandboxEngine::unmount_failure("busy"), "Safe Unmount Failed: busy");
}

#[test]
fn forensic_image_naming() {
    assert_eq!(forensic_image_file("out", "/dev/sdc"), "out/forensic_image__dev_sdc.dd");
    assert_eq!(forensic_image_file("o", "a\\b"), "o/forensic_image_a_b.dd");
}

#[test]
fn clone_hashes_exactly_the_copied_bytes() {
    let image = ImageCopy::new().absorb(b"ab").absorb(b"").absorb(b"c");
    assert_eq!(image.bytes_copied(), 3);
    let r = clone_result("out", "/dev/sdc", image);
    assert_eq!(r.image_path, "out/forensic_image__dev_sdc.dd");
    assert_eq!(r.bytes_copied, 3);
    assert_eq!(r.sha256_hash, "ba7816bf8f01cfea414140de5dae2223b00361a396177a9cb410ff61f20015ad");
    assert_eq!(
        clone_status(&r),
        "Image SHA256: ba7816bf8f01cfea414140de5dae2223b00361a396177a9cb410ff61f20015ad"
    );
}

#[test]
fn clone_of_nothing() {
    let r = clone_result("o", "t", ImageCopy::new());
    assert_eq!(r.bytes_copied, 0);
    assert_eq!(r.sha256_hash, "e3b0c44298fc1c149afbf4c8996fb92427ae41e4649b934ca495991b7852b855");
}

#[test]
fn hex_view_lines() {
    let bytes: Vec<u8> = (0x41u8..0x53).collect();
    let dump = hex_dump(&bytes);
    assert_eq!(
        dump,
        "41 42 43 44 45 46 47 48 49 4A 4B 4C 4D 4E 4F 50  |  ABCDEFGHIJKLMNOP\n51 52  |  QR\n"
    );
    assert_eq!(hex_dump(&[0x00, 0x7F]), "00 7F  |  ..\n");
}

#[test]
fn harvest_finds_contacts_and_wallets() {
    let buf = b"mail admin@example.com from 192.168.1.10 and admin@example.com again";
    let (strings, tags) = harvest(buf).unwrap();
    assert_eq!(strings, vec!["admin@example.com".to_string(), "192.168.1.10".to_string()]);
    assert!(tags.is_empty());
    let wallet = b"pay 1BvBMSEYstWetqTFn5Au4m4GFg7xJaNVN2 now";
    let (_, tags) = harvest(wallet).unwrap();
    assert_eq!(tags, vec!["Crypto_Wallet_Found".to_string()]);
    assert!(harvest_artifact(Vec::new(), Vec::new()).is_none());
    let a = harvest_artifact(strings, Vec::new()).unwrap();
    assert_eq!(a.file_type, "REGEX_HARVEST_DATA");
    assert_eq!(a.size_bytes, 2);
}

#[test]
fn timeline_is_chronological_and_stable() {
    let ev = |p: &str, t: u64, k: &str| TimelineEvent { file_path: p.to_string(), timestamp: t, event_type: k.to_string() };
    let events = vec![ev("a", 30, "MODIFIED"), ev("b", 10, "MODIFIED"), ev("c", 30, "ACCESSED"), ev("d", 20, "CREATED")];
    let sorted = TimelineEngine::generate_timeline(events);
    let order: Vec<&str> = sorted.iter().map(|e| e.file_path.as_str()).collect();
    assert_eq!(order, vec!["b", "d", "a", "c"]);
    let entry = TimelineEngine::entry_events("/x", Some(5), None, Some(7));
    assert_eq!(entry.len(), 2);
    assert_eq!(entry[0].event_type, "MODIFIED");
    assert_eq!(entry[1].event_type, "CREATED");
    assert!(TimelineEngine::should_walk(10, 1000));
    assert!(!TimelineEngine::should_walk(11, 0));
    assert!(!TimelineEngine::should_walk(0, 1001));
}

#[test]
fn threat_catalogue_and_subslices() {
    let engine = ThreatEngine::new();
    let threats = engine.scan_payload(b"mimikatz ... stratum+tcp://pool HERMES");
    assert_eq!(
        threats,
        vec![
            "CRITICAL: Ryuk_Ransomware_Marker".to_string(),
            "HIGH: XMRig_CoinMiner".to_string(),
            "CRITICAL: Mimikatz_Credential_Dumper".to_string(),
        ]
    );
    let more = engine.scan_payload(b"AutoOpen mimikatz ... stratum+tcp://pool HERMES mimikatz WanaCrypt0r");
    assert_eq!(
        more,
        vec![
            "CRITICAL: WannaCry_Ransomware_Marker".to_string(),
            "CRITICAL: Ryuk_Ransomware_Marker".to_string(),
            "HIGH: Emotet_Dropper_Macro".to_string(),
            "HIGH: XMRig_CoinMiner".to_string(),
            "CRITICAL: Mimikatz_Credential_Dumper".to_string(),
        ]
    );
    assert!(engine.scan_payload(b"nothing here").is_empty());
    assert!(ThreatEngine::contains_subslice(b"abc", b""));
    assert!(!ThreatEngine::contains_subslice(b"ab", b"abc"));
}

#[test]
fn write_pass_chunks_cover_target_exactly() {
    let total: u64 = 5 * 1024 * 1024 + 123;
    let chunk = shannonscope::engine::sanitizer::FILL_CHUNK_SIZE;
    let mut written = 0u64;
    let mut calls = 0;
    while written < total {
        let n = SanitizerEngine::next_chunk_len(total, written, chunk);
        assert!(n > 0 && n <= chunk);
        written += n;
        calls += 1;
    }
    assert_eq!(written, total);
    assert_eq!(calls, 3);
}

fn mounted(mount: Option<&str>, name: Option<&str>, total: u64, removable: bool) -> MountedDisk {
    MountedDisk {
        mount_point: mount.map(|m| m.to_string()),
        device_name: name.map(|n| n.to_string()),
        total_space: total,
        is_removable: removable,
    }
}

fn block(name: &str, size: Option<&str>, removable: Option<&str>) -> BlockDevice {
    BlockDevice {
        name: name.to_string(),
        size_text: size.map(|s| s.to_string()),
        removable_text: removable.map(|s| s.to_string()),
    }
}

fn summary(entries: &[DriveEntry]) -> Vec<(String, u64, bool, bool, String)> {
    entries
        .iter()
        .map(|e| (e.path.clone(), e.size_bytes, e.is_removable, e.is_system_drive, e.kind.clone()))
        .collect()
}

#[test]
fn drive_listing_puts_removable_first_and_marks_system() {
    let disks = vec![
        mounted(Some("/"), Some("/dev/nvme0n1p2"), 500_000_000_000, false),
        mounted(Some("/media/usb"), Some("/dev/sdc1"), 32_000_000_000, true),
        mounted(None, Some("/dev/sdz"), 1, false),
    ];
    let devices = vec![
        block("nvme0n1", Some("976773168\n"), Some("0\n")),
        block("sdc", Some("62521344\n"), Some("1\n")),
        block("loop0", Some("8\n"), Some("0\n")),
        block("sda", None, None),
    ];
    let entries = drive_entries(&disks, &devices).unwrap();
    assert_eq!(
        summary(&entries),
        vec![
            ("/media/usb".to_string(), 32_000_000_000, true, false, "Removable".to_string()),
            ("/dev/sdc".to_string(), 32_010_928_128, true, false, "Removable".to_string()),
            ("/".to_string(), 500_000_000_000, false, true, "Internal".to_string()),
            ("/dev/nvme0n1".to_string(), 500_107_862_016, false, true, "Internal/Physical".to_string()),
            ("/dev/sda".to_string(), 0, false, false, "Internal/Physical".to_string()),
        ]
    );
}

#[test]
fn drive_listing_root_prefix_and_size_rules() {
    let disks = vec![mounted(Some("/"), Some("/dev/sda2"), 10, false)];
    let devices = vec![
        block("sdb", Some("+20"), Some(" 0 ")),
        block("nvme1n1", Some("300000000"), Some("0")),
        block("nvme2n1", Some("99999999999999999999"), Some("1")),
    ];
    let entries = drive_entries(&disks, &devices).unwrap();
    assert_eq!(
        summary(&entries),
        vec![
            ("/dev/nvme2n1".to_string(), 0, true, false, "Removable".to_string()),
            ("/".to_string(), 10, false, true, "Internal".to_string()),
            ("/dev/sdb".to_string(), 10240, false, true, "Internal/Physical".to_string()),
            ("/dev/nvme1n1".to_string(), 153_600_000_000, false, true, "Internal/Physical".to_string()),
        ]
    );
}

#[test]
fn drive_listing_refuses_what_cannot_be_computed() {
    let overflow = vec![block("sda", Some("36028797018963968"), None)];
    assert!(drive_entries(&[], &overflow).is_none());
    let short_root = vec![mounted(Some("/"), Some("x"), 1, false)];
    assert!(drive_entries(&short_root, &[block("sda", None, None)]).is_none());
    assert!(drive_entries(&short_root, &[block("loop0", None, None)]).is_some());
    let wide_root = vec![mounted(Some("/"), Some("/dev/éa1"), 1, false)];
    let entries = drive_entries(&wide_root, &[block("éb", None, None), block("sdé", None, None)]).unwrap();
    assert_eq!(summary(&entries)[1], ("/dev/sdé".to_string(), 0, false, false, "Internal/Physical".to_string()));
}

#[test]
fn test_timeline_engine() {
    // The events a walk over a small source tree collects, entry by entry.
    let mut events = Vec::new();
    events.extend(TimelineEngine::entry_events("src/main.rs", Some(1_700_000_300), Some(1_700_000_400), None));
    events.extend(TimelineEngine::entry_events("src/engine", Some(1_700_000_100), None, Some(1_700_000_000)));
    events.extend(TimelineEngine::entry_events("src/engine/carver.rs", Some(1_700_000_200), Some(1_700_000_400), Some(1_699_999_000)));
    let timeline = TimelineEngine::generate_timeline(events);
    assert!(timeline.len() > 0);
    assert_eq!(timeline.len(), 7);
    let order: Vec<(&str, u64, &str)> =
        timeline.iter().map(|e| (e.file_path.as_str(), e.timestamp, e.event_type.as_str())).collect();
    assert_eq!(
        order,
        vec![
            ("src/engine/carver.rs", 1_699_999_000, "CREATED"),
            ("src/engine", 1_700_000_000, "CREATED"),
            ("src/engine", 1_700_000_100, "MODIFIED"),
            ("src/engine/carver.rs", 1_700_000_200, "MODIFIED"),
            ("src/main.rs", 1_700_000_300, "MODIFIED"),
            ("src/main.rs", 1_700_000_400, "ACCESSED"),
            ("src/engine/carver.rs", 1_700_000_400, "ACCESSED"),
        ]
    );
}
