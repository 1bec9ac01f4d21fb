use shannonscope::carving::{byte_histogram, CarveKind};
use shannonscope::desktop::carver::CarverEngine as DesktopCarver;
use shannonscope::engine::carver::{CarverEngine, PersistPolicy, CHUNK_SIZE, OVERLAP_SIZE};

fn riff(payload_len: u32) -> Vec<u8> {
    let mut v = b"RIFF".to_vec();
    v.extend_from_slice(&payload_len.to_le_bytes());
    v.extend(std::iter::repeat(b'w').take(payload_len as usize));
    v
}

#[test]
fn riff_is_carved_by_declared_size() {
    let mut w = vec![0u8; 3];
    w.extend(riff(4));
    w.extend(vec![0u8; 5]);
    let hits = CarverEngine::carve_window(&w);
    assert_eq!(hits.len(), 1);
    assert_eq!(hits[0].kind, CarveKind::Riff);
    assert_eq!(hits[0].start, 3);
    assert_eq!(hits[0].size, 12);
    assert!(!hits[0].fragmented);
}

#[test]
fn riff_too_long_for_window_is_skipped() {
    let mut w = b"RIFF".to_vec();
    w.extend_from_slice(&100u32.to_le_bytes());
    w.extend(vec![0u8; 10]);
    assert_eq!(CarverEngine::carve_window(&w).len(), 0);
}

#[test]
fn jpeg_complete_and_truncated() {
    let mut w = vec![0x11u8, 0xFF, 0xD8, 0xFF, 0xE0, 0x01, 0xFF, 0xD9, 0x22];
    w.extend([0xFF, 0xD8, 0xFF, 0x00, 0x00]);
    let hits = CarverEngine::carve_window(&w);
    assert_eq!(hits.len(), 2);
    assert_eq!(hits[0].kind, CarveKind::Jpeg);
    assert_eq!((hits[0].start, hits[0].size), (1, 7));
    assert_eq!(hits[1].kind, CarveKind::JpegTruncated);
    assert_eq!((hits[1].start, hits[1].size), (9, 5));
    assert!(hits[1].fragmented);
}

#[test]
fn pdf_trailer_may_end_the_window() {
    let w = b"%PDF-1.7 body %%EOF".to_vec();
    let hits = CarverEngine::carve_window(&w);
    assert_eq!(hits.len(), 1);
    assert_eq!(hits[0].kind, CarveKind::Pdf);
    assert_eq!((hits[0].start, hits[0].size), (0, 19));
    assert!(!hits[0].fragmented);

    let mut longer = w.clone();
    longer.extend(b"tail.");
    let hits = CarverEngine::carve_window(&longer);
    assert_eq!(hits.len(), 1);
    assert_eq!((hits[0].start, hits[0].size), (0, 19));

    let bare = b"%PDF-%%EOF".to_vec();
    let hits = CarverEngine::carve_window(&bare);
    assert_eq!(hits.len(), 1);
    assert_eq!((hits[0].start, hits[0].size), (0, 10));

    assert_eq!(CarverEngine::carve_window(b"%PDF-1.7 no trailer %%EO").len(), 0);
}

#[test]
fn pdf_ending_the_disk_is_recovered() {
    let d = b"%PDF-1.4\n%%EOF".to_vec();
    assert_eq!(d.len(), 14);
    let hits = CarverEngine::carve_window(&d);
    assert_eq!(hits.len(), 1);
    let (mut plans, next) = CarverEngine::plan_artifacts(&hits, 0, "out", 0);
    assert_eq!(next, 1);
    assert_eq!(plans[0].artifact.file_type, "PDF Document");
    assert_eq!(plans[0].artifact.output_path, "out/carved_doc_0.pdf");
    assert_eq!((plans[0].payload_start, plans[0].payload_end), (0, 14));
    let done = CarverEngine::complete_artifact(plans.remove(0), &d, Ok(())).unwrap();
    assert_eq!(done.start_offset, 0);
    assert_eq!(done.size_bytes, 14);
    assert_eq!(done.sha256_checksum, shannonscope::digest::sha256_hex(&d));
    assert!(!done.is_fragmented_candidate);

    let dh = DesktopCarver::carve_window(&d);
    assert_eq!(dh.len(), 1);
    let (mut dp, _) = DesktopCarver::plan_artifacts(&dh, d.len(), 0, "out", 0);
    assert_eq!(dp[0].artifact.file_type, "PDF Document");
    assert_eq!(dp[0].artifact.output_path, "out/carved_doc_0.pdf");
    assert_eq!(dp[0].artifact.confidence_permille, 980);
    let ddone = DesktopCarver::complete_artifact(dp.remove(0), &d, Ok(()), false).unwrap();
    assert_eq!(ddone.size_bytes, 14);
    assert!(ddone.threat_tags.is_empty());
}

#[test]
fn zip_with_and_without_end_record() {
    let mut w = b"PK\x03\x04".to_vec();
    w.extend(vec![0u8; 10]);
    w.extend(b"PK\x05\x06");
    w.extend(vec![0u8; 18]);
    w.extend(vec![0u8; 30]);
    let hits = CarverEngine::carve_window(&w);
    assert_eq!(hits.len(), 1);
    assert_eq!(hits[0].kind, CarveKind::Zip);
    assert_eq!((hits[0].start, hits[0].size), (0, 36));
    assert!(!hits[0].fragmented);

    let mut w2 = b"PK\x03\x04".to_vec();
    w2.extend(vec![0u8; 40]);
    let hits2 = CarverEngine::carve_window(&w2);
    assert_eq!(hits2.len(), 1);
    assert_eq!((hits2[0].start, hits2[0].size), (0, 44));
    assert!(hits2[0].fragmented);
}

#[test]
fn short_window_with_zip_header_is_not_scannable() {
    assert!(!CarverEngine::window_is_scannable(b"..PK\x03\x04.."));
    assert!(CarverEngine::window_is_scannable(b"short window"));
    assert!(CarverEngine::window_is_scannable(&[0u8; 22]));
}

#[test]
fn png_and_basic_mp4() {
    let mut w = b"\x89PNG\r\n\x1a\n".to_vec();
    w.extend(b"data");
    w.extend(b"IEND\xaeB\x60\x82");
    w.extend(vec![0u8; 8]);
    let hits = CarverEngine::carve_window(&w);
    assert_eq!(hits.len(), 1);
    assert_eq!(hits[0].kind, CarveKind::Png);
    assert_eq!(hits[0].size, 20);

    let mut v = vec![0u8, 0, 0, 24];
    v.extend(b"ftypisom");
    v.extend(vec![0u8; 20]);
    let hits = CarverEngine::carve_window(&v);
    assert_eq!(hits.len(), 1);
    assert_eq!(hits[0].kind, CarveKind::Mp4);
    assert_eq!((hits[0].start, hits[0].size), (0, 32));
    assert!(hits[0].fragmented);
}

#[test]
fn plan_numbers_written_artifacts() {
    let mut w = riff(4);
    w.extend([0xFF, 0xD8, 0xFF, 0x00]);
    let hits = CarverEngine::carve_window(&w);
    assert_eq!(hits.len(), 2);
    let (plans, next) = CarverEngine::plan_artifacts(&hits, 4096, "recovered", 7);
    assert_eq!(next, 8);
    assert_eq!(plans[0].artifact.file_type, "WAV/RIFF");
    assert_eq!(plans[0].artifact.output_path, "recovered/carved_audio_7.wav");
    assert_eq!(plans[0].artifact.start_offset, 4096);
    assert_eq!(plans[0].persist, PersistPolicy::AbortOnError);
    assert_eq!((plans[0].payload_start, plans[0].payload_end), (0, 12));
    assert_eq!(plans[1].artifact.file_type, "JPEG (Fragmented/Truncated)");
    assert_eq!(plans[1].artifact.output_path, "NONE_TRUNCATED");
    assert_eq!(plans[1].artifact.sha256_checksum, "UNCOMPLETED_HASH");
    assert_eq!(plans[1].artifact.start_offset, 4108);
    assert_eq!(plans[1].persist, PersistPolicy::Skip);
    assert!(plans[1].artifact.is_fragmented_candidate);
}

#[test]
fn completing_artifacts_follows_policy() {
    let w = riff(4);
    let hits = CarverEngine::carve_window(&w);
    let (mut plans, _) = CarverEngine::plan_artifacts(&hits, 0, "out", 0);
    let plan = plans.remove(0);
    let done = CarverEngine::complete_artifact(plan, &w, Ok(())).unwrap();
    assert_eq!(done.sha256_checksum, shannonscope::digest::sha256_hex(&w));

    let (mut plans, _) = CarverEngine::plan_artifacts(&hits, 0, "out", 0);
    let failed = CarverEngine::complete_artifact(plans.remove(0), &w, Err("disk full".to_string()));
    assert_eq!(failed.unwrap_err(), "disk full");

    let mut z = b"PK\x03\x04".to_vec();
    z.extend(vec![0u8; 40]);
    let zh = CarverEngine::carve_window(&z);
    let (mut zp, _) = CarverEngine::plan_artifacts(&zh, 0, "out", 3);
    assert_eq!(zp[0].artifact.output_path, "out/carved_archive_or_doc_3.zip");
    let zdone = CarverEngine::complete_artifact(zp.remove(0), &z, Err("denied".to_string())).unwrap();
    assert_eq!(zdone.sha256_checksum, "HASH_ERROR");
}

#[test]
fn windows_advance_with_overlap() {
    assert_eq!(CarverEngine::next_window_offset(0, CHUNK_SIZE, false), Some((CHUNK_SIZE - OVERLAP_SIZE) as u64));
    assert_eq!(CarverEngine::next_window_offset(100, 500, false), None);
    assert_eq!(CarverEngine::next_window_offset(100, 500, true), Some(600));
}

#[test]
fn histogram_counts_bytes() {
    let h = byte_histogram(&[1, 1, 2, 255, 1]);
    assert_eq!(h.len(), 256);
    assert_eq!(h[1], 3);
    assert_eq!(h[2], 1);
    assert_eq!(h[255], 1);
    assert_eq!(h[0], 0);
}

#[test]
fn desktop_mp4_walks_boxes_to_moov() {
    let mut w = vec![0u8, 0, 0, 16];
    w.extend(b"ftypisom");
    w.extend([0u8; 4]);
    w.extend([0u8, 0, 0, 24]);
    w.extend(b"moov");
    w.extend(vec![0u8; 16]);
    w.extend(vec![0u8; 8]);
    let hits = DesktopCarver::carve_window(&w);
    assert_eq!(hits.len(), 1);
    assert_eq!(hits[0].kind, CarveKind::Mp4);
    assert_eq!(hits[0].size, 40);
    assert!(!hits[0].fragmented);
    let (plans, next) = DesktopCarver::plan_artifacts(&hits, w.len(), 0, "rec", 0);
    assert_eq!(next, 1);
    assert_eq!(plans[0].artifact.output_path, "rec/carved_video_0.mp4");
    assert_eq!(plans[0].artifact.sha256_checksum, "Dynamic_Disk_Stream");
    assert_eq!(plans[0].artifact.confidence_permille, 990);
    assert_eq!(plans[0].entropy_range, Some((0, 40)));
    assert_eq!(plans[0].stego_threshold_millibits, 7970);
}

#[test]
fn desktop_mp4_falls_back_on_bad_box() {
    let mut w = vec![0u8, 0, 0, 4];
    w.extend(b"ftyp");
    w.extend(vec![0u8; 8]);
    let hits = DesktopCarver::carve_window(&w);
    assert_eq!(hits.len(), 1);
    assert_eq!(hits[0].size, 15 * 1024 * 1024);
}

#[test]
fn desktop_jpeg_gets_stego_tag() {
    let w = vec![0xFFu8, 0xD8, 0xFF, 0xD9, 0x00];
    let hits = DesktopCarver::carve_window(&w);
    assert_eq!(hits.len(), 1);
    let (mut plans, _) = DesktopCarver::plan_artifacts(&hits, w.len(), 10, "rec", 0);
    assert_eq!(plans[0].artifact.confidence_permille, 1000);
    let done = DesktopCarver::complete_artifact(plans.remove(0), &w[0..4], Ok(()), true).unwrap();
    assert_eq!(done.threat_tags, vec!["STEGANOGRAPHY_DETECTED".to_string()]);
    assert_eq!(done.start_offset, 10);
    assert_eq!(done.output_path, "rec/carved_image_0.jpg");
}

#[test]
fn desktop_windows_advance() {
    assert_eq!(DesktopCarver::next_window_offset(0, 3 * 1024 * 1024, false), Some(1024 * 1024));
    assert_eq!(DesktopCarver::next_window_offset(0, 1024, false), None);
}
