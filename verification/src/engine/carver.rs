use vstd::prelude::*;

use crate::carving::{
    law_first_riff_recovered, le32_at, lemma_hits_concat_contains,
    jpeg_hits_from, jpeg_pass, mp4_basic_hits_from, mp4_basic_pass, pdf_hits_from, pdf_pass,
    png_hits_from, png_pass, riff_hits_from, riff_pass, zip_hits_from, zip_local_header, zip_pass,
    zip_scannable, CarveHit, CarveKind,
};
use crate::digest::{sha256, sha256_hex};
use crate::text::{decimal, hex_lower, occurs_at, push_decimal};
use vstd::string::StringExecFns;

verus! {

/// Bytes read from the target per scan window (4 MiB).
pub const CHUNK_SIZE: usize = 4 * 1024 * 1024;

/// Bytes by which consecutive full windows overlap (64 KiB), so that a signature split
/// across a window boundary is seen whole in the next window.
pub const OVERLAP_SIZE: usize = 64 * 1024;

/// A file recovered from the target, as reported to the operator.
#[derive(Debug)]
pub struct CarvedArtifact {
    pub file_type: String,
    pub start_offset: u64,
    pub size_bytes: u64,
    pub output_path: String,
    pub sha256_checksum: String,
    pub is_fragmented_candidate: bool,
}

/// What to do with a hit's bytes: keep them in memory only, or write them to the
/// artifact's output file, either giving up the whole scan when that fails or recording
/// `HASH_ERROR` as its checksum.
#[derive(Debug, Clone, Copy, PartialEq, Eq)]
pub enum PersistPolicy {
    Skip,
    AbortOnError,
    MarkHashError,
}

/// An artifact found in a window before its bytes are written out: the report entry
/// (whose checksum is filled in once the bytes are written), the hit's payload range
/// within the window, and how a failed write is handled.
#[derive(Debug)]
pub struct PlannedArtifact {
    pub artifact: CarvedArtifact,
    pub payload_start: usize,
    pub payload_end: usize,
    pub persist: PersistPolicy,
}

/// All hits of one window, in the order the scan reports them: RIFF, JPEG, PDF, ZIP,
/// PNG, then MP4.
pub open spec fn window_hits(s: Seq<u8>) -> Seq<CarveHit> {
    riff_hits_from(s, 0) + jpeg_hits_from(s, 0) + pdf_hits_from(s, 0) + zip_hits_from(s, 0)
        + png_hits_from(s, 0) + mp4_basic_hits_from(s, 0)
}

/// How a hit of `kind` is persisted.
pub open spec fn persist_policy(kind: CarveKind) -> PersistPolicy {
    match kind {
        CarveKind::JpegTruncated => PersistPolicy::Skip,
        CarveKind::Zip | CarveKind::Png => PersistPolicy::MarkHashError,
        _ => PersistPolicy::AbortOnError,
    }
}

/// The file type reported for a hit of `kind`.
pub open spec fn kind_label(kind: CarveKind) -> Seq<char> {
    match kind {
        CarveKind::Riff => "WAV/RIFF"@,
        CarveKind::Jpeg => "JPEG"@,
        CarveKind::JpegTruncated => "JPEG (Fragmented/Truncated)"@,
        CarveKind::Pdf => "PDF Document"@,
        CarveKind::Zip => "ZIP / DOCX / XLSX"@,
        CarveKind::Png => "PNG Image"@,
        CarveKind::Mp4 => "MP4 Video"@,
    }
}

/// The part of an output file name between the directory and the counter.
pub open spec fn kind_stem(kind: CarveKind) -> Seq<char> {
    match kind {
        CarveKind::Riff => "/carved_audio_"@,
        CarveKind::Jpeg | CarveKind::JpegTruncated | CarveKind::Png => "/carved_image_"@,
        CarveKind::Pdf => "/carved_doc_"@,
        CarveKind::Zip => "/carved_archive_or_doc_"@,
        CarveKind::Mp4 => "/carved_video_"@,
    }
}

/// The extension of an output file for `kind`.
pub open spec fn kind_extension(kind: CarveKind) -> Seq<char> {
    match kind {
        CarveKind::Riff => ".wav"@,
        CarveKind::Jpeg | CarveKind::JpegTruncated => ".jpg"@,
        CarveKind::Pdf => ".pdf"@,
        CarveKind::Zip => ".zip"@,
        CarveKind::Png => ".png"@,
        CarveKind::Mp4 => ".mp4"@,
    }
}

/// The output file of the `counter`-th written artifact, of `kind`, under `dir`.
pub open spec fn artifact_path(dir: Seq<char>, kind: CarveKind, counter: u64) -> Seq<char> {
    dir + kind_stem(kind) + decimal(counter as nat) + kind_extension(kind)
}

/// How many of `hits` are written out (all but truncated JPEG fragments).
pub open spec fn written_count(hits: Seq<CarveHit>) -> nat
    decreases hits.len(),
{
    if hits.len() == 0 {
        0
    } else {
        written_count(hits.drop_last()) + if hits.last().kind == CarveKind::JpegTruncated {
            0nat
        } else {
            1nat
        }
    }
}

/// The planned report entry for hit `h` of a window read at `window_offset`, numbered
/// `counter` among the written artifacts.
pub open spec fn planned_for(
    p: PlannedArtifact,
    h: CarveHit,
    window_offset: u64,
    dir: Seq<char>,
    counter: u64,
) -> bool {
    &&& p.artifact.file_type@ == kind_label(h.kind)
    &&& p.artifact.start_offset == window_offset + h.start
    &&& p.artifact.size_bytes == h.size
    &&& p.artifact.is_fragmented_candidate == h.fragmented
    &&& p.persist == persist_policy(h.kind)
    &&& p.payload_start == h.start
    &&& p.payload_end == h.start + h.size
    &&& if h.kind == CarveKind::JpegTruncated {
        &&& p.artifact.output_path@ == "NONE_TRUNCATED"@
        &&& p.artifact.sha256_checksum@ == "UNCOMPLETED_HASH"@
    } else {
        &&& p.artifact.output_path@ == artifact_path(dir, h.kind, counter)
        &&& p.artifact.sha256_checksum@ == Seq::<char>::empty()
    }
}

/// `a` is `b` with its checksum replaced by `checksum`.
pub open spec fn with_checksum(a: CarvedArtifact, b: CarvedArtifact, checksum: Seq<char>) -> bool {
    &&& a.file_type@ == b.file_type@
    &&& a.start_offset == b.start_offset
    &&& a.size_bytes == b.size_bytes
    &&& a.output_path@ == b.output_path@
    &&& a.is_fragmented_candidate == b.is_fragmented_candidate
    &&& a.sha256_checksum@ == checksum
}

fn kind_label_string(kind: CarveKind) -> (r: String)
    ensures
        r@ == kind_label(kind),
{
    match kind {
        CarveKind::Riff => String::from_str("WAV/RIFF"),
        CarveKind::Jpeg => String::from_str("JPEG"),
        CarveKind::JpegTruncated => String::from_str("JPEG (Fragmented/Truncated)"),
        CarveKind::Pdf => String::from_str("PDF Document"),
        CarveKind::Zip => String::from_str("ZIP / DOCX / XLSX"),
        CarveKind::Png => String::from_str("PNG Image"),
        CarveKind::Mp4 => String::from_str("MP4 Video"),
    }
}

fn kind_policy(kind: CarveKind) -> (r: PersistPolicy)
    ensures
        r == persist_policy(kind),
{
    match kind {
        CarveKind::JpegTruncated => PersistPolicy::Skip,
        CarveKind::Zip | CarveKind::Png => PersistPolicy::MarkHashError,
        _ => PersistPolicy::AbortOnError,
    }
}

/// The scanner for recoverable files in raw disk images.
pub struct CarverEngine;

impl CarverEngine {
    /// Whether the window can be scanned: it is not shorter than a ZIP end record while
    /// holding a ZIP local header (on such a window the ZIP scan has no valid range).
    pub fn window_is_scannable(window: &[u8]) -> (r: bool)
        ensures
            r == zip_scannable(window@),
    {
        if window.len() >= 22 {
            return true;
        }
        let header: [u8; 4] = [0x50, 0x4B, 0x03, 0x04];
        assert(header@ =~= zip_local_header());
        let found = crate::text::bytes_contain(window, &header);
        found == false
    }

    /// All signature hits of one window, in report order.
    pub fn carve_window(window: &[u8]) -> (hits: Vec<CarveHit>)
        requires
            zip_scannable(window@),
        ensures
            hits@ == window_hits(window@),
    {
        let mut hits: Vec<CarveHit> = Vec::new();
        riff_pass(window, &mut hits);
        jpeg_pass(window, &mut hits);
        pdf_pass(window, &mut hits);
        zip_pass(window, &mut hits);
        png_pass(window, &mut hits);
        mp4_basic_pass(window, &mut hits);
        assert(hits@ =~= window_hits(window@));
        hits
    }

    /// The output file of the `counter`-th written artifact of `kind` under `output_dir`.
    pub fn artifact_file_name(output_dir: &str, kind: CarveKind, counter: u64) -> (r: String)
        ensures
            r@ == artifact_path(output_dir@, kind, counter),
    {
        let mut r = String::from_str(output_dir);
        match kind {
            CarveKind::Riff => r.append("/carved_audio_"),
            CarveKind::Jpeg | CarveKind::JpegTruncated | CarveKind::Png => r.append("/carved_image_"),
            CarveKind::Pdf => r.append("/carved_doc_"),
            CarveKind::Zip => r.append("/carved_archive_or_doc_"),
            CarveKind::Mp4 => r.append("/carved_video_"),
        }
        push_decimal(&mut r, counter);
        match kind {
            CarveKind::Riff => r.append(".wav"),
            CarveKind::Jpeg | CarveKind::JpegTruncated => r.append(".jpg"),
            CarveKind::Pdf => r.append(".pdf"),
            CarveKind::Zip => r.append(".zip"),
            CarveKind::Png => r.append(".png"),
            CarveKind::Mp4 => r.append(".mp4"),
        }
        r
    }

    /// Plans the report entries for the hits of a window read at `window_offset`;
    /// written artifacts are numbered from `first_counter` on. Returns the plans, in hit
    /// order, and the next free number.
    pub fn plan_artifacts(
        hits: &Vec<CarveHit>,
        window_offset: u64,
        output_dir: &str,
        first_counter: u64,
    ) -> (r: (Vec<PlannedArtifact>, u64))
        requires
            first_counter + hits@.len() <= u64::MAX,
            forall|k: int| 0 <= k < hits@.len() ==> window_offset + (#[trigger] hits@[k]).start
                <= u64::MAX && hits@[k].start + hits@[k].size <= usize::MAX,
        ensures
            r.0@.len() == hits@.len(),
            r.1 == first_counter + written_count(hits@),
            forall|k: int| 0 <= k < hits@.len() ==> planned_for(
                #[trigger] r.0@[k],
                hits@[k],
                window_offset,
                output_dir@,
                (first_counter + written_count(hits@.take(k))) as u64,
            ),
    {
        let mut plans: Vec<PlannedArtifact> = Vec::new();
        let mut counter: u64 = first_counter;
        let mut k: usize = 0;
        while k < hits.len()
            invariant
                k <= hits@.len(),
                first_counter + hits@.len() <= u64::MAX,
                forall|m: int| 0 <= m < hits@.len() ==> window_offset + (#[trigger] hits@[m]).start
                    <= u64::MAX && hits@[m].start + hits@[m].size <= usize::MAX,
                plans@.len() == k,
                written_count(hits@.take(k as int)) <= k,
                counter == first_counter + written_count(hits@.take(k as int)),
                forall|m: int| 0 <= m < k ==> planned_for(
                    #[trigger] plans@[m],
                    hits@[m],
                    window_offset,
                    output_dir@,
                    (first_counter + written_count(hits@.take(m))) as u64,
                ),
            decreases hits@.len() - k,
        {
            let h = hits[k];
            assert(hits@.take(k + 1).drop_last() =~= hits@.take(k as int));
            assert(hits@.take(k + 1).last() == h);
            let truncated = match h.kind {
                CarveKind::JpegTruncated => true,
                _ => false,
            };
            let (output_path, checksum) = if truncated {
                (String::from_str("NONE_TRUNCATED"), String::from_str("UNCOMPLETED_HASH"))
            } else {
                (Self::artifact_file_name(output_dir, h.kind, counter), String::new())
            };
            let artifact = CarvedArtifact {
                file_type: kind_label_string(h.kind),
                start_offset: window_offset + h.start as u64,
                size_bytes: h.size,
                output_path,
                sha256_checksum: checksum,
                is_fragmented_candidate: h.fragmented,
            };
            let plan = PlannedArtifact {
                artifact,
                payload_start: h.start,
                payload_end: h.start + h.size as usize,
                persist: kind_policy(h.kind),
            };
            plans.push(plan);
            if !truncated {
                counter = counter + 1;
            }
            k = k + 1;
        }
        assert(hits@.take(k as int) =~= hits@);
        (plans, counter)
    }

    /// Finishes a planned artifact once its payload has (or has not) been written:
    /// a truncated fragment is reported as planned; a written payload gets its SHA-256
    /// as checksum; a failed write either ends the scan with that error or is recorded
    /// as `HASH_ERROR`, following the plan's policy.
    pub fn complete_artifact(
        plan: PlannedArtifact,
        payload: &[u8],
        written: Result<(), String>,
    ) -> (r: Result<CarvedArtifact, String>)
        ensures
            match plan.persist {
                PersistPolicy::Skip => r matches Ok(a) && with_checksum(
                    a,
                    plan.artifact,
                    plan.artifact.sha256_checksum@,
                ),
                PersistPolicy::AbortOnError => match written {
                    Ok(_) => r matches Ok(a) && with_checksum(a, plan.artifact, hex_lower(sha256(payload@))),
                    Err(e) => r matches Err(e2) && e2@ == e@,
                },
                PersistPolicy::MarkHashError => r matches Ok(a) && with_checksum(
                    a,
                    plan.artifact,
                    match written {
                        Ok(_) => hex_lower(sha256(payload@)),
                        Err(_) => "HASH_ERROR"@,
                    },
                ),
            },
    {
        let mut artifact = plan.artifact;
        match plan.persist {
            PersistPolicy::Skip => Ok(artifact),
            PersistPolicy::AbortOnError => match written {
                Ok(_) => {
                    artifact.sha256_checksum = sha256_hex(payload);
                    Ok(artifact)
                },
                Err(e) => Err(e),
            },
            PersistPolicy::MarkHashError => {
                artifact.sha256_checksum = match written {
                    Ok(_) => sha256_hex(payload),
                    Err(_) => String::from_str("HASH_ERROR"),
                };
                Ok(artifact)
            },
        }
    }

    /// Where the next window starts after one of `bytes_read` bytes read at `current`:
    /// past the whole window when it was skipped for high entropy, one window less the
    /// overlap on after a full window, and nowhere (the scan ends) after a short one.
    pub fn next_window_offset(current: u64, bytes_read: usize, high_entropy: bool) -> (r: Option<u64>)
        requires
            current + bytes_read <= u64::MAX,
        ensures
            r == if high_entropy {
                Some((current + bytes_read) as u64)
            } else if bytes_read == CHUNK_SIZE {
                Some((current + (CHUNK_SIZE - OVERLAP_SIZE)) as u64)
            } else {
                None::<u64>
            },
    {
        if high_entropy {
            Some(current + bytes_read as u64)
        } else if bytes_read == CHUNK_SIZE {
            Some(current + (CHUNK_SIZE - OVERLAP_SIZE) as u64)
        } else {
            None
        }
    }
}

/// The scan always moves forward: after a window of at least one byte, the next window,
/// if any, starts strictly after the current one and no later than the current window's end.
pub proof fn law_windows_advance(current: u64, bytes_read: usize, high_entropy: bool)
    requires
        0 < bytes_read <= CHUNK_SIZE,
        current + bytes_read <= u64::MAX,
    ensures
        ({
            let next = if high_entropy {
                Some((current + bytes_read) as u64)
            } else if bytes_read == CHUNK_SIZE {
                Some((current + (CHUNK_SIZE - OVERLAP_SIZE)) as u64)
            } else {
                None::<u64>
            };
            next matches Some(n) ==> current < n <= current + bytes_read
        }),
{
}

/// A window's first `RIFF` tag whose declared size plus the 8-byte header fits is
/// recovered: it is the first hit the window reports, a complete RIFF container spanning
/// the tag and its declared body. A window that is exactly one RIFF container gives that
/// container as its first hit.
pub proof fn law_window_recovers_riff(s: Seq<u8>, c: int)
    requires
        s.len() <= usize::MAX,
        0 <= c,
        c + 8 <= s.len(),
        occurs_at(s, seq![0x52u8, 0x49, 0x46, 0x46], c),
        c + le32_at(s, c + 4) + 8 <= s.len(),
        forall|j: int| 0 <= j < c ==> !occurs_at(s, seq![0x52u8, 0x49, 0x46, 0x46], j),
    ensures
        window_hits(s).len() >= 1,
        window_hits(s)[0].kind == CarveKind::Riff,
        window_hits(s)[0].start == c,
        window_hits(s)[0].size == le32_at(s, c + 4) + 8,
        !window_hits(s)[0].fragmented,
{
    law_first_riff_recovered(s, c);
}

/// A window reports exactly what its format scans find: every RIFF, JPEG, PDF, ZIP, PNG
/// and MP4 hit of the window, and nothing else.
pub proof fn law_window_reports_every_format(s: Seq<u8>)
    ensures
        forall|h: CarveHit| #[trigger] window_hits(s).contains(h) <==> (riff_hits_from(s, 0).contains(h)
            || jpeg_hits_from(s, 0).contains(h) || pdf_hits_from(s, 0).contains(h) || zip_hits_from(s, 0).contains(h)
            || png_hits_from(s, 0).contains(h) || mp4_basic_hits_from(s, 0).contains(h)),
{
    let r = riff_hits_from(s, 0);
    let j = jpeg_hits_from(s, 0);
    let p = pdf_hits_from(s, 0);
    let z = zip_hits_from(s, 0);
    let g = png_hits_from(s, 0);
    let m = mp4_basic_hits_from(s, 0);
    lemma_hits_concat_contains(r, j);
    lemma_hits_concat_contains(r + j, p);
    lemma_hits_concat_contains(r + j + p, z);
    lemma_hits_concat_contains(r + j + p + z, g);
    lemma_hits_concat_contains(r + j + p + z + g, m);
}

} // verus!
