use vstd::prelude::*;

use crate::carving::{
    law_first_riff_recovered, le32_at, lemma_hits_concat_contains,
    jpeg_hits_from, jpeg_pass, mp4_atom_hits_from, mp4_atom_pass, pdf_hits_from, pdf_pass, riff_hits_from,
    riff_pass, CarveHit, CarveKind,
};
use crate::desktop::types::CarvedArtifact;
use crate::digest::{sha256, sha256_hex};
use crate::text::{decimal, hex_lower, occurs_at, push_decimal};
use vstd::string::StringExecFns;

verus! {

/// Bytes read from the target per scan window (64 MiB).
pub const CHUNK_SIZE: usize = 64 * 1024 * 1024;

/// Bytes by which consecutive windows overlap (2 MiB).
pub const OVERLAP_SIZE: usize = 2 * 1024 * 1024;

/// The most bytes of a video that its steganography check looks at (1 MiB).
pub const VIDEO_ENTROPY_SPAN: u64 = 1024 * 1024;

/// What happens to a hit's bytes: nothing (a truncated fragment), a write of the window
/// bytes that ends the scan when it fails, or a copy streamed straight from the target
/// whose failure is ignored.
#[derive(Debug, Clone, Copy, PartialEq, Eq)]
pub enum PersistPolicy {
    Skip,
    AbortOnError,
    StreamFromDisk,
}

/// An artifact found in a window before its bytes are persisted: the gallery entry, the
/// hit's bytes within the window, the window range whose entropy decides the
/// steganography tag (with its threshold in thousandths of a bit per byte), and how the
/// bytes are persisted.
#[derive(Debug)]
pub struct PlannedArtifact {
    pub artifact: CarvedArtifact,
    pub payload_start: usize,
    pub payload_end: usize,
    pub entropy_range: Option<(usize, usize)>,
    pub stego_threshold_millibits: u32,
    pub persist: PersistPolicy,
}

/// All hits of one window, in report order: RIFF, JPEG, PDF, then MP4.
pub open spec fn window_hits(s: Seq<u8>) -> Seq<CarveHit> {
    riff_hits_from(s, 0) + jpeg_hits_from(s, 0) + pdf_hits_from(s, 0) + mp4_atom_hits_from(
        s,
        0,
        CHUNK_SIZE as int,
    )
}

/// The file type reported for a hit of `kind`.
pub open spec fn kind_label(kind: CarveKind) -> Seq<char> {
    match kind {
        CarveKind::Riff => "WAV/RIFF"@,
        CarveKind::Jpeg => "JPEG"@,
        CarveKind::JpegTruncated => "JPEG (Fragmented/Truncated)"@,
        CarveKind::Pdf => "PDF Document"@,
        _ => "MP4 Video"@,
    }
}

/// The confidence, in thousandths, of a hit of `kind`.
pub open spec fn kind_confidence(kind: CarveKind) -> u16 {
    match kind {
        CarveKind::Riff => 990,
        CarveKind::Jpeg => 1000,
        CarveKind::JpegTruncated => 400,
        CarveKind::Pdf => 980,
        _ => 990,
    }
}

/// How a hit of `kind` is persisted.
pub open spec fn persist_policy(kind: CarveKind) -> PersistPolicy {
    match kind {
        CarveKind::JpegTruncated => PersistPolicy::Skip,
        CarveKind::Mp4 => PersistPolicy::StreamFromDisk,
        _ => PersistPolicy::AbortOnError,
    }
}

/// The entropy above which a hit of `kind` is tagged as steganography, in thousandths
/// (0 where no check is made).
pub open spec fn stego_threshold(kind: CarveKind) -> u32 {
    match kind {
        CarveKind::Jpeg => 7980,
        CarveKind::Pdf => 7950,
        CarveKind::Mp4 => 7970,
        _ => 0,
    }
}

/// The window range whose entropy is checked for a hit in a window of `len` bytes.
pub open spec fn entropy_range_of(h: CarveHit, len: int) -> Option<(usize, usize)> {
    match h.kind {
        CarveKind::Jpeg | CarveKind::Pdf => Some((h.start, (h.start + h.size) as usize)),
        CarveKind::Mp4 => {
            let span = if h.size < VIDEO_ENTROPY_SPAN {
                h.size as int
            } else {
                VIDEO_ENTROPY_SPAN as int
            };
            Some((h.start, if h.start + span < len { (h.start + span) as usize } else { len as usize }))
        },
        _ => None,
    }
}

/// The output file of the `counter`-th written artifact of `kind` under `dir`.
pub open spec fn artifact_path(dir: Seq<char>, kind: CarveKind, counter: u64) -> Seq<char> {
    dir + match kind {
        CarveKind::Riff => "/carved_audio_"@,
        CarveKind::Pdf => "/carved_doc_"@,
        CarveKind::Mp4 => "/carved_video_"@,
        _ => "/carved_image_"@,
    } + decimal(counter as nat) + match kind {
        CarveKind::Riff => ".wav"@,
        CarveKind::Pdf => ".pdf"@,
        CarveKind::Mp4 => ".mp4"@,
        _ => ".jpg"@,
    }
}

/// How many of `hits` get a numbered output file (all but truncated JPEG fragments).
pub open spec fn written_count(hits: Seq<CarveHit>) -> nat
    decreases hits.len(),
{
    if hits.len() == 0 {
        0
    } else {
        written_count(hits.drop_last()) + if hits.last().kind == CarveKind::JpegTruncated {
            0nat
        } else {
            1nat
        }
    }
}

/// The planned gallery entry for hit `h` of a window of `len` bytes read at
/// `window_offset`, numbered `counter` among the written artifacts.
pub open spec fn planned_for(
    p: PlannedArtifact,
    h: CarveHit,
    len: int,
    window_offset: u64,
    dir: Seq<char>,
    counter: u64,
) -> bool {
    &&& p.artifact.file_type@ == kind_label(h.kind)
    &&& p.artifact.start_offset == window_offset + h.start
    &&& p.artifact.size_bytes == h.size
    &&& p.artifact.is_fragmented_candidate == h.fragmented
    &&& p.artifact.confidence_permille == kind_confidence(h.kind)
    &&& p.artifact.regex_strings@.len() == 0
    &&& p.artifact.threat_tags@.len() == 0
    &&& p.persist == persist_policy(h.kind)
    &&& p.stego_threshold_millibits == stego_threshold(h.kind)
    &&& p.entropy_range == entropy_range_of(h, len)
    &&& p.payload_start == h.start
    &&& p.payload_end == if h.kind == CarveKind::Mp4 {
        h.start
    } else {
        (h.start + h.size) as usize
    }
    &&& if h.kind == CarveKind::JpegTruncated {
        &&& p.artifact.output_path@ == "NONE_TRUNCATED"@
        &&& p.artifact.sha256_checksum@ == "UNCOMPLETED_HASH"@
    } else {
        &&& p.artifact.output_path@ == artifact_path(dir, h.kind, counter)
        &&& p.artifact.sha256_checksum@ == if h.kind == CarveKind::Mp4 {
            "Dynamic_Disk_Stream"@
        } else {
            Seq::<char>::empty()
        }
    }
}

/// `a` is `b` with checksum `checksum` and the steganography tag added when `stego`.
pub open spec fn completed_from(a: CarvedArtifact, b: CarvedArtifact, checksum: Seq<char>, stego: bool) -> bool {
    &&& a.file_type@ == b.file_type@
    &&& a.start_offset == b.start_offset
    &&& a.size_bytes == b.size_bytes
    &&& a.output_path@ == b.output_path@
    &&& a.is_fragmented_candidate == b.is_fragmented_candidate
    &&& a.confidence_permille == b.confidence_permille
    &&& a.regex_strings@ == b.regex_strings@
    &&& a.sha256_checksum@ == checksum
    &&& a.threat_tags@.map_values(|t: String| t@) == if stego {
        b.threat_tags@.map_values(|t: String| t@).push("STEGANOGRAPHY_DETECTED"@)
    } else {
        b.threat_tags@.map_values(|t: String| t@)
    }
}

/// The scanner for recoverable files, with box-walking video recovery and
/// steganography tagging.
pub struct CarverEngine;

impl CarverEngine {
    /// All signature hits of one window, in report order.
    pub fn carve_window(window: &[u8]) -> (hits: Vec<CarveHit>)
        requires
            window@.len() <= isize::MAX,
        ensures
            hits@ == window_hits(window@),
    {
        let mut hits: Vec<CarveHit> = Vec::new();
        riff_pass(window, &mut hits);
        jpeg_pass(window, &mut hits);
        pdf_pass(window, &mut hits);
        mp4_atom_pass(window, CHUNK_SIZE as u64, &mut hits);
        assert(hits@ =~= window_hits(window@));
        hits
    }

    fn artifact_file_name(output_dir: &str, kind: CarveKind, counter: u64) -> (r: String)
        ensures
            r@ == artifact_path(output_dir@, kind, counter),
    {
        let mut r = String::from_str(output_dir);
        match kind {
            CarveKind::Riff => r.append("/carved_audio_"),
            CarveKind::Pdf => r.append("/carved_doc_"),
            CarveKind::Mp4 => r.append("/carved_video_"),
            _ => r.append("/carved_image_"),
        }
        push_decimal(&mut r, counter);
        match kind {
            CarveKind::Riff => r.append(".wav"),
            CarveKind::Pdf => r.append(".pdf"),
            CarveKind::Mp4 => r.append(".mp4"),
            _ => r.append(".jpg"),
        }
        r
    }

    fn plan_one(h: CarveHit, len: usize, window_offset: u64, output_dir: &str, counter: u64) -> (p: PlannedArtifact)
        requires
            window_offset + h.start <= u64::MAX,
            h.kind != CarveKind::Mp4 ==> h.start + h.size <= len,
            h.start <= len,
        ensures
            planned_for(p, h, len as int, window_offset, output_dir@, counter),
    {
        let label = match h.kind {
            CarveKind::Riff => String::from_str("WAV/RIFF"),
            CarveKind::Jpeg => String::from_str("JPEG"),
            CarveKind::JpegTruncated => String::from_str("JPEG (Fragmented/Truncated)"),
            CarveKind::Pdf => String::from_str("PDF Document"),
            _ => String::from_str("MP4 Video"),
        };
        let confidence: u16 = match h.kind {
            CarveKind::Riff => 990,
            CarveKind::Jpeg => 1000,
            CarveKind::JpegTruncated => 400,
            CarveKind::Pdf => 980,
            _ => 990,
        };
        let persist = match h.kind {
            CarveKind::JpegTruncated => PersistPolicy::Skip,
            CarveKind::Mp4 => PersistPolicy::StreamFromDisk,
            _ => PersistPolicy::AbortOnError,
        };
        let threshold: u32 = match h.kind {
            CarveKind::Jpeg => 7980,
            CarveKind::Pdf => 7950,
            CarveKind::Mp4 => 7970,
            _ => 0,
        };
        let entropy_range = match h.kind {
            CarveKind::Jpeg | CarveKind::Pdf => Some((h.start, h.start + h.size as usize)),
            CarveKind::Mp4 => {
                let span: u64 = if h.size < VIDEO_ENTROPY_SPAN {
                    h.size
                } else {
                    VIDEO_ENTROPY_SPAN
                };
                let end: usize = if span < (len - h.start) as u64 {
                    h.start + span as usize
                } else {
                    len
                };
                Some((h.start, end))
            },
            _ => None,
        };
        let (output_path, checksum) = match h.kind {
            CarveKind::JpegTruncated => (String::from_str("NONE_TRUNCATED"), String::from_str("UNCOMPLETED_HASH")),
            CarveKind::Mp4 => (
                Self::artifact_file_name(output_dir, h.kind, counter),
                String::from_str("Dynamic_Disk_Stream"),
            ),
            _ => (Self::artifact_file_name(output_dir, h.kind, counter), String::new()),
        };
        let payload_end: usize = match h.kind {
            CarveKind::Mp4 => h.start,
            _ => h.start + h.size as usize,
        };
        PlannedArtifact {
            artifact: CarvedArtifact {
                file_type: label,
                start_offset: window_offset + h.start as u64,
                size_bytes: h.size,
                output_path,
                sha256_checksum: checksum,
                is_fragmented_candidate: h.fragmented,
                confidence_permille: confidence,
                regex_strings: Vec::new(),
                threat_tags: Vec::new(),
            },
            payload_start: h.start,
            payload_end,
            entropy_range,
            stego_threshold_millibits: threshold,
            persist,
        }
    }

    /// Plans the gallery entries for the hits of a window of `len` bytes read at
    /// `window_offset`; written artifacts are numbered from `first_counter` on. Returns
    /// the plans, in hit order, and the next free number.
    pub fn plan_artifacts(
        hits: &Vec<CarveHit>,
        len: usize,
        window_offset: u64,
        output_dir: &str,
        first_counter: u64,
    ) -> (r: (Vec<PlannedArtifact>, u64))
        requires
            first_counter + hits@.len() <= u64::MAX,
            forall|k: int| 0 <= k < hits@.len() ==> {
                &&& window_offset + (#[trigger] hits@[k]).start <= u64::MAX
                &&& hits@[k].start <= len
                &&& hits@[k].kind != CarveKind::Mp4 ==> hits@[k].start + hits@[k].size <= len
            },
        ensures
            r.0@.len() == hits@.len(),
            r.1 == first_counter + written_count(hits@),
            forall|k: int| 0 <= k < hits@.len() ==> planned_for(
                #[trigger] r.0@[k],
                hits@[k],
                len as int,
                window_offset,
                output_dir@,
                (first_counter + written_count(hits@.take(k))) as u64,
            ),
    {
        let mut plans: Vec<PlannedArtifact> = Vec::new();
        let mut counter: u64 = first_counter;
        let mut k: usize = 0;
        while k < hits.len()
            invariant
                k <= hits@.len(),
                first_counter + hits@.len() <= u64::MAX,
                forall|m: int| 0 <= m < hits@.len() ==> {
                    &&& window_offset + (#[trigger] hits@[m]).start <= u64::MAX
                    &&& hits@[m].start <= len
                    &&& hits@[m].kind != CarveKind::Mp4 ==> hits@[m].start + hits@[m].size <= len
                },
                plans@.len() == k,
                written_count(hits@.take(k as int)) <= k,
                counter == first_counter + written_count(hits@.take(k as int)),
                forall|m: int| 0 <= m < k ==> planned_for(
                    #[trigger] plans@[m],
                    hits@[m],
                    len as int,
                    window_offset,
                    output_dir@,
                    (first_counter + written_count(hits@.take(m))) as u64,
                ),
            decreases hits@.len() - k,
        {
            let h = hits[k];
            assert(hits@.take(k + 1).drop_last() =~= hits@.take(k as int));
            assert(hits@.take(k + 1).last() == h);
            let plan = Self::plan_one(h, len, window_offset, output_dir, counter);
            plans.push(plan);
            match h.kind {
                CarveKind::JpegTruncated => {},
                _ => {
                    counter = counter + 1;
                },
            }
            k = k + 1;
        }
        assert(hits@.take(k as int) =~= hits@);
        (plans, counter)
    }

    /// Finishes a planned artifact once its bytes are persisted (or not): a written
    /// window payload gets its SHA-256 as checksum, a failed write ends the scan with
    /// that error, a streamed video keeps its checksum marker, and a truncated fragment
    /// is reported as planned; the steganography tag is added when `steganography`.
    pub fn complete_artifact(
        plan: PlannedArtifact,
        payload: &[u8],
        written: Result<(), String>,
        steganography: bool,
    ) -> (r: Result<CarvedArtifact, String>)
        ensures
            match plan.persist {
                PersistPolicy::AbortOnError => match written {
                    Ok(_) => r matches Ok(a) && completed_from(
                        a,
                        plan.artifact,
                        hex_lower(sha256(payload@)),
                        steganography,
                    ),
                    Err(e) => r matches Err(e2) && e2@ == e@,
                },
                _ => r matches Ok(a) && completed_from(
                    a,
                    plan.artifact,
                    plan.artifact.sha256_checksum@,
                    steganography,
                ),
            },
    {
        let mut artifact = plan.artifact;
        match plan.persist {
            PersistPolicy::AbortOnError => match written {
                Ok(_) => {
                    artifact.sha256_checksum = sha256_hex(payload);
                },
                Err(e) => {
                    return Err(e);
                },
            },
            _ => {},
        }
        if steganography {
            let ghost before = artifact.threat_tags@.map_values(|t: String| t@);
            artifact.threat_tags.push(String::from_str("STEGANOGRAPHY_DETECTED"));
            assert(artifact.threat_tags@.map_values(|t: String| t@) =~= before.push("STEGANOGRAPHY_DETECTED"@));
        }
        Ok(artifact)
    }

    /// Where the next window starts after one of `bytes_read` bytes read at `current`:
    /// past the whole window when it was skipped for high entropy, the window less the
    /// overlap on after a window longer than the overlap, and nowhere (the scan ends)
    /// after a shorter one.
    pub fn next_window_offset(current: u64, bytes_read: usize, high_entropy: bool) -> (r: Option<u64>)
        requires
            current + bytes_read <= u64::MAX,
        ensures
            r == if high_entropy {
                Some((current + bytes_read) as u64)
            } else if bytes_read > OVERLAP_SIZE {
                Some((current + (bytes_read - OVERLAP_SIZE)) as u64)
            } else {
                None::<u64>
            },
    {
        if high_entropy {
            Some(current + bytes_read as u64)
        } else if bytes_read > OVERLAP_SIZE {
            Some(current + (bytes_read - OVERLAP_SIZE) as u64)
        } else {
            None
        }
    }
}

/// The scan always moves forward: after a window of at least one byte, the next window,
/// if any, starts strictly after the current one and no later than its end.
pub proof fn law_windows_advance(current: u64, bytes_read: usize, high_entropy: bool)
    requires
        0 < bytes_read,
        current + bytes_read <= u64::MAX,
    ensures
        ({
            let next = if high_entropy {
                Some((current + bytes_read) as u64)
            } else if bytes_read > OVERLAP_SIZE {
                Some((current + (bytes_read - OVERLAP_SIZE)) as u64)
            } else {
                None::<u64>
            };
            next matches Some(n) ==> current < n <= current + bytes_read
        }),
{
}

/// A window's first `RIFF` tag whose declared size plus the 8-byte header fits is
/// recovered: it is the first hit the window reports, a complete RIFF container spanning
/// the tag and its declared body. A window that is exactly one RIFF container gives that
/// container as its first hit.
pub proof fn law_window_recovers_riff(s: Seq<u8>, c: int)
    requires
        s.len() <= usize::MAX,
        0 <= c,
        c + 8 <= s.len(),
        occurs_at(s, seq![0x52u8, 0x49, 0x46, 0x46], c),
        c + le32_at(s, c + 4) + 8 <= s.len(),
        forall|j: int| 0 <= j < c ==> !occurs_at(s, seq![0x52u8, 0x49, 0x46, 0x46], j),
    ensures
        window_hits(s).len() >= 1,
        window_hits(s)[0].kind == CarveKind::Riff,
        window_hits(s)[0].start == c,
        window_hits(s)[0].size == le32_at(s, c + 4) + 8,
        !window_hits(s)[0].fragmented,
{
    law_first_riff_recovered(s, c);
}

/// A window reports exactly what its format scans find: every RIFF, JPEG, PDF and MP4
/// hit of the window, and nothing else.
pub proof fn law_window_reports_every_format(s: Seq<u8>)
    ensures
        forall|h: CarveHit| #[trigger] window_hits(s).contains(h) <==> (riff_hits_from(s, 0).contains(h)
            || jpeg_hits_from(s, 0).contains(h) || pdf_hits_from(s, 0).contains(h) || mp4_atom_hits_from(
            s,
            0,
            CHUNK_SIZE as int,
        ).contains(h)),
{
    let r = riff_hits_from(s, 0);
    let j = jpeg_hits_from(s, 0);
    let p = pdf_hits_from(s, 0);
    let m = mp4_atom_hits_from(s, 0, CHUNK_SIZE as int);
    lemma_hits_concat_contains(r, j);
    lemma_hits_concat_contains(r + j, p);
    lemma_hits_concat_contains(r + j + p, m);
}

} // verus!
