use vstd::prelude::*;

use crate::text::{bytes_occur_at, occurs_at};

verus! {

/// The kinds of artifact that a window scan recognises.
#[derive(Debug, Clone, Copy, PartialEq, Eq)]
pub enum CarveKind {
    /// A RIFF container (WAV/AVI) whose declared length fits in the window.
    Riff,
    /// A JPEG image with both its start-of-image and end-of-image markers.
    Jpeg,
    /// A JPEG start-of-image marker with no end-of-image marker after it in the window.
    JpegTruncated,
    /// A PDF document from `%PDF-` to `%%EOF`.
    Pdf,
    /// A ZIP-based archive or office document.
    Zip,
    /// A PNG image from its signature to its `IEND` chunk.
    Png,
    /// An MP4 video, recognised by its `ftyp` box.
    Mp4,
}

/// One signature match within a scanned window: where it starts in the window, how
/// many bytes it spans, and whether it is a fragment rather than a complete file.
#[derive(Debug, Clone, Copy)]
pub struct CarveHit {
    pub kind: CarveKind,
    pub start: usize,
    pub size: u64,
    pub fragmented: bool,
}

/// The hit value for a match of `kind` covering window positions `start..end`.
pub open spec fn span_hit(kind: CarveKind, start: int, end: int, fragmented: bool) -> CarveHit {
    CarveHit { kind, start: start as usize, size: (end - start) as u64, fragmented }
}

/// `RIFF`
pub open spec fn riff_magic() -> Seq<u8> {
    seq![0x52u8, 0x49, 0x46, 0x46]
}

/// The JPEG start-of-image marker followed by the first byte of the next marker.
pub open spec fn jpeg_soi() -> Seq<u8> {
    seq![0xFFu8, 0xD8, 0xFF]
}

/// The JPEG end-of-image marker.
pub open spec fn jpeg_eoi() -> Seq<u8> {
    seq![0xFFu8, 0xD9]
}

/// `%PDF-`
pub open spec fn pdf_header() -> Seq<u8> {
    seq![0x25u8, 0x50, 0x44, 0x46, 0x2D]
}

/// `%%EOF`
pub open spec fn pdf_trailer() -> Seq<u8> {
    seq![0x25u8, 0x25, 0x45, 0x4F, 0x46]
}

/// `PK\x03\x04`, a ZIP local file header.
pub open spec fn zip_local_header() -> Seq<u8> {
    seq![0x50u8, 0x4B, 0x03, 0x04]
}

/// `PK\x05\x06`, a ZIP end-of-central-directory record.
pub open spec fn zip_end_record() -> Seq<u8> {
    seq![0x50u8, 0x4B, 0x05, 0x06]
}

/// The eight-byte PNG signature.
pub open spec fn png_signature() -> Seq<u8> {
    seq![0x89u8, 0x50, 0x4E, 0x47, 0x0D, 0x0A, 0x1A, 0x0A]
}

/// The `IEND` chunk type followed by its CRC.
pub open spec fn png_iend() -> Seq<u8> {
    seq![0x49u8, 0x45, 0x4E, 0x44, 0xAE, 0x42, 0x60, 0x82]
}

/// `ftyp`, the type of the first box of an MP4 file.
pub open spec fn mp4_ftyp() -> Seq<u8> {
    seq![0x66u8, 0x74, 0x79, 0x70]
}

/// `moov`, the MP4 box that holds the movie metadata.
pub open spec fn mp4_moov() -> Seq<u8> {
    seq![0x6Du8, 0x6F, 0x6F, 0x76]
}

/// The little-endian 32-bit value stored at `s[i..i+4]`.
pub open spec fn le32_at(s: Seq<u8>, i: int) -> int {
    s[i] + 256 * s[i + 1] + 65536 * s[i + 2] + 16777216 * s[i + 3]
}

/// The big-endian 32-bit value stored at `s[i..i+4]`.
pub open spec fn be32_at(s: Seq<u8>, i: int) -> int {
    16777216 * s[i] + 65536 * s[i + 1] + 256 * s[i + 2] + s[i + 3]
}

/// The first position `k` with `j <= k < limit` at which `p` occurs in `s`.
pub open spec fn find_from(s: Seq<u8>, p: Seq<u8>, j: int, limit: int) -> Option<int>
    decreases limit - j,
{
    if j >= limit {
        None
    } else if occurs_at(s, p, j) {
        Some(j)
    } else {
        find_from(s, p, j + 1, limit)
    }
}

/// What `find_from` returns lies in the searched range and is a real occurrence.
pub proof fn lemma_find_from(s: Seq<u8>, p: Seq<u8>, j: int, limit: int)
    ensures
        find_from(s, p, j, limit) matches Some(k) ==> j <= k < limit && occurs_at(s, p, k),
        find_from(s, p, j, limit) is None ==> forall|k: int| j <= k < limit ==> !occurs_at(s, p, k),
    decreases limit - j,
{
    if j < limit && !occurs_at(s, p, j) {
        lemma_find_from(s, p, j + 1, limit);
    }
}

/// RIFF containers found scanning from `c`: a `RIFF` tag whose declared size plus the
/// 8-byte header fits in the window is taken whole and scanning resumes after it.
pub open spec fn riff_hits_from(s: Seq<u8>, c: int) -> Seq<CarveHit>
    decreases s.len() - c,
{
    if c < 0 || c + 8 > s.len() {
        Seq::empty()
    } else if occurs_at(s, riff_magic(), c) && c + le32_at(s, c + 4) + 8 <= s.len() {
        seq![span_hit(CarveKind::Riff, c, c + le32_at(s, c + 4) + 8, false)]
            + riff_hits_from(s, c + le32_at(s, c + 4) + 8)
    } else {
        riff_hits_from(s, c + 1)
    }
}

/// JPEG images found scanning from `i`: after a start marker the first end marker at
/// or after `i + 2` (and before the last byte) closes the image; with none, a truncated
/// fragment up to the window's end is reported and scanning moves one byte on.
pub open spec fn jpeg_hits_from(s: Seq<u8>, i: int) -> Seq<CarveHit>
    decreases s.len() - i,
{
    if i < 0 || i + 3 > s.len() {
        Seq::empty()
    } else if occurs_at(s, jpeg_soi(), i) {
        match find_from(s, jpeg_eoi(), i + 2, s.len() - 1) {
            Some(j) => {
                proof {
                    lemma_find_from(s, jpeg_eoi(), i + 2, s.len() - 1);
                }
                seq![span_hit(CarveKind::Jpeg, i, j + 2, false)] + jpeg_hits_from(s, j + 2)
            },
            None => seq![span_hit(CarveKind::JpegTruncated, i, s.len() as int, true)]
                + jpeg_hits_from(s, i + 1),
        }
    } else {
        jpeg_hits_from(s, i + 1)
    }
}

/// PDF documents found scanning from `i`: after `%PDF-` the first `%%EOF` starting at
/// or after `i + 5` and ending within the window (the window's last five bytes
/// included) closes the document; with none, nothing is reported and scanning moves one
/// byte on.
pub open spec fn pdf_hits_from(s: Seq<u8>, i: int) -> Seq<CarveHit>
    decreases s.len() - i,
{
    if i < 0 || i + 5 > s.len() {
        Seq::empty()
    } else if occurs_at(s, pdf_header(), i) {
        match find_from(s, pdf_trailer(), i + 5, s.len() - 4) {
            Some(j) => {
                proof {
                    lemma_find_from(s, pdf_trailer(), i + 5, s.len() - 4);
                }
                seq![span_hit(CarveKind::Pdf, i, j + 5, false)] + pdf_hits_from(s, j + 5)
            },
            None => pdf_hits_from(s, i + 1),
        }
    } else {
        pdf_hits_from(s, i + 1)
    }
}

/// Five mebibytes, the span taken for a ZIP archive whose end record is not found.
pub open spec fn zip_fallback_span() -> int {
    5 * 1024 * 1024int
}

/// Where a ZIP archive found at `i` ends: 22 bytes after the first end record at or after
/// `i + 4` and before `len - 22`, or else five mebibytes on, capped at the window's end.
pub open spec fn zip_end(s: Seq<u8>, i: int) -> int {
    match find_from(s, zip_end_record(), i + 4, s.len() - 22) {
        Some(j) => j + 22,
        None => if i + zip_fallback_span() < s.len() {
            i + zip_fallback_span()
        } else {
            s.len() as int
        },
    }
}

/// ZIP archives found scanning from `i`; every local header starts one, fragmented when
/// no end record closes it.
pub open spec fn zip_hits_from(s: Seq<u8>, i: int) -> Seq<CarveHit>
    decreases s.len() - i,
{
    if i < 0 || i + 4 > s.len() {
        Seq::empty()
    } else if occurs_at(s, zip_local_header(), i) {
        proof {
            lemma_find_from(s, zip_end_record(), i + 4, s.len() - 22);
        }
        seq![
            span_hit(
                CarveKind::Zip,
                i,
                zip_end(s, i),
                find_from(s, zip_end_record(), i + 4, s.len() - 22) is None,
            ),
        ] + zip_hits_from(s, zip_end(s, i))
    } else {
        zip_hits_from(s, i + 1)
    }
}

/// A window holds no ZIP local header when it is shorter than a ZIP end record; the
/// scan cannot place an end record in such a window.
pub open spec fn zip_scannable(s: Seq<u8>) -> bool {
    s.len() >= 22 || forall|i: int| !occurs_at(s, zip_local_header(), i)
}

/// PNG images found scanning from `i`: after the signature the first `IEND` chunk
/// starting at or after `i + 8` and before `len - 8` closes the image; with none,
/// nothing is reported and scanning moves one byte on.
pub open spec fn png_hits_from(s: Seq<u8>, i: int) -> Seq<CarveHit>
    decreases s.len() - i,
{
    if i < 0 || i + 8 > s.len() {
        Seq::empty()
    } else if occurs_at(s, png_signature(), i) {
        match find_from(s, png_iend(), i + 8, s.len() - 8) {
            Some(j) => {
                proof {
                    lemma_find_from(s, png_iend(), i + 8, s.len() - 8);
                }
                seq![span_hit(CarveKind::Png, i, j + 8, false)] + png_hits_from(s, j + 8)
            },
            None => png_hits_from(s, i + 1),
        }
    } else {
        png_hits_from(s, i + 1)
    }
}

/// Two mebibytes, the fixed span taken for an MP4 video by the basic scan.
pub open spec fn mp4_basic_span() -> int {
    2 * 1024 * 1024int
}

/// MP4 videos found by the basic scan from `i`: an `ftyp` tag at `i + 4` starts a
/// fragment of two mebibytes, capped at the window's end.
pub open spec fn mp4_basic_hits_from(s: Seq<u8>, i: int) -> Seq<CarveHit>
    decreases s.len() - i,
{
    if i < 0 || i + 8 > s.len() {
        Seq::empty()
    } else if occurs_at(s, mp4_ftyp(), i + 4) {
        let end = if i + mp4_basic_span() < s.len() {
            i + mp4_basic_span()
        } else {
            s.len() as int
        };
        seq![span_hit(CarveKind::Mp4, i, end, true)] + mp4_basic_hits_from(s, end)
    } else {
        mp4_basic_hits_from(s, i + 1)
    }
}

/// The first position `k` with `from <= k < limit` at which `p` occurs in `s`.
pub fn find_bytes_from(s: &[u8], p: &[u8], from: usize, limit: usize) -> (r: Option<usize>)
    ensures
        match r {
            Some(k) => find_from(s@, p@, from as int, limit as int) == Some(k as int),
            None => find_from(s@, p@, from as int, limit as int) is None,
        },
{
    let mut j: usize = from;
    while j < limit
        invariant
            from <= j,
            find_from(s@, p@, from as int, limit as int) == find_from(s@, p@, j as int, limit as int),
        decreases limit - j,
    {
        if bytes_occur_at(s, p, j) {
            return Some(j);
        }
        j = j + 1;
    }
    None
}

/// Appends the RIFF containers of the window.
pub fn riff_pass(s: &[u8], out: &mut Vec<CarveHit>)
    ensures
        final(out)@ == old(out)@ + riff_hits_from(s@, 0),
{
    let magic: [u8; 4] = [0x52, 0x49, 0x46, 0x46];
    assert(magic@ =~= riff_magic());
    let mut c: usize = 0;
    while c <= s.len() && s.len() - c >= 8
        invariant
            c <= s.len(),
            old(out)@ + riff_hits_from(s@, 0) == out@ + riff_hits_from(s@, c as int),
            magic@ == riff_magic(),
        decreases s.len() - c,
    {
        if bytes_occur_at(s, &magic, c) {
            let reported: u64 = (s[c + 4] as u64) + (s[c + 5] as u64) * 256 + (s[c + 6] as u64) * 65536
                + (s[c + 7] as u64) * 16777216;
            let total: u64 = reported + 8;
            if total <= (s.len() - c) as u64 {
                let end: usize = c + total as usize;
                out.push(CarveHit { kind: CarveKind::Riff, start: c, size: total, fragmented: false });
                proof {
                    assert(reported == le32_at(s@, c + 4));
                    assert(riff_hits_from(s@, c as int) == seq![span_hit(CarveKind::Riff, c as int, end as int, false)]
                        + riff_hits_from(s@, end as int));
                }
                c = end;
                continue;
            }
            proof {
                assert(reported == le32_at(s@, c + 4));
            }
        }
        c = c + 1;
    }
}

/// Appends the JPEG images and truncated JPEG fragments of the window.
pub fn jpeg_pass(s: &[u8], out: &mut Vec<CarveHit>)
    ensures
        final(out)@ == old(out)@ + jpeg_hits_from(s@, 0),
{
    let soi: [u8; 3] = [0xFF, 0xD8, 0xFF];
    let eoi: [u8; 2] = [0xFF, 0xD9];
    assert(soi@ =~= jpeg_soi());
    assert(eoi@ =~= jpeg_eoi());
    let mut i: usize = 0;
    while i <= s.len() && s.len() - i >= 3
        invariant
            i <= s.len(),
            old(out)@ + jpeg_hits_from(s@, 0) == out@ + jpeg_hits_from(s@, i as int),
            soi@ == jpeg_soi(),
            eoi@ == jpeg_eoi(),
        decreases s.len() - i,
    {
        if bytes_occur_at(s, &soi, i) {
            proof {
                lemma_find_from(s@, jpeg_eoi(), i + 2, s.len() - 1);
            }
            match find_bytes_from(s, &eoi, i + 2, s.len() - 1) {
                Some(j) => {
                    let end: usize = j + 2;
                    out.push(CarveHit { kind: CarveKind::Jpeg, start: i, size: (end - i) as u64, fragmented: false });
                    i = end;
                    continue;
                },
                None => {
                    out.push(CarveHit {
                        kind: CarveKind::JpegTruncated,
                        start: i,
                        size: (s.len() - i) as u64,
                        fragmented: true,
                    });
                },
            }
        }
        i = i + 1;
    }
}

/// Appends the PDF documents of the window.
pub fn pdf_pass(s: &[u8], out: &mut Vec<CarveHit>)
    ensures
        final(out)@ == old(out)@ + pdf_hits_from(s@, 0),
{
    let header: [u8; 5] = [0x25, 0x50, 0x44, 0x46, 0x2D];
    let trailer: [u8; 5] = [0x25, 0x25, 0x45, 0x4F, 0x46];
    assert(header@ =~= pdf_header());
    assert(trailer@ =~= pdf_trailer());
    let mut i: usize = 0;
    while i <= s.len() && s.len() - i >= 5
        invariant
            i <= s.len(),
            old(out)@ + pdf_hits_from(s@, 0) == out@ + pdf_hits_from(s@, i as int),
            header@ == pdf_header(),
            trailer@ == pdf_trailer(),
        decreases s.len() - i,
    {
        if bytes_occur_at(s, &header, i) {
            proof {
                lemma_find_from(s@, pdf_trailer(), i + 5, s.len() - 4);
            }
            match find_bytes_from(s, &trailer, i + 5, s.len() - 4) {
                Some(j) => {
                    let end: usize = j + 5;
                    out.push(CarveHit { kind: CarveKind::Pdf, start: i, size: (end - i) as u64, fragmented: false });
                    i = end;
                    continue;
                },
                None => {},
            }
        }
        i = i + 1;
    }
}

/// Appends the ZIP archives of the window.
pub fn zip_pass(s: &[u8], out: &mut Vec<CarveHit>)
    requires
        zip_scannable(s@),
    ensures
        final(out)@ == old(out)@ + zip_hits_from(s@, 0),
{
    let header: [u8; 4] = [0x50, 0x4B, 0x03, 0x04];
    let end_record: [u8; 4] = [0x50, 0x4B, 0x05, 0x06];
    assert(header@ =~= zip_local_header());
    assert(end_record@ =~= zip_end_record());
    let mut i: usize = 0;
    while i <= s.len() && s.len() - i >= 4
        invariant
            i <= s.len(),
            zip_scannable(s@),
            old(out)@ + zip_hits_from(s@, 0) == out@ + zip_hits_from(s@, i as int),
            header@ == zip_local_header(),
            end_record@ == zip_end_record(),
        decreases s.len() - i,
    {
        if bytes_occur_at(s, &header, i) {
            proof {
                lemma_find_from(s@, zip_end_record(), i + 4, s.len() - 22);
            }
            let found = find_bytes_from(s, &end_record, i + 4, s.len() - 22);
            let end: usize = match found {
                Some(j) => j + 22,
                None => if s.len() - i > 5 * 1024 * 1024 {
                    i + 5 * 1024 * 1024
                } else {
                    s.len()
                },
            };
            out.push(CarveHit {
                kind: CarveKind::Zip,
                start: i,
                size: (end - i) as u64,
                fragmented: found.is_none(),
            });
            assert(end as int == zip_end(s@, i as int));
            i = end;
            continue;
        }
        i = i + 1;
    }
}

/// Appends the PNG images of the window.
pub fn png_pass(s: &[u8], out: &mut Vec<CarveHit>)
    ensures
        final(out)@ == old(out)@ + png_hits_from(s@, 0),
{
    let signature: [u8; 8] = [0x89, 0x50, 0x4E, 0x47, 0x0D, 0x0A, 0x1A, 0x0A];
    let iend: [u8; 8] = [0x49, 0x45, 0x4E, 0x44, 0xAE, 0x42, 0x60, 0x82];
    assert(signature@ =~= png_signature());
    assert(iend@ =~= png_iend());
    let mut i: usize = 0;
    while i <= s.len() && s.len() - i >= 8
        invariant
            i <= s.len(),
            old(out)@ + png_hits_from(s@, 0) == out@ + png_hits_from(s@, i as int),
            signature@ == png_signature(),
            iend@ == png_iend(),
        decreases s.len() - i,
    {
        if bytes_occur_at(s, &signature, i) {
            proof {
                lemma_find_from(s@, png_iend(), i + 8, s.len() - 8);
            }
            match find_bytes_from(s, &iend, i + 8, s.len() - 8) {
                Some(j) => {
                    let end: usize = j + 8;
                    out.push(CarveHit { kind: CarveKind::Png, start: i, size: (end - i) as u64, fragmented: false });
                    i = end;
                    continue;
                },
                None => {},
            }
        }
        i = i + 1;
    }
}

/// Appends the MP4 fragments of the window found by the basic `ftyp` scan.
pub fn mp4_basic_pass(s: &[u8], out: &mut Vec<CarveHit>)
    ensures
        final(out)@ == old(out)@ + mp4_basic_hits_from(s@, 0),
{
    let ftyp: [u8; 4] = [0x66, 0x74, 0x79, 0x70];
    assert(ftyp@ =~= mp4_ftyp());
    let mut i: usize = 0;
    while i <= s.len() && s.len() - i >= 8
        invariant
            i <= s.len(),
            old(out)@ + mp4_basic_hits_from(s@, 0) == out@ + mp4_basic_hits_from(s@, i as int),
            ftyp@ == mp4_ftyp(),
        decreases s.len() - i,
    {
        if bytes_occur_at(s, &ftyp, i + 4) {
            let end: usize = if s.len() - i > 2 * 1024 * 1024 {
                i + 2 * 1024 * 1024
            } else {
                s.len()
            };
            out.push(CarveHit { kind: CarveKind::Mp4, start: i, size: (end - i) as u64, fragmented: true });
            i = end;
            continue;
        }
        i = i + 1;
    }
}

/// The combined size of the consecutive MP4 boxes starting at `b`: each box's big-endian
/// size is added until a box declares less than 8 bytes (not added), the `moov` box is
/// reached (added, then stop), or fewer than 8 bytes of the window remain.
pub open spec fn mp4_box_total(s: Seq<u8>, b: int) -> int
    decreases s.len() - b,
{
    if b < 0 || b + 8 > s.len() {
        0
    } else if be32_at(s, b) < 8 {
        0
    } else if occurs_at(s, mp4_moov(), b + 4) || b + be32_at(s, b) > s.len() {
        be32_at(s, b)
    } else {
        be32_at(s, b) + mp4_box_total(s, b + be32_at(s, b))
    }
}

/// Two gibibytes: box totals above this are not trusted.
pub open spec fn mp4_size_limit() -> int {
    2 * 1024 * 1024 * 1024int
}

/// Fifteen mebibytes: the size carved when the box walk gives nothing usable.
pub open spec fn mp4_fallback_size() -> int {
    15 * 1024 * 1024int
}

/// The size carved for an MP4 video whose `ftyp` box starts at `i`.
pub open spec fn mp4_carve_size(s: Seq<u8>, i: int) -> int {
    let t = mp4_box_total(s, i);
    if t == 0 || t > mp4_size_limit() {
        mp4_fallback_size()
    } else {
        t
    }
}

/// How far the scan moves after an MP4 video of `size` bytes: the size capped at the
/// window length `cap`, but at least 8.
pub open spec fn mp4_advance(size: int, cap: int) -> int {
    let capped = if size < cap { size } else { cap };
    if capped < 8 {
        8
    } else {
        capped
    }
}

/// MP4 videos found by the box-walking scan from `i`, for windows of `cap` bytes: an
/// `ftyp` tag at `i + 4` starts a video whose size comes from walking its boxes; the
/// video may extend past the window.
pub open spec fn mp4_atom_hits_from(s: Seq<u8>, i: int, cap: int) -> Seq<CarveHit>
    decreases s.len() - i,
{
    if i < 0 || i + 8 > s.len() {
        Seq::empty()
    } else if occurs_at(s, mp4_ftyp(), i + 4) {
        let next = i + mp4_advance(mp4_carve_size(s, i), cap);
        seq![CarveHit { kind: CarveKind::Mp4, start: i as usize, size: mp4_carve_size(s, i) as u64, fragmented: false }]
            + if next > s.len() {
            Seq::empty()
        } else {
            mp4_atom_hits_from(s, next, cap)
        }
    } else {
        mp4_atom_hits_from(s, i + 1, cap)
    }
}

/// Walks the MP4 boxes from `i` and returns their combined size as the box walk defines it.
pub fn mp4_box_walk(s: &[u8], i: usize) -> (total: u64)
    requires
        i <= s.len(),
        s.len() <= isize::MAX,
    ensures
        total == mp4_box_total(s@, i as int),
{
    let moov: [u8; 4] = [0x6D, 0x6F, 0x6F, 0x76];
    assert(moov@ =~= mp4_moov());
    let mut b: usize = i;
    let mut acc: u64 = 0;
    while b <= s.len() && s.len() - b >= 8
        invariant
            i <= b <= s.len(),
            s.len() <= isize::MAX,
            moov@ == mp4_moov(),
            acc == b - i,
            mp4_box_total(s@, i as int) == acc + mp4_box_total(s@, b as int),
        decreases s.len() - b,
    {
        let box_size: u64 = (s[b] as u64) * 16777216 + (s[b + 1] as u64) * 65536 + (s[b + 2] as u64) * 256
            + (s[b + 3] as u64);
        assert(box_size == be32_at(s@, b as int));
        if box_size < 8 {
            return acc;
        }
        if bytes_occur_at(s, &moov, b + 4) {
            return acc + box_size;
        }
        if box_size > (s.len() - b) as u64 {
            return acc + box_size;
        }
        b = b + box_size as usize;
        acc = acc + box_size;
    }
    acc
}

/// Appends the MP4 videos of the window found by walking their boxes, for windows of
/// `cap` bytes.
pub fn mp4_atom_pass(s: &[u8], cap: u64, out: &mut Vec<CarveHit>)
    requires
        s.len() <= isize::MAX,
    ensures
        final(out)@ == old(out)@ + mp4_atom_hits_from(s@, 0, cap as int),
{
    let ftyp: [u8; 4] = [0x66, 0x74, 0x79, 0x70];
    assert(ftyp@ =~= mp4_ftyp());
    let mut i: usize = 0;
    while i <= s.len() && s.len() - i >= 8
        invariant
            i <= s.len(),
            s.len() <= isize::MAX,
            ftyp@ == mp4_ftyp(),
            old(out)@ + mp4_atom_hits_from(s@, 0, cap as int) == out@ + mp4_atom_hits_from(s@, i as int, cap as int),
        decreases s.len() - i,
    {
        if bytes_occur_at(s, &ftyp, i + 4) {
            let total = mp4_box_walk(s, i);
            let size: u64 = if total == 0 || total > 2 * 1024 * 1024 * 1024 {
                15 * 1024 * 1024
            } else {
                total
            };
            out.push(CarveHit { kind: CarveKind::Mp4, start: i, size, fragmented: false });
            let capped: u64 = if size < cap {
                size
            } else {
                cap
            };
            let step: u64 = if capped < 8 {
                8
            } else {
                capped
            };
            if step > (s.len() - i) as u64 {
                assert(mp4_atom_hits_from(s@, s.len() as int, cap as int) =~= Seq::<CarveHit>::empty());
                i = s.len();
            } else {
                i = i + step as usize;
            }
            continue;
        }
        i = i + 1;
    }
}

/// A RIFF hit is a `RIFF` tag inside the window whose span is its declared size plus 8.
pub open spec fn riff_hit_ok(s: Seq<u8>, h: CarveHit) -> bool {
    &&& h.kind == CarveKind::Riff
    &&& !h.fragmented
    &&& h.start + h.size <= s.len()
    &&& occurs_at(s, riff_magic(), h.start as int)
    &&& h.size == le32_at(s, h.start + 4) + 8
}

proof fn lemma_riff_hit(s: Seq<u8>, c: int, k: int)
    requires
        s.len() <= usize::MAX,
        0 <= k < riff_hits_from(s, c).len(),
    ensures
        riff_hit_ok(s, riff_hits_from(s, c)[k]),
        c <= riff_hits_from(s, c)[k].start,
    decreases s.len() - c,
{
    if c < 0 || c + 8 > s.len() {
    } else if occurs_at(s, riff_magic(), c) && c + le32_at(s, c + 4) + 8 <= s.len() {
        let e = c + le32_at(s, c + 4) + 8;
        let h = span_hit(CarveKind::Riff, c, e, false);
        let rest = riff_hits_from(s, e);
        assert(riff_hits_from(s, c) == seq![h] + rest);
        if k > 0 {
            lemma_riff_hit(s, e, k - 1);
            assert(riff_hits_from(s, c)[k] == rest[k - 1]);
        }
    } else {
        lemma_riff_hit(s, c + 1, k);
    }
}

/// Every RIFF hit found from `c` starts at or after `c` with a `RIFF` tag, spans its declared
/// size plus the 8-byte header, and lies inside the window.
#[verifier::spinoff_prover]
pub proof fn law_riff_hits_well_formed(s: Seq<u8>, c: int)
    requires
        s.len() <= usize::MAX,
    ensures
        forall|k: int| 0 <= k < riff_hits_from(s, c).len() ==> {
            &&& #[trigger] riff_hit_ok(s, riff_hits_from(s, c)[k])
            &&& c <= riff_hits_from(s, c)[k].start
        },
{
    assert forall|k: int| 0 <= k < riff_hits_from(s, c).len() implies {
        &&& #[trigger] riff_hit_ok(s, riff_hits_from(s, c)[k])
        &&& c <= riff_hits_from(s, c)[k].start
    } by {
        lemma_riff_hit(s, c, k);
    }
}

/// A JPEG hit starts with the start-of-image marker inside the window; a complete one
/// ends with the end-of-image marker, a truncated one reaches the window's end.
pub open spec fn jpeg_hit_ok(s: Seq<u8>, h: CarveHit) -> bool {
    &&& h.start + h.size <= s.len()
    &&& occurs_at(s, jpeg_soi(), h.start as int)
    &&& match h.kind {
        CarveKind::Jpeg => !h.fragmented && h.size >= 4 && occurs_at(s, jpeg_eoi(), h.start + h.size - 2),
        CarveKind::JpegTruncated => h.fragmented && h.start + h.size == s.len(),
        _ => false,
    }
}

/// Every JPEG hit found from `i` is well formed and starts at or after `i`.
pub proof fn law_jpeg_hits_well_formed(s: Seq<u8>, i: int)
    requires
        s.len() <= usize::MAX,
    ensures
        forall|k: int| 0 <= k < jpeg_hits_from(s, i).len() ==> {
            &&& #[trigger] jpeg_hit_ok(s, jpeg_hits_from(s, i)[k])
            &&& i <= jpeg_hits_from(s, i)[k].start
        },
    decreases s.len() - i,
{
    if i < 0 || i + 3 > s.len() {
    } else if occurs_at(s, jpeg_soi(), i) {
        lemma_find_from(s, jpeg_eoi(), i + 2, s.len() - 1);
        let (h, next) = match find_from(s, jpeg_eoi(), i + 2, s.len() - 1) {
            Some(j) => (span_hit(CarveKind::Jpeg, i, j + 2, false), j + 2),
            None => (span_hit(CarveKind::JpegTruncated, i, s.len() as int, true), i + 1),
        };
        law_jpeg_hits_well_formed(s, next);
        let rest = jpeg_hits_from(s, next);
        assert(jpeg_hits_from(s, i) == seq![h] + rest);
        assert forall|k: int| 0 <= k < jpeg_hits_from(s, i).len() implies {
            &&& #[trigger] jpeg_hit_ok(s, jpeg_hits_from(s, i)[k])
            &&& i <= jpeg_hits_from(s, i)[k].start
        } by {
            if k == 0 {
                assert(jpeg_hits_from(s, i)[k] == h);
            } else {
                assert(jpeg_hits_from(s, i)[k] == rest[k - 1]);
                assert(jpeg_hit_ok(s, rest[k - 1]));
            }
        }
    } else {
        law_jpeg_hits_well_formed(s, i + 1);
        assert(jpeg_hits_from(s, i) == jpeg_hits_from(s, i + 1));
    }
}

/// A PDF hit starts with `%PDF-` and ends with `%%EOF`, inside the window.
pub open spec fn pdf_hit_ok(s: Seq<u8>, h: CarveHit) -> bool {
    &&& h.kind == CarveKind::Pdf
    &&& !h.fragmented
    &&& h.size >= 10
    &&& h.start + h.size <= s.len()
    &&& occurs_at(s, pdf_header(), h.start as int)
    &&& occurs_at(s, pdf_trailer(), h.start + h.size - 5)
}

proof fn lemma_pdf_hit(s: Seq<u8>, i: int, k: int)
    requires
        s.len() <= usize::MAX,
        0 <= k < pdf_hits_from(s, i).len(),
    ensures
        pdf_hit_ok(s, pdf_hits_from(s, i)[k]),
        i <= pdf_hits_from(s, i)[k].start,
    decreases s.len() - i,
{
    if i < 0 || i + 5 > s.len() {
    } else if occurs_at(s, pdf_header(), i) {
        lemma_find_from(s, pdf_trailer(), i + 5, s.len() - 4);
        match find_from(s, pdf_trailer(), i + 5, s.len() - 4) {
            Some(j) => {
                let h = span_hit(CarveKind::Pdf, i, j + 5, false);
                let rest = pdf_hits_from(s, j + 5);
                assert(pdf_hits_from(s, i) == seq![h] + rest);
                if k > 0 {
                    lemma_pdf_hit(s, j + 5, k - 1);
                    assert(pdf_hits_from(s, i)[k] == rest[k - 1]);
                }
            },
            None => {
                lemma_pdf_hit(s, i + 1, k);
            },
        }
    } else {
        lemma_pdf_hit(s, i + 1, k);
    }
}

/// Every PDF hit found from `i` is well formed and starts at or after `i`.
pub proof fn law_pdf_hits_well_formed(s: Seq<u8>, i: int)
    requires
        s.len() <= usize::MAX,
    ensures
        forall|k: int| #![trigger pdf_hits_from(s, i)[k]] 0 <= k < pdf_hits_from(s, i).len() ==> {
            &&& pdf_hit_ok(s, pdf_hits_from(s, i)[k])
            &&& i <= pdf_hits_from(s, i)[k].start
        },
{
    assert forall|k: int| #![trigger pdf_hits_from(s, i)[k]] 0 <= k < pdf_hits_from(s, i).len() implies {
        &&& pdf_hit_ok(s, pdf_hits_from(s, i)[k])
        &&& i <= pdf_hits_from(s, i)[k].start
    } by {
        lemma_pdf_hit(s, i, k);
    }
}

proof fn lemma_riff_skip_to(s: Seq<u8>, m: int, c: int)
    requires
        0 <= m <= c,
        forall|j: int| m <= j < c ==> !occurs_at(s, riff_magic(), j),
    ensures
        riff_hits_from(s, m) == riff_hits_from(s, c),
    decreases c - m,
{
    if m < c {
        lemma_riff_skip_to(s, m + 1, c);
    }
}

/// The first `RIFF` tag of a window whose declared size plus the 8-byte header fits in
/// the window is carved whole: the first RIFF hit spans the tag and its declared body.
pub proof fn law_first_riff_recovered(s: Seq<u8>, c: int)
    requires
        s.len() <= usize::MAX,
        0 <= c,
        c + 8 <= s.len(),
        occurs_at(s, seq![0x52u8, 0x49, 0x46, 0x46], c),
        c + le32_at(s, c + 4) + 8 <= s.len(),
        forall|j: int| 0 <= j < c ==> !occurs_at(s, seq![0x52u8, 0x49, 0x46, 0x46], j),
    ensures
        riff_hits_from(s, 0).len() >= 1,
        riff_hits_from(s, 0)[0].kind == CarveKind::Riff,
        riff_hits_from(s, 0)[0].start == c,
        riff_hits_from(s, 0)[0].size == le32_at(s, c + 4) + 8,
        !riff_hits_from(s, 0)[0].fragmented,
{
    assert(riff_magic() =~= seq![0x52u8, 0x49, 0x46, 0x46]);
    lemma_riff_skip_to(s, 0, c);
}

/// A box at `j` whose type (the four bytes after its size) is `p`.
pub open spec fn box_type_at(s: Seq<u8>, p: Seq<u8>, j: int) -> bool {
    occurs_at(s, p, j + 4)
}

/// An element of two runs of hits joined is an element of one of them.
pub proof fn lemma_hits_concat_contains(a: Seq<CarveHit>, b: Seq<CarveHit>)
    ensures
        forall|h: CarveHit| #[trigger] (a + b).contains(h) <==> a.contains(h) || b.contains(h),
{
    assert forall|h: CarveHit| #[trigger] (a + b).contains(h) <==> a.contains(h) || b.contains(h) by {
        if (a + b).contains(h) {
            let k = choose|k: int| 0 <= k < (a + b).len() && (a + b)[k] == h;
            if k >= a.len() {
                assert(b[k - a.len()] == h);
            }
        }
        if a.contains(h) {
            let k = choose|k: int| 0 <= k < a.len() && a[k] == h;
            assert((a + b)[k] == h);
        }
        if b.contains(h) {
            let k = choose|k: int| 0 <= k < b.len() && b[k] == h;
            assert((a + b)[a.len() + k] == h);
        }
    }
}

proof fn lemma_jpeg_skip_to(s: Seq<u8>, m: int, c: int)
    requires
        0 <= m <= c,
        forall|j: int| m <= j < c ==> !occurs_at(s, jpeg_soi(), j),
    ensures
        jpeg_hits_from(s, m) == jpeg_hits_from(s, c),
    decreases c - m,
{
    if m < c {
        lemma_jpeg_skip_to(s, m + 1, c);
    }
}

proof fn lemma_pdf_skip_to(s: Seq<u8>, m: int, c: int)
    requires
        0 <= m <= c,
        forall|j: int| m <= j < c ==> !occurs_at(s, pdf_header(), j),
    ensures
        pdf_hits_from(s, m) == pdf_hits_from(s, c),
    decreases c - m,
{
    if m < c {
        lemma_pdf_skip_to(s, m + 1, c);
    }
}

proof fn lemma_zip_skip_to(s: Seq<u8>, m: int, c: int)
    requires
        0 <= m <= c,
        forall|j: int| m <= j < c ==> !occurs_at(s, zip_local_header(), j),
    ensures
        zip_hits_from(s, m) == zip_hits_from(s, c),
    decreases c - m,
{
    if m < c {
        lemma_zip_skip_to(s, m + 1, c);
    }
}

proof fn lemma_png_skip_to(s: Seq<u8>, m: int, c: int)
    requires
        0 <= m <= c,
        forall|j: int| m <= j < c ==> !occurs_at(s, png_signature(), j),
    ensures
        png_hits_from(s, m) == png_hits_from(s, c),
    decreases c - m,
{
    if m < c {
        lemma_png_skip_to(s, m + 1, c);
    }
}

proof fn lemma_mp4_basic_skip_to(s: Seq<u8>, m: int, c: int)
    requires
        0 <= m <= c,
        forall|j: int| m <= j < c ==> !box_type_at(s, mp4_ftyp(), j),
    ensures
        mp4_basic_hits_from(s, m) == mp4_basic_hits_from(s, c),
    decreases c - m,
{
    if m < c {
        assert(!box_type_at(s, mp4_ftyp(), m));
        lemma_mp4_basic_skip_to(s, m + 1, c);
    }
}

proof fn lemma_mp4_atom_skip_to(s: Seq<u8>, m: int, c: int, cap: int)
    requires
        0 <= m <= c,
        forall|j: int| m <= j < c ==> !box_type_at(s, mp4_ftyp(), j),
    ensures
        mp4_atom_hits_from(s, m, cap) == mp4_atom_hits_from(s, c, cap),
    decreases c - m,
{
    if m < c {
        assert(!box_type_at(s, mp4_ftyp(), m));
        lemma_mp4_atom_skip_to(s, m + 1, c, cap);
    }
}

/// The window's first JPEG start marker (`FF D8 FF`) followed by an end marker
/// (`FF D9`) that ends inside the window is carved as one complete image, from the start
/// marker through the first such end marker.
pub proof fn law_first_jpeg_recovered(s: Seq<u8>, c: int, e: int)
    requires
        s.len() <= usize::MAX,
        0 <= c,
        c + 3 <= s.len(),
        occurs_at(s, seq![0xFFu8, 0xD8, 0xFF], c),
        forall|j: int| 0 <= j < c ==> !occurs_at(s, seq![0xFFu8, 0xD8, 0xFF], j),
        c + 2 <= e,
        e + 2 <= s.len(),
        occurs_at(s, seq![0xFFu8, 0xD9], e),
        forall|j: int| c + 2 <= j < e ==> !occurs_at(s, seq![0xFFu8, 0xD9], j),
    ensures
        jpeg_hits_from(s, 0).len() >= 1,
        jpeg_hits_from(s, 0)[0].kind == CarveKind::Jpeg,
        jpeg_hits_from(s, 0)[0].start == c,
        jpeg_hits_from(s, 0)[0].size == e + 2 - c,
        !jpeg_hits_from(s, 0)[0].fragmented,
{
    assert(jpeg_soi() =~= seq![0xFFu8, 0xD8, 0xFF]);
    assert(jpeg_eoi() =~= seq![0xFFu8, 0xD9]);
    lemma_jpeg_skip_to(s, 0, c);
    lemma_find_from_first(s, jpeg_eoi(), c + 2, e, s.len() - 1);
}

/// The window's first JPEG start marker with no end marker after it is reported as a
/// truncated fragment reaching the window's end.
pub proof fn law_first_jpeg_truncated(s: Seq<u8>, c: int)
    requires
        s.len() <= usize::MAX,
        0 <= c,
        c + 3 <= s.len(),
        occurs_at(s, seq![0xFFu8, 0xD8, 0xFF], c),
        forall|j: int| 0 <= j < c ==> !occurs_at(s, seq![0xFFu8, 0xD8, 0xFF], j),
        forall|j: int| c + 2 <= j ==> !occurs_at(s, seq![0xFFu8, 0xD9], j),
    ensures
        jpeg_hits_from(s, 0).len() >= 1,
        jpeg_hits_from(s, 0)[0].kind == CarveKind::JpegTruncated,
        jpeg_hits_from(s, 0)[0].start == c,
        jpeg_hits_from(s, 0)[0].size == s.len() - c,
        jpeg_hits_from(s, 0)[0].fragmented,
{
    assert(jpeg_soi() =~= seq![0xFFu8, 0xD8, 0xFF]);
    assert(jpeg_eoi() =~= seq![0xFFu8, 0xD9]);
    lemma_jpeg_skip_to(s, 0, c);
    lemma_find_from(s, jpeg_eoi(), c + 2, s.len() - 1);
}

/// The window's first `%PDF-` header followed by a `%%EOF` that ends inside the window is
/// carved as one complete document, through the first such trailer.
pub proof fn law_first_pdf_recovered(s: Seq<u8>, c: int, e: int)
    requires
        s.len() <= usize::MAX,
        0 <= c,
        occurs_at(s, seq![0x25u8, 0x50, 0x44, 0x46, 0x2D], c),
        forall|j: int| 0 <= j < c ==> !occurs_at(s, seq![0x25u8, 0x50, 0x44, 0x46, 0x2D], j),
        c + 5 <= e,
        e + 5 <= s.len(),
        occurs_at(s, seq![0x25u8, 0x25, 0x45, 0x4F, 0x46], e),
        forall|j: int| c + 5 <= j < e ==> !occurs_at(s, seq![0x25u8, 0x25, 0x45, 0x4F, 0x46], j),
    ensures
        pdf_hits_from(s, 0).len() >= 1,
        pdf_hits_from(s, 0)[0].kind == CarveKind::Pdf,
        pdf_hits_from(s, 0)[0].start == c,
        pdf_hits_from(s, 0)[0].size == e + 5 - c,
        !pdf_hits_from(s, 0)[0].fragmented,
{
    assert(pdf_header() =~= seq![0x25u8, 0x50, 0x44, 0x46, 0x2D]);
    assert(pdf_trailer() =~= seq![0x25u8, 0x25, 0x45, 0x4F, 0x46]);
    lemma_pdf_skip_to(s, 0, c);
    lemma_find_from_first(s, pdf_trailer(), c + 5, e, s.len() - 4);
}

/// The window's first ZIP local header followed by an end-of-central-directory record
/// that starts before the window's last 22 bytes is carved as a complete archive through
/// that record's 22 bytes.
pub proof fn law_first_zip_recovered(s: Seq<u8>, c: int, e: int)
    requires
        s.len() <= usize::MAX,
        0 <= c,
        occurs_at(s, seq![0x50u8, 0x4B, 0x03, 0x04], c),
        forall|j: int| 0 <= j < c ==> !occurs_at(s, seq![0x50u8, 0x4B, 0x03, 0x04], j),
        c + 4 <= e,
        e + 22 < s.len(),
        occurs_at(s, seq![0x50u8, 0x4B, 0x05, 0x06], e),
        forall|j: int| c + 4 <= j < e ==> !occurs_at(s, seq![0x50u8, 0x4B, 0x05, 0x06], j),
    ensures
        zip_hits_from(s, 0).len() >= 1,
        zip_hits_from(s, 0)[0].kind == CarveKind::Zip,
        zip_hits_from(s, 0)[0].start == c,
        zip_hits_from(s, 0)[0].size == e + 22 - c,
        !zip_hits_from(s, 0)[0].fragmented,
{
    assert(zip_local_header() =~= seq![0x50u8, 0x4B, 0x03, 0x04]);
    assert(zip_end_record() =~= seq![0x50u8, 0x4B, 0x05, 0x06]);
    lemma_zip_skip_to(s, 0, c);
    lemma_find_from_first(s, zip_end_record(), c + 4, e, s.len() - 22);
}

/// The window's first PNG signature followed by an `IEND` chunk end that lies before the
/// window's last 8 bytes is carved as a complete image through that chunk end.
pub proof fn law_first_png_recovered(s: Seq<u8>, c: int, e: int)
    requires
        s.len() <= usize::MAX,
        0 <= c,
        occurs_at(s, seq![0x89u8, 0x50, 0x4E, 0x47, 0x0D, 0x0A, 0x1A, 0x0A], c),
        forall|j: int| 0 <= j < c ==> !occurs_at(s, seq![0x89u8, 0x50, 0x4E, 0x47, 0x0D, 0x0A, 0x1A, 0x0A], j),
        c + 8 <= e,
        e + 8 < s.len(),
        occurs_at(s, seq![0x49u8, 0x45, 0x4E, 0x44, 0xAE, 0x42, 0x60, 0x82], e),
        forall|j: int| c + 8 <= j < e ==> !occurs_at(s, seq![0x49u8, 0x45, 0x4E, 0x44, 0xAE, 0x42, 0x60, 0x82], j),
    ensures
        png_hits_from(s, 0).len() >= 1,
        png_hits_from(s, 0)[0].kind == CarveKind::Png,
        png_hits_from(s, 0)[0].start == c,
        png_hits_from(s, 0)[0].size == e + 8 - c,
        !png_hits_from(s, 0)[0].fragmented,
{
    assert(png_signature() =~= seq![0x89u8, 0x50, 0x4E, 0x47, 0x0D, 0x0A, 0x1A, 0x0A]);
    assert(png_iend() =~= seq![0x49u8, 0x45, 0x4E, 0x44, 0xAE, 0x42, 0x60, 0x82]);
    lemma_png_skip_to(s, 0, c);
    lemma_find_from_first(s, png_iend(), c + 8, e, s.len() - 8);
}

/// The window's first MP4 (a box whose type at offset 4 is `ftyp`) is taken by the basic
/// scan as a fragment of 2 MiB from its start, or up to the window's end if that is nearer.
pub proof fn law_first_mp4_basic(s: Seq<u8>, c: int)
    requires
        s.len() <= usize::MAX,
        0 <= c,
        c + 8 <= s.len(),
        occurs_at(s, seq![0x66u8, 0x74, 0x79, 0x70], c + 4),
        forall|j: int| 0 <= j < c ==> !box_type_at(s, seq![0x66u8, 0x74, 0x79, 0x70], j),
    ensures
        mp4_basic_hits_from(s, 0).len() >= 1,
        mp4_basic_hits_from(s, 0)[0].kind == CarveKind::Mp4,
        mp4_basic_hits_from(s, 0)[0].start == c,
        mp4_basic_hits_from(s, 0)[0].size == if c + 2097152 < s.len() {
            2097152
        } else {
            s.len() - c
        },
        mp4_basic_hits_from(s, 0)[0].fragmented,
{
    assert(mp4_ftyp() =~= seq![0x66u8, 0x74, 0x79, 0x70]);
    lemma_mp4_basic_skip_to(s, 0, c);
}

/// The window's first MP4 (a box whose type at offset 4 is `ftyp`) is taken by the box
/// walk as one complete video starting there.
pub proof fn law_first_mp4_atom(s: Seq<u8>, c: int, cap: int)
    requires
        s.len() <= usize::MAX,
        0 <= c,
        c + 8 <= s.len(),
        occurs_at(s, seq![0x66u8, 0x74, 0x79, 0x70], c + 4),
        forall|j: int| 0 <= j < c ==> !box_type_at(s, seq![0x66u8, 0x74, 0x79, 0x70], j),
    ensures
        mp4_atom_hits_from(s, 0, cap).len() >= 1,
        mp4_atom_hits_from(s, 0, cap)[0].kind == CarveKind::Mp4,
        mp4_atom_hits_from(s, 0, cap)[0].start == c,
        !mp4_atom_hits_from(s, 0, cap)[0].fragmented,
{
    assert(mp4_ftyp() =~= seq![0x66u8, 0x74, 0x79, 0x70]);
    lemma_mp4_atom_skip_to(s, 0, c, cap);
}

proof fn lemma_find_from_first(s: Seq<u8>, p: Seq<u8>, j: int, k: int, limit: int)
    requires
        j <= k < limit,
        occurs_at(s, p, k),
        forall|m: int| j <= m < k ==> !occurs_at(s, p, m),
    ensures
        find_from(s, p, j, limit) == Some(k),
    decreases k - j,
{
    if j < k {
        lemma_find_from_first(s, p, j + 1, k, limit);
    }
}

/// A window that opens with `%PDF-` and whose first `%%EOF` after the header makes up
/// its last five bytes is recovered whole, as one complete PDF.
pub proof fn law_pdf_ending_window_recovered(s: Seq<u8>)
    requires
        s.len() >= 10,
        occurs_at(s, pdf_header(), 0),
        occurs_at(s, pdf_trailer(), s.len() - 5),
        forall|m: int| 5 <= m < s.len() - 5 ==> !occurs_at(s, pdf_trailer(), m),
    ensures
        pdf_hits_from(s, 0).len() >= 1,
        pdf_hits_from(s, 0)[0] == span_hit(CarveKind::Pdf, 0, s.len() as int, false),
{
    lemma_find_from_first(s, pdf_trailer(), 5, s.len() - 5, s.len() - 4);
}

/// A ZIP hit starts with a local header inside the window; unless it is a fragment, it
/// ends with a complete end-of-central-directory record.
pub open spec fn zip_hit_ok(s: Seq<u8>, h: CarveHit) -> bool {
    &&& h.kind == CarveKind::Zip
    &&& h.size >= 4
    &&& h.start + h.size <= s.len()
    &&& occurs_at(s, zip_local_header(), h.start as int)
    &&& !h.fragmented ==> h.size >= 26 && occurs_at(s, zip_end_record(), h.start + h.size - 22)
}

/// Every ZIP hit found from `i` is well formed and starts at or after `i`.
pub proof fn law_zip_hits_well_formed(s: Seq<u8>, i: int)
    requires
        s.len() <= usize::MAX,
        zip_scannable(s),
    ensures
        forall|k: int| 0 <= k < zip_hits_from(s, i).len() ==> {
            &&& #[trigger] zip_hit_ok(s, zip_hits_from(s, i)[k])
            &&& i <= zip_hits_from(s, i)[k].start
        },
    decreases s.len() - i,
{
    if i < 0 || i + 4 > s.len() {
    } else if occurs_at(s, zip_local_header(), i) {
        lemma_find_from(s, zip_end_record(), i + 4, s.len() - 22);
        law_zip_hits_well_formed(s, zip_end(s, i));
        let h = span_hit(
            CarveKind::Zip,
            i,
            zip_end(s, i),
            find_from(s, zip_end_record(), i + 4, s.len() - 22) is None,
        );
        let rest = zip_hits_from(s, zip_end(s, i));
        assert(zip_hits_from(s, i) == seq![h] + rest);
        assert forall|k: int| 0 <= k < zip_hits_from(s, i).len() implies {
            &&& #[trigger] zip_hit_ok(s, zip_hits_from(s, i)[k])
            &&& i <= zip_hits_from(s, i)[k].start
        } by {
            if k == 0 {
                assert(zip_hits_from(s, i)[k] == h);
            } else {
                assert(zip_hits_from(s, i)[k] == rest[k - 1]);
                assert(zip_hit_ok(s, rest[k - 1]));
            }
        }
    } else {
        law_zip_hits_well_formed(s, i + 1);
        assert(zip_hits_from(s, i) == zip_hits_from(s, i + 1));
    }
}

/// A PNG hit starts with the PNG signature and ends with the `IEND` chunk, inside the window.
pub open spec fn png_hit_ok(s: Seq<u8>, h: CarveHit) -> bool {
    &&& h.kind == CarveKind::Png
    &&& !h.fragmented
    &&& h.size >= 16
    &&& h.start + h.size <= s.len()
    &&& occurs_at(s, png_signature(), h.start as int)
    &&& occurs_at(s, png_iend(), h.start + h.size - 8)
}

proof fn lemma_png_hit(s: Seq<u8>, i: int, k: int)
    requires
        s.len() <= usize::MAX,
        0 <= k < png_hits_from(s, i).len(),
    ensures
        png_hit_ok(s, png_hits_from(s, i)[k]),
        i <= png_hits_from(s, i)[k].start,
    decreases s.len() - i,
{
    if i < 0 || i + 8 > s.len() {
    } else if occurs_at(s, png_signature(), i) {
        lemma_find_from(s, png_iend(), i + 8, s.len() - 8);
        match find_from(s, png_iend(), i + 8, s.len() - 8) {
            Some(j) => {
                let h = span_hit(CarveKind::Png, i, j + 8, false);
                let rest = png_hits_from(s, j + 8);
                assert(png_hits_from(s, i) == seq![h] + rest);
                if k > 0 {
                    lemma_png_hit(s, j + 8, k - 1);
                    assert(png_hits_from(s, i)[k] == rest[k - 1]);
                }
            },
            None => {
                lemma_png_hit(s, i + 1, k);
            },
        }
    } else {
        lemma_png_hit(s, i + 1, k);
    }
}

/// Every PNG hit found from `i` is well formed and starts at or after `i`.
pub proof fn law_png_hits_well_formed(s: Seq<u8>, i: int)
    requires
        s.len() <= usize::MAX,
    ensures
        forall|k: int| #![trigger png_hits_from(s, i)[k]] 0 <= k < png_hits_from(s, i).len() ==> {
            &&& png_hit_ok(s, png_hits_from(s, i)[k])
            &&& i <= png_hits_from(s, i)[k].start
        },
{
    assert forall|k: int| #![trigger png_hits_from(s, i)[k]] 0 <= k < png_hits_from(s, i).len() implies {
        &&& png_hit_ok(s, png_hits_from(s, i)[k])
        &&& i <= png_hits_from(s, i)[k].start
    } by {
        lemma_png_hit(s, i, k);
    }
}

/// A basic MP4 hit is a fragment inside the window whose fifth to eighth bytes are `ftyp`.
pub open spec fn mp4_basic_hit_ok(s: Seq<u8>, h: CarveHit) -> bool {
    &&& h.kind == CarveKind::Mp4
    &&& h.fragmented
    &&& h.size >= 8
    &&& h.start + h.size <= s.len()
    &&& occurs_at(s, mp4_ftyp(), h.start + 4)
}

/// Every MP4 hit of the basic scan from `i` is well formed and starts at or after `i`.
pub proof fn law_mp4_basic_hits_well_formed(s: Seq<u8>, i: int)
    requires
        s.len() <= usize::MAX,
    ensures
        forall|k: int| 0 <= k < mp4_basic_hits_from(s, i).len() ==> {
            &&& #[trigger] mp4_basic_hit_ok(s, mp4_basic_hits_from(s, i)[k])
            &&& i <= mp4_basic_hits_from(s, i)[k].start
        },
    decreases s.len() - i,
{
    if i < 0 || i + 8 > s.len() {
        assert(png_hits_from(s, i).len() == 0);
    } else if occurs_at(s, mp4_ftyp(), i + 4) {
        let end = if i + mp4_basic_span() < s.len() {
            i + mp4_basic_span()
        } else {
            s.len() as int
        };
        law_mp4_basic_hits_well_formed(s, end);
        let h = span_hit(CarveKind::Mp4, i, end, true);
        let rest = mp4_basic_hits_from(s, end);
        assert(mp4_basic_hits_from(s, i) == seq![h] + rest);
        assert forall|k: int| 0 <= k < mp4_basic_hits_from(s, i).len() implies {
            &&& #[trigger] mp4_basic_hit_ok(s, mp4_basic_hits_from(s, i)[k])
            &&& i <= mp4_basic_hits_from(s, i)[k].start
        } by {
            if k == 0 {
                assert(mp4_basic_hits_from(s, i)[k] == h);
            } else {
                assert(mp4_basic_hits_from(s, i)[k] == rest[k - 1]);
                assert(mp4_basic_hit_ok(s, rest[k - 1]));
            }
        }
    } else {
        law_mp4_basic_hits_well_formed(s, i + 1);
        assert(mp4_basic_hits_from(s, i) == mp4_basic_hits_from(s, i + 1));
    }
}

/// How many times the byte `b` occurs in `s`.
pub open spec fn byte_count(s: Seq<u8>, b: int) -> nat
    decreases s.len(),
{
    if s.len() == 0 {
        0
    } else {
        byte_count(s.drop_last(), b) + if s.last() == b {
            1nat
        } else {
            0nat
        }
    }
}

/// The number of occurrences of each byte value in `data`, indexed by the value; this is
/// what the Shannon entropy of a block is computed from.
pub fn byte_histogram(data: &[u8]) -> (h: Vec<usize>)
    ensures
        h@.len() == 256,
        forall|b: int| 0 <= b < 256 ==> #[trigger] h@[b] == byte_count(data@, b),
{
    let mut h: Vec<usize> = Vec::new();
    let mut v: usize = 0;
    while v < 256
        invariant
            v <= 256,
            h@.len() == v,
            forall|b: int| 0 <= b < v ==> #[trigger] h@[b] == 0,
        decreases 256 - v,
    {
        h.push(0);
        v = v + 1;
    }
    let mut i: usize = 0;
    while i < data.len()
        invariant
            i <= data@.len(),
            h@.len() == 256,
            forall|b: int| 0 <= b < 256 ==> #[trigger] h@[b] == byte_count(data@.take(i as int), b),
            forall|b: int| 0 <= b < 256 ==> #[trigger] h@[b] <= i,
        decreases data@.len() - i,
    {
        let x = data[i];
        assert(data@.take(i + 1).drop_last() =~= data@.take(i as int));
        assert(data@.take(i + 1).last() == x);
        let c = h[x as usize];
        h.set(x as usize, c + 1);
        i = i + 1;
    }
    assert(data@.take(i as int) =~= data@);
    h
}

} // verus!
