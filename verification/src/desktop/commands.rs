use vstd::prelude::*;

use crate::digest::{hasher_fed, hasher_hex, hasher_new, hasher_update, sha256, ImageHasher};
use crate::text::{hex_byte_upper, hex_lower, push_char, push_hex_byte_upper, replace_all, replaced};
use vstd::string::StringExecFns;

verus! {

/// The outcome of a bit-for-bit forensic image of a drive.
#[derive(Debug)]
pub struct CloneResult {
    pub image_path: String,
    pub bytes_copied: u64,
    pub sha256_hash: String,
}

/// The most bytes that the hex view shows.
pub const HEX_VIEW_LIMIT: usize = 256;

/// Bytes per hex-view line.
pub const HEX_LINE_WIDTH: usize = 16;

/// The upper-case hex pairs of `bytes`, separated by single spaces.
pub open spec fn hex_pairs(bytes: Seq<u8>) -> Seq<char>
    decreases bytes.len(),
{
    if bytes.len() == 0 {
        Seq::empty()
    } else if bytes.len() == 1 {
        hex_byte_upper(bytes[0])
    } else {
        hex_pairs(bytes.drop_last()) + seq![' '] + hex_byte_upper(bytes.last())
    }
}

/// The printable form of a byte: itself when it is printable ASCII, `.` otherwise.
pub open spec fn printable(b: u8) -> char {
    if 32 <= b <= 126 {
        b as char
    } else {
        '.'
    }
}

/// One hex-view line: the hex pairs, `  |  `, the printable characters, a line break.
pub open spec fn hex_line(chunk: Seq<u8>) -> Seq<char> {
    hex_pairs(chunk) + "  |  "@ + chunk.map_values(|b: u8| printable(b)) + seq!['\n']
}

/// The hex view of `bytes`: one line per 16 bytes, the last line possibly shorter.
pub open spec fn hex_view(bytes: Seq<u8>) -> Seq<char>
    decreases bytes.len(),
{
    if bytes.len() == 0 {
        Seq::empty()
    } else if bytes.len() <= 16 {
        hex_line(bytes)
    } else {
        hex_line(bytes.take(16)) + hex_view(bytes.skip(16))
    }
}

fn push_hex_line(out: &mut String, chunk: &[u8])
    ensures
        final(out)@ == old(out)@ + hex_line(chunk@),
{
    let ghost start = out@;
    let mut i: usize = 0;
    while i < chunk.len()
        invariant
            i <= chunk@.len(),
            out@ == start + hex_pairs(chunk@.take(i as int)),
        decreases chunk@.len() - i,
    {
        if i > 0 {
            push_char(out, ' ');
        }
        push_hex_byte_upper(out, chunk[i]);
        proof {
            let t = chunk@.take(i + 1);
            assert(t.drop_last() =~= chunk@.take(i as int));
            if i == 0 {
                assert(hex_pairs(chunk@.take(0)) =~= Seq::<char>::empty());
            }
            assert(out@ =~= start + hex_pairs(t));
        }
        i = i + 1;
    }
    assert(chunk@.take(i as int) =~= chunk@);
    out.append("  |  ");
    let ghost mid = out@;
    let mut j: usize = 0;
    while j < chunk.len()
        invariant
            j <= chunk@.len(),
            out@ == mid + chunk@.take(j as int).map_values(|b: u8| printable(b)),
        decreases chunk@.len() - j,
    {
        let b = chunk[j];
        let c = if 32 <= b && b <= 126 {
            b as char
        } else {
            '.'
        };
        push_char(out, c);
        assert(out@ =~= mid + chunk@.take(j + 1).map_values(|b: u8| printable(b)));
        j = j + 1;
    }
    push_char(out, '\n');
    assert(out@ =~= start + hex_line(chunk@));
}

/// The hex view of `bytes` (the first bytes of a file): 16 bytes per line, each line
/// the upper-case hex pairs, `  |  ` and the printable characters.
pub fn hex_dump(bytes: &[u8]) -> (r: String)
    ensures
        r@ == hex_view(bytes@),
{
    let mut r = String::new();
    let mut i: usize = 0;
    assert(bytes@.skip(0) =~= bytes@);
    while i < bytes.len()
        invariant
            i <= bytes@.len(),
            r@ + hex_view(bytes@.skip(i as int)) == hex_view(bytes@),
        decreases bytes@.len() - i,
    {
        let left = bytes.len() - i;
        let n: usize = if left < 16 {
            left
        } else {
            16
        };
        let chunk = &bytes[i..i + n];
        let ghost before = r@;
        push_hex_line(&mut r, chunk);
        proof {
            let rest = bytes@.skip(i as int);
            if left <= 16 {
                assert(chunk@ =~= rest);
                assert(bytes@.skip(i + n) =~= Seq::<u8>::empty());
            } else {
                assert(chunk@ =~= rest.take(16));
                assert(rest.skip(16) =~= bytes@.skip(i + n));
            }
        }
        i = i + n;
    }
    assert(hex_view(bytes@.skip(i as int)) =~= Seq::<char>::empty());
    assert(r@ =~= r@ + hex_view(bytes@.skip(i as int)));
    r
}

/// Where the forensic image of `target` is written under `output_dir`: the target path
/// with every `/` and then every `\` turned into `_`, as `forensic_image_<name>.dd`.
pub open spec fn forensic_image_path(output_dir: Seq<char>, target: Seq<char>) -> Seq<char> {
    output_dir + "/forensic_image_"@ + replaced(replaced(target, "/"@, "_"@), "\\"@, "_"@) + ".dd"@
}

/// The path of the forensic image of `target` under `output_dir`.
pub fn forensic_image_file(output_dir: &str, target: &str) -> (r: String)
    ensures
        r@ == forensic_image_path(output_dir@, target@),
{
    proof {
        reveal_strlit("/");
        reveal_strlit("\\");
    }
    let first = replace_all(target, "/", "_");
    let safe = replace_all(first.as_str(), "\\", "_");
    let mut r = String::from_str(output_dir);
    r.append("/forensic_image_");
    r.append(safe.as_str());
    r.append(".dd");
    r
}

/// A forensic image in progress: the bytes copied so far, hashed as they are copied.
pub struct ImageCopy {
    hasher: ImageHasher,
    copied: u64,
}

impl ImageCopy {
    /// The count of copied bytes is the length of what was hashed.
    #[verifier::type_invariant]
    spec fn counted(&self) -> bool {
        self.copied == hasher_fed(self.hasher).len()
    }

    /// The bytes copied so far, in order.
    pub closed spec fn copied_bytes(&self) -> Seq<u8> {
        hasher_fed(self.hasher)
    }

    /// An image with nothing copied yet.
    pub fn new() -> (c: Self)
        ensures
            c.copied_bytes() == Seq::<u8>::empty(),
    {
        ImageCopy { hasher: hasher_new(), copied: 0 }
    }

    /// The number of bytes copied so far.
    pub fn bytes_copied(&self) -> (n: u64)
        ensures
            n == self.copied_bytes().len(),
    {
        proof {
            use_type_invariant(self);
        }
        self.copied
    }

    /// Takes in the next block read from the source, after those before it.
    pub fn absorb(self, block: &[u8]) -> (c: Self)
        requires
            self.copied_bytes().len() + block@.len() <= u64::MAX,
        ensures
            c.copied_bytes() == self.copied_bytes() + block@,
    {
        proof {
            use_type_invariant(&self);
        }
        let ImageCopy { hasher, copied } = self;
        let mut hasher = hasher;
        hasher_update(&mut hasher, block);
        ImageCopy { hasher, copied: copied + block.len() as u64 }
    }
}

/// The result of imaging `target` into `output_dir`: where the image was written, how
/// many bytes were copied, and the lower-case hex SHA-256 of exactly those bytes.
pub fn clone_result(output_dir: &str, target: &str, image: ImageCopy) -> (r: CloneResult)
    ensures
        r.image_path@ == forensic_image_path(output_dir@, target@),
        r.bytes_copied == image.copied_bytes().len(),
        r.sha256_hash@ == hex_lower(sha256(image.copied_bytes())),
{
    let copied = image.bytes_copied();
    let ImageCopy { hasher, copied: _ } = image;
    CloneResult {
        image_path: forensic_image_file(output_dir, target),
        bytes_copied: copied,
        sha256_hash: hasher_hex(hasher),
    }
}

/// The ledger status recorded for a finished image: `Image SHA256: ` and its hash.
pub fn clone_status(r: &CloneResult) -> (s: String)
    ensures
        s@ == "Image SHA256: "@ + r.sha256_hash@,
{
    let mut s = String::from_str("Image SHA256: ");
    s.append(r.sha256_hash.as_str());
    s
}

} // verus!
