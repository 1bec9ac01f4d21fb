use vstd::prelude::*;

use crate::engine::safety::{
    abort_message, first_forbidden, is_loopback, is_whitelisted_usb, restriction_message, SafetyGuard,
};
use crate::text::{chars_of, has_suffix, hex_byte_upper, trim_chars, trimmed};
use vstd::string::StringExecFns;

verus! {

/// The sanitization standards that a wipe can follow.
#[derive(Debug, Clone, Copy, PartialEq, Eq)]
pub enum WipeProfile {
    /// NIST SP 800-88 Clear: one pass of zeros.
    NistClear,
    /// DoD 5220.22-M: zeros, then ones, then random data.
    Dod522022M,
    /// A hardware discard of the whole device (for SSDs and flash).
    HardwarePurge,
}

/// The profile chosen by its command-line name.
pub open spec fn cli_profile(name: Seq<char>) -> Option<WipeProfile> {
    if name == "nist-clear"@ {
        Some(WipeProfile::NistClear)
    } else if name == "hardware-purge"@ {
        Some(WipeProfile::HardwarePurge)
    } else if name == "dod-3pass"@ {
        Some(WipeProfile::Dod522022M)
    } else {
        None
    }
}

/// The profile chosen by its name in the desktop interface.
pub open spec fn ui_profile(name: Seq<char>) -> Option<WipeProfile> {
    if name == "nist_clear"@ {
        Some(WipeProfile::NistClear)
    } else if name == "dod_3pass"@ {
        Some(WipeProfile::Dod522022M)
    } else if name == "hardware_purge"@ {
        Some(WipeProfile::HardwarePurge)
    } else {
        None
    }
}

fn same_text(a: &str, b: &str) -> (r: bool)
    ensures
        r == (a@ == b@),
{
    String::from_str(a) == String::from_str(b)
}

impl WipeProfile {
    /// The profile named on the command line: `nist-clear`, `hardware-purge` or `dod-3pass`.
    pub fn from_cli_name(name: &str) -> (r: Option<WipeProfile>)
        ensures
            r == cli_profile(name@),
    {
        if same_text(name, "nist-clear") {
            Some(WipeProfile::NistClear)
        } else if same_text(name, "hardware-purge") {
            Some(WipeProfile::HardwarePurge)
        } else if same_text(name, "dod-3pass") {
            Some(WipeProfile::Dod522022M)
        } else {
            None
        }
    }

    /// The profile named by the desktop interface: `nist_clear`, `dod_3pass` or `hardware_purge`.
    pub fn from_ui_name(name: &str) -> (r: Option<WipeProfile>)
        ensures
            r == ui_profile(name@),
    {
        if same_text(name, "nist_clear") {
            Some(WipeProfile::NistClear)
        } else if same_text(name, "dod_3pass") {
            Some(WipeProfile::Dod522022M)
        } else if same_text(name, "hardware_purge") {
            Some(WipeProfile::HardwarePurge)
        } else {
            None
        }
    }
}

/// The audit status of a finished wipe: `VERIFIED_CLEAN` when verification passed,
/// `VERIFICATION_FAILED` otherwise.
pub fn wipe_status(clean: bool) -> (r: String)
    ensures
        r@ == if clean {
            "VERIFIED_CLEAN"@
        } else {
            "VERIFICATION_FAILED"@
        },
{
    if clean {
        String::from_str("VERIFIED_CLEAN")
    } else {
        String::from_str("VERIFICATION_FAILED")
    }
}

/// The audit status of an operation that failed with `error`: `FAILED: ` and the error.
pub fn failure_status(error: &str) -> (r: String)
    ensures
        r@ == "FAILED: "@ + error@,
{
    let mut r = String::from_str("FAILED: ");
    r.append(error);
    r
}

/// One pass over the target.
#[derive(Debug, Clone, Copy, PartialEq, Eq)]
pub enum WipePass {
    /// Overwrite every byte with the given value.
    Fill(u8),
    /// Overwrite every byte with pseudo-random data.
    Random,
    /// Ask the device to discard all of its blocks.
    Discard,
}

/// A pass with the label announced when it starts.
#[derive(Debug)]
pub struct WipeStep {
    pub pass: WipePass,
    pub label: String,
}

/// Everything a wipe of a validated target does: its passes in order, the byte value
/// that verification expects afterwards (none after random data), and the distance
/// between verification samples.
#[derive(Debug)]
pub struct SanitizePlan {
    pub steps: Vec<WipeStep>,
    pub expected_pattern: Option<u8>,
    pub stride_step: u64,
}

/// Bytes written per write call in a fill pass (2 MiB).
pub const FILL_CHUNK_SIZE: u64 = 2 * 1024 * 1024;

/// Bytes written per write call in a random pass (1 MiB).
pub const RANDOM_CHUNK_SIZE: u64 = 1024 * 1024;

/// Distance between the offsets sampled by post-wipe verification.
pub const VERIFY_STRIDE: u64 = 4096;

/// Bytes read at each verification sample.
pub const SAMPLE_SIZE: usize = 512;

/// The passes of a profile, in order.
pub open spec fn profile_passes(profile: WipeProfile) -> Seq<WipePass> {
    match profile {
        WipeProfile::NistClear => seq![WipePass::Fill(0x00)],
        WipeProfile::Dod522022M => seq![WipePass::Fill(0x00), WipePass::Fill(0xFF), WipePass::Random],
        WipeProfile::HardwarePurge => seq![WipePass::Discard],
    }
}

/// The labels of a profile's passes, in order.
pub open spec fn profile_labels(profile: WipeProfile) -> Seq<Seq<char>> {
    match profile {
        WipeProfile::NistClear => seq!["NIST-Clear [0x00]"@],
        WipeProfile::Dod522022M => seq![
            "DoD Pass 1/3 [0x00]"@,
            "DoD Pass 2/3 [0xFF]"@,
            "DoD Pass 3/3 [PRNG Random]"@,
        ],
        WipeProfile::HardwarePurge => seq!["Hardware Discard"@],
    }
}

/// The value every sampled byte must have after a wipe with `profile` (a discard is
/// taken to read back as zeros); none after random data.
pub open spec fn profile_expected_pattern(profile: WipeProfile) -> Option<u8> {
    match profile {
        WipeProfile::NistClear => Some(0x00u8),
        WipeProfile::HardwarePurge => Some(0x00u8),
        WipeProfile::Dod522022M => None,
    }
}

/// The bytes written by successive write calls of a pass over `total` bytes in chunks
/// of `chunk` bytes, once `written` bytes are done.
pub open spec fn pass_chunks(total: int, chunk: int, written: int) -> Seq<int>
    decreases total - written,
{
    if chunk <= 0 || written >= total {
        Seq::empty()
    } else {
        let n = if total - written < chunk {
            total - written
        } else {
            chunk
        };
        seq![n] + pass_chunks(total, chunk, written + n)
    }
}

/// The sum of a sequence of byte counts.
pub open spec fn total_of(s: Seq<int>) -> int
    decreases s.len(),
{
    if s.len() == 0 {
        0
    } else {
        s[0] + total_of(s.drop_first())
    }
}

/// The path of the sysfs flag that tells whether the block device named by the last
/// component of `dev_path` spins.
pub open spec fn rotational_flag_path(dev_path: Seq<char>) -> Seq<char> {
    "/sys/block/"@ + match file_name_of(dev_path) {
        Some(n) => n,
        None => Seq::empty(),
    } + "/queue/rotational"@
}

/// The characters of `path` after its last `/` (all of it when there is none).
pub open spec fn last_piece(path: Seq<char>) -> Seq<char>
    decreases path.len(),
{
    if path.len() == 0 || path.last() == '/' {
        Seq::empty()
    } else {
        last_piece(path.drop_last()).push(path.last())
    }
}

/// The final component of a path, as `std::path::Path::file_name` documents it for `/`
/// separated paths: trailing separators and `.` components are passed over; a final
/// `..`, or no component at all (as in `/`), gives none.
pub open spec fn file_name_of(path: Seq<char>) -> Option<Seq<char>>
    decreases path.len(),
{
    if path.len() == 0 {
        None
    } else if path.last() == '/' {
        file_name_of(path.drop_last())
    } else {
        let piece = last_piece(path);
        if piece == seq!['.'] {
            file_name_of(path.subrange(0, path.len() - 1))
        } else if piece == seq!['.', '.'] {
            None
        } else {
            Some(piece)
        }
    }
}

/// Trusted: `std::path::Path::new(path).file_name()` followed by `OsStr::to_str`. The
/// contract gives the documented final component, `file_name_of(path@)`; the path is
/// UTF-8 text, so its components are too and the conversion never fails.
#[verifier::external_body]
fn path_file_name(path: &str) -> (r: Option<String>)
    ensures
        match r {
            Some(n) => file_name_of(path@) == Some(n@),
            None => file_name_of(path@) is None,
        },
{
    std::path::Path::new(path).file_name().and_then(|n| n.to_str()).map(|n| n.to_string())
}

/// One pseudo-random byte.
///
/// Trusted: `rand::random::<u8>()`, drawn from the thread-local generator; nothing is
/// stated of its value.
#[verifier::external_body]
fn random_byte() -> u8 {
    rand::random::<u8>()
}

/// The wiping engine.
pub struct SanitizerEngine;

impl SanitizerEngine {
    /// The passes of a profile, each with its announced label.
    pub fn wipe_steps(profile: WipeProfile) -> (steps: Vec<WipeStep>)
        ensures
            steps@.len() == profile_passes(profile).len(),
            forall|k: int| 0 <= k < steps@.len() ==> (#[trigger] steps@[k]).pass == profile_passes(profile)[k]
                && steps@[k].label@ == profile_labels(profile)[k],
    {
        let mut steps: Vec<WipeStep> = Vec::new();
        match profile {
            WipeProfile::NistClear => {
                steps.push(WipeStep { pass: WipePass::Fill(0x00), label: String::from_str("NIST-Clear [0x00]") });
            },
            WipeProfile::Dod522022M => {
                steps.push(WipeStep { pass: WipePass::Fill(0x00), label: String::from_str("DoD Pass 1/3 [0x00]") });
                steps.push(WipeStep { pass: WipePass::Fill(0xFF), label: String::from_str("DoD Pass 2/3 [0xFF]") });
                steps.push(WipeStep { pass: WipePass::Random, label: String::from_str("DoD Pass 3/3 [PRNG Random]") });
            },
            WipeProfile::HardwarePurge => {
                steps.push(WipeStep { pass: WipePass::Discard, label: String::from_str("Hardware Discard") });
            },
        }
        steps
    }

    /// The value that verification expects after a wipe with `profile`.
    pub fn expected_pattern(profile: WipeProfile) -> (r: Option<u8>)
        ensures
            r == profile_expected_pattern(profile),
    {
        match profile {
            WipeProfile::NistClear => Some(0x00),
            WipeProfile::HardwarePurge => Some(0x00),
            WipeProfile::Dod522022M => None,
        }
    }

    /// Decides a wipe of `target_path` with `profile`: the target must pass the safety
    /// guard, whose refusal is returned unchanged; otherwise the passes, the expected
    /// pattern and the verification stride of the profile.
    pub fn plan_sanitization(target_path: &str, profile: WipeProfile) -> (r: Result<SanitizePlan, String>)
        ensures
            match first_forbidden(target_path@) {
                Some(f) => r matches Err(e) && e@ == abort_message(target_path@, f),
                None => if is_loopback(target_path@) || is_whitelisted_usb(target_path@) {
                    r matches Ok(plan) && {
                        &&& plan.steps@.len() == profile_passes(profile).len()
                        &&& forall|k: int| 0 <= k < plan.steps@.len() ==> (#[trigger] plan.steps@[k]).pass
                            == profile_passes(profile)[k] && plan.steps@[k].label@ == profile_labels(profile)[k]
                        &&& plan.expected_pattern == profile_expected_pattern(profile)
                        &&& plan.stride_step == VERIFY_STRIDE
                    }
                } else {
                    r matches Err(e) && e@ == restriction_message(target_path@)
                },
            },
    {
        match SafetyGuard::validate_target(target_path) {
            Err(e) => Err(e),
            Ok(()) => Ok(
                SanitizePlan {
                    steps: Self::wipe_steps(profile),
                    expected_pattern: Self::expected_pattern(profile),
                    stride_step: VERIFY_STRIDE,
                },
            ),
        }
    }

    /// The number of bytes of the next write of a pass over `total` bytes once `written`
    /// are done: a full chunk, or what is left when that is less.
    pub fn next_chunk_len(total: u64, written: u64, chunk: u64) -> (n: u64)
        requires
            written < total,
        ensures
            n == if total - written < chunk {
                total - written
            } else {
                chunk as int
            },
    {
        let left = total - written;
        if left < chunk {
            left
        } else {
            chunk
        }
    }

    /// A block of `len` pseudo-random bytes for a random pass.
    pub fn random_block(len: usize) -> (block: Vec<u8>)
        ensures
            block@.len() == len,
    {
        let mut block: Vec<u8> = Vec::new();
        let mut i: usize = 0;
        while i < len
            invariant
                i <= len,
                block@.len() == i,
            decreases len - i,
        {
            block.push(random_byte());
            i = i + 1;
        }
        block
    }

    /// The sysfs flag path for the block device named by the last component of `dev_path`.
    pub fn rotational_flag_file(dev_path: &str) -> (p: String)
        ensures
            p@ == rotational_flag_path(dev_path@),
    {
        let mut p = String::from_str("/sys/block/");
        match path_file_name(dev_path) {
            Some(n) => p.append(n.as_str()),
            None => {},
        }
        p.append("/queue/rotational");
        p
    }

    /// Whether a device spins, from the contents of its sysfs flag (none when the flag
    /// could not be read, which is taken as non-rotational): the trimmed contents are `1`.
    pub fn is_rotational(flag_contents: Option<&str>) -> (r: bool)
        ensures
            r == match flag_contents {
                Some(c) => trimmed(c@) == seq!['1'],
                None => false,
            },
    {
        match flag_contents {
            None => false,
            Some(c) => {
                let t = trim_chars(chars_of(c).as_slice());
                let one = t.len() == 1 && t[0] == '1';
                assert(one == (t@ =~= seq!['1']));
                one
            },
        }
    }
}

/// Sampling the target after a wipe: samples are read at offsets 0, `stride`, `2*stride`,
/// ... while below `total`; the target is clean unless a sample holds a byte other than
/// the expected pattern. An empty read (end of device) ends the check as clean.
#[derive(Debug)]
pub struct WipeVerifier {
    total: u64,
    stride: u64,
    expected: Option<u8>,
    cursor: u64,
    verdict: Option<bool>,
}

/// Whether a sample is consistent with the expected pattern.
pub open spec fn sample_clean(sample: Seq<u8>, expected: Option<u8>) -> bool {
    match expected {
        None => true,
        Some(p) => forall|i: int| 0 <= i < sample.len() ==> sample[i] == p,
    }
}

/// Whether every byte of `sample` is the expected pattern (always, when none is expected).
pub fn sample_matches(sample: &[u8], expected: Option<u8>) -> (r: bool)
    ensures
        r == sample_clean(sample@, expected),
{
    match expected {
        None => true,
        Some(p) => {
            let mut i: usize = 0;
            while i < sample.len()
                invariant
                    i <= sample@.len(),
                    expected == Some(p),
                    forall|j: int| 0 <= j < i ==> sample@[j] == p,
                decreases sample@.len() - i,
            {
                if sample[i] != p {
                    assert(!(sample@[i as int] == p));
                    return false;
                }
                i = i + 1;
            }
            true
        },
    }
}

impl WipeVerifier {
    /// While the verdict is open the stride is not zero and the next sample lies inside
    /// the target.
    #[verifier::type_invariant]
    spec fn well_formed(&self) -> bool {
        self.verdict is None ==> self.stride > 0 && self.cursor < self.total
    }

    /// The offset of the next sample, while the verdict is open.
    pub closed spec fn spec_cursor(&self) -> u64 {
        self.cursor
    }

    /// The verdict once reached.
    pub closed spec fn spec_verdict(&self) -> Option<bool> {
        self.verdict
    }

    /// The size of the target being checked.
    pub closed spec fn spec_total(&self) -> u64 {
        self.total
    }

    /// The distance between samples.
    pub closed spec fn spec_stride(&self) -> u64 {
        self.stride
    }

    /// The pattern that samples must match.
    pub closed spec fn spec_expected(&self) -> Option<u8> {
        self.expected
    }

    /// Starts checking `total` bytes every `stride_step` bytes for `expected_pattern`; an
    /// empty target is clean at once, whatever the stride.
    pub fn new(total: u64, stride_step: u64, expected_pattern: Option<u8>) -> (v: Self)
        requires
            stride_step > 0 || total == 0,
        ensures
            v.spec_total() == total,
            v.spec_stride() == stride_step,
            v.spec_expected() == expected_pattern,
            v.spec_cursor() == 0,
            v.spec_verdict() == if total == 0 {
                Some(true)
            } else {
                None::<bool>
            },
    {
        WipeVerifier {
            total,
            stride: stride_step,
            expected: expected_pattern,
            cursor: 0,
            verdict: if total == 0 {
                Some(true)
            } else {
                None
            },
        }
    }

    /// The offset at which the next sample is to be read, or none once the verdict is in.
    pub fn next_offset(&self) -> (r: Option<u64>)
        ensures
            r == if self.spec_verdict() is None {
                Some(self.spec_cursor())
            } else {
                None::<u64>
            },
    {
        if self.verdict.is_none() {
            Some(self.cursor)
        } else {
            None
        }
    }

    /// The verdict once reached: whether every sample matched.
    pub fn verdict(&self) -> (r: Option<bool>)
        ensures
            r == self.spec_verdict(),
    {
        self.verdict
    }

    /// Records the bytes read at the current offset: an empty read ends the check as
    /// clean, a byte off the pattern ends it as not clean, and otherwise the check moves
    /// one stride on, ending as clean once past the end of the target. Once the verdict
    /// is in, nothing changes.
    pub fn record_sample(&mut self, sample: &[u8])
        ensures
            final(self).spec_total() == old(self).spec_total(),
            final(self).spec_stride() == old(self).spec_stride(),
            final(self).spec_expected() == old(self).spec_expected(),
            old(self).spec_verdict() is Some ==> final(self).spec_verdict() == old(self).spec_verdict()
                && final(self).spec_cursor() == old(self).spec_cursor(),
            old(self).spec_verdict() is None ==> {
                if sample@.len() == 0 {
                    final(self).spec_verdict() == Some(true)
                } else if !sample_clean(sample@, old(self).spec_expected()) {
                    final(self).spec_verdict() == Some(false)
                } else if old(self).spec_cursor() + old(self).spec_stride() < old(self).spec_total() {
                    &&& final(self).spec_verdict() is None
                    &&& final(self).spec_cursor() == old(self).spec_cursor() + old(self).spec_stride()
                } else {
                    final(self).spec_verdict() == Some(true)
                }
            },
    {
        proof {
            use_type_invariant(&*self);
        }
        if self.verdict.is_some() {
            return;
        }
        if sample.len() == 0 {
            self.verdict = Some(true);
            return;
        }
        if !sample_matches(sample, self.expected) {
            self.verdict = Some(false);
            return;
        }
        if self.stride < self.total - self.cursor {
            self.cursor = self.cursor + self.stride;
        } else {
            self.verdict = Some(true);
        }
    }
}

/// A write pass covers its target exactly: its chunks are all non-empty, none is larger
/// than the chunk size, and together they add up to the bytes left to write.
pub proof fn law_pass_covers_target(total: int, chunk: int, written: int)
    requires
        chunk > 0,
        0 <= written <= total,
    ensures
        total_of(pass_chunks(total, chunk, written)) == total - written,
        forall|k: int| 0 <= k < pass_chunks(total, chunk, written).len() ==> 0 < #[trigger] pass_chunks(
            total,
            chunk,
            written,
        )[k] <= chunk,
    decreases total - written,
{
    if written < total {
        let n = if total - written < chunk {
            total - written
        } else {
            chunk
        };
        law_pass_covers_target(total, chunk, written + n);
        let rest = pass_chunks(total, chunk, written + n);
        let all = pass_chunks(total, chunk, written);
        assert(all == seq![n] + rest);
        assert(all.drop_first() =~= rest);
        assert forall|k: int| 0 <= k < all.len() implies 0 < #[trigger] all[k] <= chunk by {
            if k > 0 {
                assert(all[k] == rest[k - 1]);
            }
        }
    }
}

/// Each successive write length of a pass is the first remaining chunk that the pass
/// plan gives.
pub proof fn law_next_chunk_follows_plan(total: int, chunk: int, written: int)
    requires
        chunk > 0,
        0 <= written < total,
    ensures
        pass_chunks(total, chunk, written)[0] == if total - written < chunk {
            total - written
        } else {
            chunk
        },
{
}

/// The passes of each profile, as documented: NIST Clear is one pass of zeros, DoD
/// 5220.22-M is zeros, then ones (0xFF), then random data, and the hardware purge is a
/// single device discard.
pub proof fn law_profile_passes_documented()
    ensures
        profile_passes(WipeProfile::NistClear) == seq![WipePass::Fill(0x00u8)],
        profile_passes(WipeProfile::Dod522022M) == seq![
            WipePass::Fill(0x00u8),
            WipePass::Fill(0xFFu8),
            WipePass::Random,
        ],
        profile_passes(WipeProfile::HardwarePurge) == seq![WipePass::Discard],
{
}

/// Every fill pass is announced with the byte it writes: its label ends in `[0x..]`
/// with that byte in upper-case hexadecimal.
pub proof fn law_fill_labels_name_their_byte(profile: WipeProfile, k: int)
    requires
        0 <= k < profile_passes(profile).len(),
    ensures
        profile_labels(profile).len() == profile_passes(profile).len(),
        profile_passes(profile)[k] matches WipePass::Fill(b) ==> has_suffix(
            profile_labels(profile)[k],
            "[0x"@ + hex_byte_upper(b) + "]"@,
        ),
{
    reveal_strlit("[0x");
    reveal_strlit("]");
    reveal_strlit("NIST-Clear [0x00]");
    reveal_strlit("DoD Pass 1/3 [0x00]");
    reveal_strlit("DoD Pass 2/3 [0xFF]");
    reveal_strlit("DoD Pass 3/3 [PRNG Random]");
    reveal_strlit("Hardware Discard");
    if let WipePass::Fill(b) = profile_passes(profile)[k] {
        let l = profile_labels(profile)[k];
        let suffix = "[0x"@ + hex_byte_upper(b) + "]"@;
        assert(l.subrange(l.len() - suffix.len(), l.len() as int) =~= suffix);
    }
}

/// What verification expects is what the last pass leaves behind: the byte of a final
/// fill pass, zeros after a discard, and nothing fixed after random data.
pub proof fn law_expected_pattern_follows_last_pass(profile: WipeProfile)
    ensures
        profile_passes(profile).len() > 0,
        match profile_passes(profile).last() {
            WipePass::Fill(b) => profile_expected_pattern(profile) == Some(b),
            WipePass::Discard => profile_expected_pattern(profile) == Some(0x00u8),
            WipePass::Random => profile_expected_pattern(profile) is None,
        },
{
}

} // verus!
