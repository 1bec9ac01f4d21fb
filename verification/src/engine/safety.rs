use vstd::prelude::*;

use crate::text::{chars_contain, chars_end_with, chars_of, chars_start_with, has_infix, has_prefix, has_suffix};
use vstd::string::StringExecFns;

verus! {

/// The host devices that may never be targeted, in the order they are checked.
pub open spec fn forbidden_targets() -> Seq<Seq<char>> {
    seq!["/dev/sda"@, "/dev/sdb"@, "/dev/nvme0n1"@, "/dev/vda"@, "/dev/mapper"@, "/dev/root"@]
}

/// `target` is the device `forbidden` itself or one of its `p`-numbered partitions.
pub open spec fn matches_forbidden(target: Seq<char>, forbidden: Seq<char>) -> bool {
    target == forbidden || has_prefix(target, forbidden.push('p'))
}

/// The first protected device, at position `k` of the list or later, that `target` matches.
pub open spec fn first_forbidden_from(target: Seq<char>, k: int) -> Option<Seq<char>>
    decreases forbidden_targets().len() - k,
{
    if k < 0 || k >= forbidden_targets().len() {
        None
    } else if matches_forbidden(target, forbidden_targets()[k]) {
        Some(forbidden_targets()[k])
    } else {
        first_forbidden_from(target, k + 1)
    }
}

/// The first protected device that `target` matches.
pub open spec fn first_forbidden(target: Seq<char>) -> Option<Seq<char>> {
    first_forbidden_from(target, 0)
}

/// A loopback test fixture: the test image or a loop device.
pub open spec fn is_loopback(target: Seq<char>) -> bool {
    has_suffix(target, "test_drive.raw"@) || has_infix(target, "/dev/loop"@)
}

/// One of the removable USB nodes assigned for testing.
pub open spec fn is_whitelisted_usb(target: Seq<char>) -> bool {
    has_infix(target, "/dev/sdc"@) || has_infix(target, "/dev/sdd"@)
}

/// The message that blocks a protected host drive.
pub open spec fn abort_message(target: Seq<char>, forbidden: Seq<char>) -> Seq<char> {
    "CRITICAL SAFETY ABORT: Target '"@ + target + "' matches protected host drive '"@ + forbidden
        + "'. Execution blocked."@
}

/// The message that refuses a target that is not an approved fixture.
pub open spec fn restriction_message(target: Seq<char>) -> Seq<char> {
    "SAFETY RESTRICTION: Target '"@ + target
        + "' is not an approved test fixture. Must end with 'test_drive.raw' or match assigned removable USB nodes."@
}

/// The guard that every destructive or reading operation passes first.
pub struct SafetyGuard;

impl SafetyGuard {
    /// Refuses a protected host drive, or one of its `p`-numbered partitions, with an
    /// abort message naming the first matching drive; accepts any other target.
    pub fn refuse_host_drive(target_path: &str) -> (r: Result<(), String>)
        ensures
            match first_forbidden(target_path@) {
                Some(f) => r matches Err(e) && e@ == abort_message(target_path@, f),
                None => r is Ok,
            },
    {
        let target = chars_of(target_path);
        let candidates: [&str; 6] = ["/dev/sda", "/dev/sdb", "/dev/nvme0n1", "/dev/vda", "/dev/mapper", "/dev/root"];
        assert(candidates@.map_values(|c: &str| c@) =~= forbidden_targets());
        let mut k: usize = 0;
        while k < 6
            invariant
                k <= 6,
                target@ == target_path@,
                candidates@.map_values(|c: &str| c@) == forbidden_targets(),
                first_forbidden(target_path@) == first_forbidden_from(target_path@, k as int),
            decreases 6 - k,
        {
            let forbidden = candidates[k];
            assert(forbidden@ == forbidden_targets()[k as int]);
            let f = chars_of(forbidden);
            let mut fp = chars_of(forbidden);
            fp.push('p');
            let exact = target.len() == f.len() && chars_start_with(target.as_slice(), f.as_slice());
            proof {
                if target@.len() == f@.len() && has_prefix(target@, f@) {
                    assert(target@ =~= f@);
                }
                if target@ == f@ {
                    assert(target@.subrange(0, f@.len() as int) =~= f@);
                }
                assert(exact == (target@ == f@));
            }
            if exact || chars_start_with(target.as_slice(), fp.as_slice()) {
                let mut msg = String::from_str("CRITICAL SAFETY ABORT: Target '");
                msg.append(target_path);
                msg.append("' matches protected host drive '");
                msg.append(forbidden);
                msg.append("'. Execution blocked.");
                return Err(msg);
            }
            assert(!matches_forbidden(target_path@, forbidden_targets()[k as int]));
            k = k + 1;
        }
        Ok(())
    }

    /// Checks a target path (already resolved to its canonical form by the caller when
    /// the path exists): a protected host drive or one of its partitions is refused with
    /// an abort message naming the first matching drive; otherwise the target must be the
    /// test image, a loop device or an assigned USB node.
    pub fn validate_target(target_path: &str) -> (r: Result<(), String>)
        ensures
            match first_forbidden(target_path@) {
                Some(f) => r matches Err(e) && e@ == abort_message(target_path@, f),
                None => if is_loopback(target_path@) || is_whitelisted_usb(target_path@) {
                    r is Ok
                } else {
                    r matches Err(e) && e@ == restriction_message(target_path@)
                },
            },
    {
        if let Err(e) = SafetyGuard::refuse_host_drive(target_path) {
            return Err(e);
        }
        let target = chars_of(target_path);
        let suffix = chars_of("test_drive.raw");
        let loop_dev = chars_of("/dev/loop");
        let usb_c = chars_of("/dev/sdc");
        let usb_d = chars_of("/dev/sdd");
        let loopback = chars_end_with(target.as_slice(), suffix.as_slice()) || chars_contain(
            target.as_slice(),
            loop_dev.as_slice(),
        );
        let usb = chars_contain(target.as_slice(), usb_c.as_slice()) || chars_contain(
            target.as_slice(),
            usb_d.as_slice(),
        );
        if !loopback && !usb {
            let mut msg = String::from_str("SAFETY RESTRICTION: Target '");
            msg.append(target_path);
            msg.append(
                "' is not an approved test fixture. Must end with 'test_drive.raw' or match assigned removable USB nodes.",
            );
            return Err(msg);
        }
        Ok(())
    }
}

/// A protected host drive, or any of its `p`-numbered partitions, is never accepted.
pub proof fn law_forbidden_drives_always_refused(target: Seq<char>, k: int)
    requires
        0 <= k < forbidden_targets().len(),
        matches_forbidden(target, forbidden_targets()[k]),
    ensures
        first_forbidden(target) is Some,
{
    lemma_first_forbidden_found(target, 0, k);
}

proof fn lemma_first_forbidden_found(target: Seq<char>, j: int, k: int)
    requires
        0 <= j <= k < forbidden_targets().len(),
        matches_forbidden(target, forbidden_targets()[k]),
    ensures
        first_forbidden_from(target, j) is Some,
    decreases k - j,
{
    if j < k && !matches_forbidden(target, forbidden_targets()[j]) {
        lemma_first_forbidden_found(target, j + 1, k);
    }
}

} // verus!
