use vstd::prelude::*;

use crate::text::{replace_all, replaced};
use vstd::string::StringExecFns;

verus! {

/// The outcome of mounting or releasing a device in the sandbox.
#[derive(Debug)]
pub struct SandboxResult {
    pub success: bool,
    pub mount_point: String,
    pub message: String,
}

/// Read-only, no-exec mounting of evidence devices.
pub struct SandboxEngine;

/// Where `target_device` is mounted: `/mnt/shannon_sandbox_` and the device path with
/// every `/dev/` removed.
pub open spec fn sandbox_mount_point(target_device: Seq<char>) -> Seq<char> {
    "/mnt/shannon_sandbox_"@ + replaced(target_device, "/dev/"@, ""@)
}

impl SandboxEngine {
    /// The mount point of `target_device`.
    pub fn mount_point(target_device: &str) -> (r: String)
        ensures
            r@ == sandbox_mount_point(target_device@),
    {
        proof {
            reveal_strlit("/dev/");
        }
        let mut r = String::from_str("/mnt/shannon_sandbox_");
        let stripped = replace_all(target_device, "/dev/", "");
        r.append(stripped.as_str());
        r
    }

    /// The result of a successful read-only mount at `mount_point`.
    pub fn mounted(mount_point: String) -> (r: SandboxResult)
        ensures
            r.success,
            r.mount_point@ == mount_point@,
            r.message@ == "Device securely sandboxed at Read-Only, No-Exec mode."@,
    {
        SandboxResult {
            success: true,
            mount_point,
            message: String::from_str("Device securely sandboxed at Read-Only, No-Exec mode."),
        }
    }

    /// The result of a successful release.
    pub fn released() -> (r: SandboxResult)
        ensures
            r.success,
            r.mount_point@ == Seq::<char>::empty(),
            r.message@ == "Device safely released from Sandbox."@,
    {
        SandboxResult {
            success: true,
            mount_point: String::new(),
            message: String::from_str("Device safely released from Sandbox."),
        }
    }

    /// The error for a mount that the system refused, with its error output.
    pub fn mount_failure(stderr: &str) -> (r: String)
        ensures
            r@ == "Safe Mount Failed (Drive might not have a filesystem): "@ + stderr@,
    {
        let mut r = String::from_str("Safe Mount Failed (Drive might not have a filesystem): ");
        r.append(stderr);
        r
    }

    /// The error for a release that the system refused, with its error output.
    pub fn unmount_failure(stderr: &str) -> (r: String)
        ensures
            r@ == "Safe Unmount Failed: "@ + stderr@,
    {
        let mut r = String::from_str("Safe Unmount Failed: ");
        r.append(stderr);
        r
    }
}

} // verus!
