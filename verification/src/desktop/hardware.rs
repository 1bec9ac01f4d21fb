use vstd::prelude::*;

use crate::engine::sanitizer::SanitizerEngine;
use crate::text::{string_of_chars, trim_chars, trimmed};
use vstd::string::StringExecFns;

verus! {

/// What the desktop shows about a drive.
#[derive(Debug)]
pub struct DriveInfo {
    pub target: String,
    pub serial_number: String,
    pub firmware_revision: String,
    pub is_rotational: bool,
}

/// The characters of one ATA identify word, stored low byte first: the high byte, then
/// the low byte, each skipped when zero.
pub open spec fn ata_word(lo: u8, hi: u8) -> Seq<char> {
    (if hi != 0 {
        seq![hi as char]
    } else {
        Seq::empty()
    }) + (if lo != 0 {
        seq![lo as char]
    } else {
        Seq::empty()
    })
}

/// The characters of a run of ATA identify words; a trailing odd byte is ignored.
pub open spec fn ata_chars(bytes: Seq<u8>) -> Seq<char>
    decreases bytes.len(),
{
    if bytes.len() < 2 {
        Seq::empty()
    } else {
        ata_word(bytes[0], bytes[1]) + ata_chars(bytes.skip(2))
    }
}

/// Decodes an ATA identify string (byte-swapped words, NUL padding) and trims it.
pub fn parse_ata_string(bytes: &[u8]) -> (s: String)
    ensures
        s@ == trimmed(ata_chars(bytes@)),
{
    let mut cs: Vec<char> = Vec::new();
    let mut i: usize = 0;
    assert(bytes@.skip(0) =~= bytes@);
    while i <= bytes.len() && bytes.len() - i >= 2
        invariant
            i <= bytes@.len(),
            cs@ + ata_chars(bytes@.skip(i as int)) == ata_chars(bytes@),
        decreases bytes@.len() - i,
    {
        let lo = bytes[i];
        let hi = bytes[i + 1];
        let ghost before = cs@;
        if hi != 0 {
            cs.push(hi as char);
        }
        if lo != 0 {
            cs.push(lo as char);
        }
        proof {
            let rest = bytes@.skip(i as int);
            assert(rest[0] == lo && rest[1] == hi);
            assert(rest.skip(2) =~= bytes@.skip(i + 2));
            assert(cs@ =~= before + ata_word(lo, hi));
        }
        i = i + 2;
    }
    assert(ata_chars(bytes@.skip(i as int)) =~= Seq::<char>::empty());
    assert(cs@ =~= cs@ + ata_chars(bytes@.skip(i as int)));
    string_of_chars(trim_chars(cs.as_slice()).as_slice())
}

/// The serial number shown for a drive: the decoded identify field, or a marker when
/// it is empty (no answer, or no permission to ask).
pub open spec fn shown_serial(identify: Seq<u8>) -> Seq<char> {
    let s = trimmed(ata_chars(identify.subrange(20, 40)));
    if s.len() == 0 {
        "S_UNKNOWN_OR_PERMISSION_DENIED"@
    } else {
        s
    }
}

/// The firmware revision shown for a drive: the decoded identify field, or a marker when
/// it is empty.
pub open spec fn shown_firmware(identify: Seq<u8>) -> Seq<char> {
    let s = trimmed(ata_chars(identify.subrange(46, 54)));
    if s.len() == 0 {
        "FW_UNAVAILABLE"@
    } else {
        s
    }
}

impl DriveInfo {
    /// The drive facts from the 512-byte ATA IDENTIFY DEVICE answer (serial number in
    /// bytes 20..40, firmware revision in 46..54) and the rotational flag.
    pub fn from_identify(target: &str, identify: &[u8], is_rotational: bool) -> (info: DriveInfo)
        requires
            identify@.len() >= 54,
        ensures
            info.target@ == target@,
            info.serial_number@ == shown_serial(identify@),
            info.firmware_revision@ == shown_firmware(identify@),
            info.is_rotational == is_rotational,
    {
        let serial = parse_ata_string(&identify[20..40]);
        let firmware = parse_ata_string(&identify[46..54]);
        let serial_number = if serial.as_str().is_empty() {
            String::from_str("S_UNKNOWN_OR_PERMISSION_DENIED")
        } else {
            serial
        };
        let firmware_revision = if firmware.as_str().is_empty() {
            String::from_str("FW_UNAVAILABLE")
        } else {
            firmware
        };
        DriveInfo { target: String::from_str(target), serial_number, firmware_revision, is_rotational }
    }
}

/// Whether a device spins, from the contents of its sysfs flag (none when unreadable,
/// taken as non-rotational).
pub fn check_rotational(flag_contents: Option<&str>) -> (r: bool)
    ensures
        r == match flag_contents {
            Some(c) => trimmed(c@) == seq!['1'],
            None => false,
        },
{
    SanitizerEngine::is_rotational(flag_contents)
}

} // verus!
