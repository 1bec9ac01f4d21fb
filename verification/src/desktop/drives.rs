use vstd::prelude::*;

use crate::text::{
    chars_contain, chars_of, chars_start_with, has_infix, has_prefix, parse_u64, parsed_u64, replace_all, replaced,
    string_of_chars, trim_chars, trimmed,
};
use vstd::string::StringExecFns;

verus! {

/// A mounted file system as the system reports it; the mount point and the device name
/// are absent when they are not valid text.
pub struct MountedDisk {
    pub mount_point: Option<String>,
    pub device_name: Option<String>,
    pub total_space: u64,
    pub is_removable: bool,
}

/// A block device listed by the kernel, with the text of its size (in 512-byte sectors)
/// and of its removable flag, each when it could be read.
pub struct BlockDevice {
    pub name: String,
    pub size_text: Option<String>,
    pub removable_text: Option<String>,
}

/// A drive offered for selection, with its kind as the listing labels it.
pub struct DriveEntry {
    pub path: String,
    pub size_bytes: u64,
    pub is_removable: bool,
    pub is_system_drive: bool,
    pub kind: String,
}

/// A drive entry as plain values: path, size in bytes, removable, system drive, kind.
pub open spec fn entry_model(e: DriveEntry) -> (Seq<char>, u64, bool, bool, Seq<char>) {
    (e.path@, e.size_bytes, e.is_removable, e.is_system_drive, e.kind@)
}

impl DriveEntry {
    /// A field-by-field copy of this entry.
    pub fn duplicate(&self) -> (r: DriveEntry)
        ensures
            entry_model(r) == entry_model(*self),
    {
        DriveEntry {
            path: self.path.clone(),
            size_bytes: self.size_bytes,
            is_removable: self.is_removable,
            is_system_drive: self.is_system_drive,
            kind: self.kind.clone(),
        }
    }
}

/// Whether `c` belongs to one of Unicode's number categories, as `char::is_numeric`
/// decides it.
pub uninterp spec fn numeric_char(c: char) -> bool;

/// Trusted: `char::is_numeric`; the result is named `numeric_char(c)`.
#[verifier::external_body]
fn char_is_numeric(c: char) -> (r: bool)
    ensures
        r == numeric_char(c),
{
    c.is_numeric()
}

/// The entry for a file system mounted at `p`: a system drive when mounted at `/` or
/// `C:\`.
pub open spec fn mount_model(p: Seq<char>, d: MountedDisk) -> (Seq<char>, u64, bool, bool, Seq<char>) {
    (
        p,
        d.total_space,
        d.is_removable,
        p == "/"@ || p == "C:\\"@,
        if d.is_removable {
            "Removable"@
        } else {
            "Internal"@
        },
    )
}

/// The entries for the mounted file systems whose mount point is text, in order.
pub open spec fn mount_models(disks: Seq<MountedDisk>) -> Seq<(Seq<char>, u64, bool, bool, Seq<char>)>
    decreases disks.len(),
{
    if disks.len() == 0 {
        Seq::empty()
    } else {
        let rest = mount_models(disks.drop_last());
        match disks.last().mount_point {
            Some(p) => rest.push(mount_model(p@, disks.last())),
            None => rest,
        }
    }
}

/// The device name of the last file system mounted at `/` whose name is text.
pub open spec fn root_device(disks: Seq<MountedDisk>) -> Option<Seq<char>>
    decreases disks.len(),
{
    if disks.len() == 0 {
        None
    } else {
        let d = disks.last();
        if d.mount_point matches Some(p) && p@ == "/"@ && d.device_name is Some {
            Some(d.device_name->0@)
        } else {
            root_device(disks.drop_last())
        }
    }
}

/// The characters of `s` before its first numeric one.
pub open spec fn before_numeric(s: Seq<char>) -> Seq<char>
    decreases s.len(),
{
    if s.len() == 0 || numeric_char(s[0]) {
        Seq::empty()
    } else {
        seq![s[0]] + before_numeric(s.drop_first())
    }
}

/// The disk that a device name belongs to: the name without `/dev/`, cut before its
/// first digit unless it is an NVMe name (`/dev/nvme0n1p2` keeps `nvme0n1p2`,
/// `/dev/sda2` gives `sda`).
pub open spec fn clean_device(dev: Seq<char>) -> Seq<char> {
    let r = replaced(dev, "/dev/"@, Seq::empty());
    if has_infix(dev, "nvme"@) {
        r
    } else {
        before_numeric(r)
    }
}

/// The disk that holds the root file system, or nothing when none is known.
pub open spec fn system_device(disks: Seq<MountedDisk>) -> Seq<char> {
    match root_device(disks) {
        Some(n) => clean_device(n),
        None => Seq::empty(),
    }
}

/// The characters that make up the first two bytes of `s` in UTF-8, when a character
/// ends there.
pub open spec fn two_byte_prefix(s: Seq<char>) -> Option<Seq<char>> {
    if s.len() >= 1 && 0x80 <= (s[0] as u32) < 0x800 {
        Some(s.take(1))
    } else if s.len() >= 2 && (s[0] as u32) < 0x80 && (s[1] as u32) < 0x80 {
        Some(s.take(2))
    } else {
        None
    }
}

/// Block devices named `sd…` or `nvme…` are listed.
pub open spec fn listed(d: BlockDevice) -> bool {
    has_prefix(d.name@, "sd"@) || has_prefix(d.name@, "nvme"@)
}

/// The size of a block device in bytes: its sector count times 512, or 0 when the count
/// could not be read.
pub open spec fn block_size(d: BlockDevice) -> int {
    match d.size_text {
        Some(t) => match parsed_u64(trimmed(t@)) {
            Some(n) => n * 512,
            None => 0,
        },
        None => 0,
    }
}

/// A block device is removable when its flag reads `1`.
pub open spec fn block_removable(d: BlockDevice) -> bool {
    match d.removable_text {
        Some(t) => trimmed(t@) == "1"@,
        None => false,
    }
}

/// The entry for a listed block device: a system drive when its name begins like the
/// root disk's, or when it is fixed and larger than 100 GB.
pub open spec fn block_model(d: BlockDevice, sys: Seq<char>) -> (Seq<char>, u64, bool, bool, Seq<char>) {
    let removable = block_removable(d);
    (
        "/dev/"@ + d.name@,
        block_size(d) as u64,
        removable,
        (sys.len() > 0 && has_prefix(d.name@, two_byte_prefix(sys)->0)) || (!removable && block_size(d)
            > 100_000_000_000),
        if removable {
            "Removable"@
        } else {
            "Internal/Physical"@
        },
    )
}

/// The entries for the listed block devices, in order.
pub open spec fn block_models(devices: Seq<BlockDevice>, sys: Seq<char>) -> Seq<
    (Seq<char>, u64, bool, bool, Seq<char>),
>
    decreases devices.len(),
{
    if devices.len() == 0 {
        Seq::empty()
    } else {
        let rest = block_models(devices.drop_last(), sys);
        if listed(devices.last()) {
            rest.push(block_model(devices.last(), sys))
        } else {
            rest
        }
    }
}

/// The removable entries of `ms`, in order.
pub open spec fn removable_part(ms: Seq<(Seq<char>, u64, bool, bool, Seq<char>)>) -> Seq<
    (Seq<char>, u64, bool, bool, Seq<char>),
>
    decreases ms.len(),
{
    if ms.len() == 0 {
        Seq::empty()
    } else if ms.last().2 {
        removable_part(ms.drop_last()).push(ms.last())
    } else {
        removable_part(ms.drop_last())
    }
}

/// The fixed entries of `ms`, in order.
pub open spec fn fixed_part(ms: Seq<(Seq<char>, u64, bool, bool, Seq<char>)>) -> Seq<
    (Seq<char>, u64, bool, bool, Seq<char>),
>
    decreases ms.len(),
{
    if ms.len() == 0 {
        Seq::empty()
    } else if !ms.last().2 {
        fixed_part(ms.drop_last()).push(ms.last())
    } else {
        fixed_part(ms.drop_last())
    }
}

/// The entries with the removable ones first, each group in its original order.
pub open spec fn removable_first(ms: Seq<(Seq<char>, u64, bool, bool, Seq<char>)>) -> Seq<
    (Seq<char>, u64, bool, bool, Seq<char>),
> {
    removable_part(ms) + fixed_part(ms)
}

/// The listing can be computed: every listed device's size fits in 64 bits, and when a
/// device is listed and the root disk is known, its name begins with a whole character
/// in its first two bytes.
pub open spec fn listing_computable(disks: Seq<MountedDisk>, devices: Seq<BlockDevice>) -> bool {
    &&& forall|k: int| 0 <= k < devices.len() && listed(#[trigger] devices[k]) ==> block_size(devices[k]) <= u64::MAX
    &&& (exists|k: int| 0 <= k < devices.len() && listed(#[trigger] devices[k])) && system_device(disks).len() > 0
        ==> two_byte_prefix(system_device(disks)) is Some
}

fn same_text(a: &str, b: &str) -> (r: bool)
    ensures
        r == (a@ == b@),
{
    let ac = chars_of(a);
    let bc = chars_of(b);
    let r = ac.len() == bc.len() && chars_start_with(ac.as_slice(), bc.as_slice());
    proof {
        if ac@.len() == bc@.len() && has_prefix(ac@, bc@) {
            assert(ac@ =~= bc@);
        }
        if ac@ == bc@ {
            assert(ac@.subrange(0, bc@.len() as int) =~= bc@);
        }
    }
    r
}

fn mount_entries(disks: &[MountedDisk]) -> (r: Vec<DriveEntry>)
    ensures
        r@.map_values(|e: DriveEntry| entry_model(e)) == mount_models(disks@),
{
    let mut r: Vec<DriveEntry> = Vec::new();
    let mut i: usize = 0;
    while i < disks.len()
        invariant
            i <= disks@.len(),
            r@.map_values(|e: DriveEntry| entry_model(e)) == mount_models(disks@.take(i as int)),
        decreases disks@.len() - i,
    {
        let d = &disks[i];
        proof {
            assert(disks@.take(i + 1).drop_last() =~= disks@.take(i as int));
            assert(disks@.take(i + 1).last() == *d);
        }
        if let Some(p) = &d.mount_point {
            let system = same_text(p.as_str(), "/") || same_text(p.as_str(), "C:\\");
            let kind = if d.is_removable {
                String::from_str("Removable")
            } else {
                String::from_str("Internal")
            };
            let e = DriveEntry {
                path: p.clone(),
                size_bytes: d.total_space,
                is_removable: d.is_removable,
                is_system_drive: system,
                kind,
            };
            let ghost before = r@.map_values(|e: DriveEntry| entry_model(e));
            r.push(e);
            assert(r@.map_values(|e: DriveEntry| entry_model(e)) =~= before.push(mount_model(p@, *d)));
        }
        i = i + 1;
    }
    assert(disks@.take(i as int) =~= disks@);
    r
}

fn root_device_name(disks: &[MountedDisk]) -> (r: Option<String>)
    ensures
        match r {
            Some(n) => root_device(disks@) == Some(n@),
            None => root_device(disks@) is None,
        },
{
    let mut root: Option<String> = None;
    let mut i: usize = 0;
    while i < disks.len()
        invariant
            i <= disks@.len(),
            match root {
                Some(n) => root_device(disks@.take(i as int)) == Some(n@),
                None => root_device(disks@.take(i as int)) is None,
            },
        decreases disks@.len() - i,
    {
        let d = &disks[i];
        proof {
            assert(disks@.take(i + 1).drop_last() =~= disks@.take(i as int));
            assert(disks@.take(i + 1).last() == *d);
        }
        if let Some(p) = &d.mount_point {
            if same_text(p.as_str(), "/") {
                if let Some(n) = &d.device_name {
                    root = Some(n.clone());
                }
            }
        }
        i = i + 1;
    }
    assert(disks@.take(i as int) =~= disks@);
    root
}

fn clean_device_chars(dev: &str) -> (r: Vec<char>)
    ensures
        r@ == clean_device(dev@),
{
    proof {
        reveal_strlit("");
        reveal_strlit("/dev/");
        assert(""@ =~= Seq::<char>::empty());
    }
    let stripped = replace_all(dev, "/dev/", "");
    let sc = chars_of(stripped.as_str());
    let dc = chars_of(dev);
    let nv = chars_of("nvme");
    if chars_contain(dc.as_slice(), nv.as_slice()) {
        return sc;
    }
    let mut out: Vec<char> = Vec::new();
    let mut i: usize = 0;
    assert(sc@.skip(0) =~= sc@);
    while i < sc.len()
        invariant
            i <= sc@.len(),
            sc@ == replaced(dev@, "/dev/"@, Seq::empty()),
            !has_infix(dev@, "nvme"@),
            out@ + before_numeric(sc@.skip(i as int)) == before_numeric(sc@),
        decreases sc@.len() - i,
    {
        let c = sc[i];
        if char_is_numeric(c) {
            assert(out@ + Seq::<char>::empty() =~= out@);
            return out;
        }
        proof {
            assert(sc@.skip(i as int).drop_first() =~= sc@.skip(i + 1));
            assert(out@.push(c) + before_numeric(sc@.skip(i + 1)) =~= out@ + (seq![c] + before_numeric(
                sc@.skip(i + 1),
            )));
        }
        out.push(c);
        i = i + 1;
    }
    assert(out@ + Seq::<char>::empty() =~= out@);
    out
}

fn leading_two_bytes(s: &[char]) -> (r: Option<Vec<char>>)
    ensures
        match r {
            Some(v) => two_byte_prefix(s@) == Some(v@),
            None => two_byte_prefix(s@) is None,
        },
{
    if s.len() >= 1 && 0x80 <= (s[0] as u32) && (s[0] as u32) < 0x800 {
        let mut v: Vec<char> = Vec::new();
        v.push(s[0]);
        assert(v@ =~= s@.take(1));
        return Some(v);
    }
    if s.len() >= 2 && (s[0] as u32) < 0x80 && (s[1] as u32) < 0x80 {
        let mut v: Vec<char> = Vec::new();
        v.push(s[0]);
        v.push(s[1]);
        assert(v@ =~= s@.take(2));
        return Some(v);
    }
    None
}

fn is_listed(d: &BlockDevice) -> (r: bool)
    ensures
        r == listed(*d),
{
    let name = chars_of(d.name.as_str());
    let sd = chars_of("sd");
    let nvme = chars_of("nvme");
    chars_start_with(name.as_slice(), sd.as_slice()) || chars_start_with(name.as_slice(), nvme.as_slice())
}

fn block_entry(d: &BlockDevice, sys: &[char], prefix: &Option<Vec<char>>) -> (r: Option<DriveEntry>)
    requires
        sys@.len() > 0 ==> (prefix matches Some(p) && two_byte_prefix(sys@) == Some(p@)),
    ensures
        match r {
            Some(e) => block_size(*d) <= u64::MAX && entry_model(e) == block_model(*d, sys@),
            None => block_size(*d) > u64::MAX,
        },
{
    let sectors: Option<u64> = match &d.size_text {
        Some(t) => {
            let tc = chars_of(t.as_str());
            let tr = trim_chars(tc.as_slice());
            parse_u64(tr.as_slice())
        },
        None => None,
    };
    let size: u64 = match sectors {
        Some(n) => {
            if n > u64::MAX / 512 {
                return None;
            }
            n * 512
        },
        None => 0,
    };
    proof {
        reveal_strlit("1");
    }
    let removable = match &d.removable_text {
        Some(t) => {
            let tc = chars_of(t.as_str());
            let tr = trim_chars(tc.as_slice());
            proof {
                if tr@ == "1"@ {
                    assert(tr@[0] == '1');
                }
                if tr@.len() == 1 && tr@[0] == '1' {
                    assert(tr@ =~= "1"@);
                }
            }
            tr.len() == 1 && tr[0] == '1'
        },
        None => false,
    };
    let name = chars_of(d.name.as_str());
    let by_root = match prefix {
        Some(p) => sys.len() > 0 && chars_start_with(name.as_slice(), p.as_slice()),
        None => false,
    };
    let system = by_root || (!removable && size > 100_000_000_000);
    let mut path = String::from_str("/dev/");
    path.append(d.name.as_str());
    let kind = if removable {
        String::from_str("Removable")
    } else {
        String::from_str("Internal/Physical")
    };
    Some(DriveEntry { path, size_bytes: size, is_removable: removable, is_system_drive: system, kind })
}

fn block_entries(devices: &[BlockDevice], sys: &[char]) -> (r: Option<Vec<DriveEntry>>)
    ensures
        r is Some <==> (forall|k: int| 0 <= k < devices@.len() && listed(#[trigger] devices@[k]) ==> block_size(
            devices@[k],
        ) <= u64::MAX) && ((exists|k: int| 0 <= k < devices@.len() && listed(#[trigger] devices@[k])) && sys@.len()
            > 0 ==> two_byte_prefix(sys@) is Some),
        r matches Some(v) ==> v@.map_values(|e: DriveEntry| entry_model(e)) == block_models(devices@, sys@),
{
    let prefix = leading_two_bytes(sys);
    let mut r: Vec<DriveEntry> = Vec::new();
    let mut i: usize = 0;
    while i < devices.len()
        invariant
            i <= devices@.len(),
            match prefix {
                Some(p) => two_byte_prefix(sys@) == Some(p@),
                None => two_byte_prefix(sys@) is None,
            },
            forall|k: int| 0 <= k < i && listed(#[trigger] devices@[k]) ==> block_size(devices@[k]) <= u64::MAX,
            (exists|k: int| 0 <= k < i && listed(#[trigger] devices@[k])) && sys@.len() > 0 ==> two_byte_prefix(
                sys@,
            ) is Some,
            r@.map_values(|e: DriveEntry| entry_model(e)) == block_models(devices@.take(i as int), sys@),
        decreases devices@.len() - i,
    {
        let d = &devices[i];
        proof {
            assert(devices@.take(i + 1).drop_last() =~= devices@.take(i as int));
            assert(devices@.take(i + 1).last() == *d);
        }
        if is_listed(d) {
            let prefix_ok = match &prefix {
                Some(p) => true,
                None => false,
            };
            if sys.len() > 0 && !prefix_ok {
                return None;
            }
            match block_entry(d, sys, &prefix) {
                Some(e) => {
                    let ghost before = r@.map_values(|e: DriveEntry| entry_model(e));
                    r.push(e);
                    assert(r@.map_values(|e: DriveEntry| entry_model(e)) =~= before.push(block_model(*d, sys@)));
                },
                None => {
                    return None;
                },
            }
        }
        i = i + 1;
    }
    assert(devices@.take(i as int) =~= devices@);
    Some(r)
}

fn put_removable_first(all: &Vec<DriveEntry>) -> (r: Vec<DriveEntry>)
    ensures
        r@.map_values(|e: DriveEntry| entry_model(e)) == removable_first(all@.map_values(|e: DriveEntry| entry_model(e))),
{
    let ghost ms = all@.map_values(|e: DriveEntry| entry_model(e));
    let mut r: Vec<DriveEntry> = Vec::new();
    let mut i: usize = 0;
    while i < all.len()
        invariant
            i <= all@.len(),
            ms == all@.map_values(|e: DriveEntry| entry_model(e)),
            r@.map_values(|e: DriveEntry| entry_model(e)) == removable_part(ms.take(i as int)),
        decreases all@.len() - i,
    {
        proof {
            assert(ms.take(i + 1).drop_last() =~= ms.take(i as int));
            assert(ms.take(i + 1).last() == entry_model(all@[i as int]));
        }
        if all[i].is_removable {
            let ghost before = r@.map_values(|e: DriveEntry| entry_model(e));
            r.push(all[i].duplicate());
            assert(r@.map_values(|e: DriveEntry| entry_model(e)) =~= before.push(entry_model(all@[i as int])));
        }
        i = i + 1;
    }
    assert(ms.take(i as int) =~= ms);
    let ghost front = r@.map_values(|e: DriveEntry| entry_model(e));
    let mut j: usize = 0;
    while j < all.len()
        invariant
            j <= all@.len(),
            ms == all@.map_values(|e: DriveEntry| entry_model(e)),
            front == removable_part(ms),
            r@.map_values(|e: DriveEntry| entry_model(e)) == front + fixed_part(ms.take(j as int)),
        decreases all@.len() - j,
    {
        proof {
            assert(ms.take(j + 1).drop_last() =~= ms.take(j as int));
            assert(ms.take(j + 1).last() == entry_model(all@[j as int]));
        }
        if !all[j].is_removable {
            let ghost before = r@.map_values(|e: DriveEntry| entry_model(e));
            r.push(all[j].duplicate());
            assert(r@.map_values(|e: DriveEntry| entry_model(e)) =~= before.push(entry_model(all@[j as int])));
            assert(front + fixed_part(ms.take(j + 1)) =~= (front + fixed_part(ms.take(j as int))).push(
                entry_model(all@[j as int]),
            ));
        }
        j = j + 1;
    }
    assert(ms.take(j as int) =~= ms);
    r
}

/// The drives offered for selection, from the mounted file systems and the kernel's
/// block devices: first one entry per mounted file system whose mount point is text,
/// then one per `sd…` or `nvme…` block device (its size read from its sector count, its
/// removable flag from its flag text, and marked as the system drive when its name
/// begins with the first two bytes of the root disk's name, or when it is fixed and
/// larger than 100 GB); then the removable entries are put first, each group kept in
/// order. None when a block device's size overflows 64 bits, or when the root disk's
/// name cannot be cut after two bytes and a block device is listed.
pub fn drive_entries(disks: &[MountedDisk], devices: &[BlockDevice]) -> (r: Option<Vec<DriveEntry>>)
    ensures
        r is Some <==> listing_computable(disks@, devices@),
        r matches Some(v) ==> v@.map_values(|e: DriveEntry| entry_model(e)) == removable_first(
            mount_models(disks@) + block_models(devices@, system_device(disks@)),
        ),
{
    let sys: Vec<char> = match root_device_name(disks) {
        Some(n) => clean_device_chars(n.as_str()),
        None => Vec::new(),
    };
    assert(sys@ == system_device(disks@));
    let mut all = mount_entries(disks);
    let blocks = match block_entries(devices, sys.as_slice()) {
        Some(b) => b,
        None => {
            return None;
        },
    };
    let ghost front = all@.map_values(|e: DriveEntry| entry_model(e));
    let mut k: usize = 0;
    while k < blocks.len()
        invariant
            k <= blocks@.len(),
            all@.map_values(|e: DriveEntry| entry_model(e)) == front + blocks@.take(k as int).map_values(
                |e: DriveEntry| entry_model(e),
            ),
        decreases blocks@.len() - k,
    {
        let ghost before = all@.map_values(|e: DriveEntry| entry_model(e));
        all.push(blocks[k].duplicate());
        assert(blocks@.take(k + 1).map_values(|e: DriveEntry| entry_model(e)) =~= blocks@.take(k as int).map_values(
            |e: DriveEntry| entry_model(e),
        ).push(entry_model(blocks@[k as int])));
        assert(all@.map_values(|e: DriveEntry| entry_model(e)) =~= before.push(entry_model(blocks@[k as int])));
        k = k + 1;
    }
    assert(blocks@.take(k as int) =~= blocks@);
    Some(put_removable_first(&all))
}

proof fn lemma_parts(ms: Seq<(Seq<char>, u64, bool, bool, Seq<char>)>)
    ensures
        forall|i: int| 0 <= i < removable_part(ms).len() ==> (#[trigger] removable_part(ms)[i]).2,
        forall|i: int| 0 <= i < fixed_part(ms).len() ==> !(#[trigger] fixed_part(ms)[i]).2,
        removable_part(ms).to_multiset().add(fixed_part(ms).to_multiset()) =~= ms.to_multiset(),
    decreases ms.len(),
{
    broadcast use vstd::seq_lib::group_to_multiset_ensures;
    broadcast use vstd::multiset::group_multiset_axioms;

    if ms.len() > 0 {
        let init = ms.drop_last();
        lemma_parts(init);
        assert(ms =~= init.push(ms.last()));
        let rp = removable_part(init);
        let fp = fixed_part(init);
        if ms.last().2 {
            assert(forall|i: int| 0 <= i < rp.len() ==> rp.push(ms.last())[i] == rp[i]);
        } else {
            assert(forall|i: int| 0 <= i < fp.len() ==> fp.push(ms.last())[i] == fp[i]);
        }
    }
}

/// The listing puts every removable drive before every fixed one, and holds exactly the
/// entries it was given, each as often as before.
pub proof fn law_removable_listed_first(ms: Seq<(Seq<char>, u64, bool, bool, Seq<char>)>)
    ensures
        forall|i: int, j: int|
            0 <= i < j < removable_first(ms).len() && (#[trigger] removable_first(ms)[j]).2 ==> (
            #[trigger] removable_first(ms)[i]).2,
        removable_first(ms).to_multiset() =~= ms.to_multiset(),
{
    broadcast use vstd::seq_lib::lemma_multiset_commutative;

    lemma_parts(ms);
    let rp = removable_part(ms);
    let fp = fixed_part(ms);
    let r = removable_first(ms);
    assert forall|i: int, j: int| 0 <= i < j < r.len() && (#[trigger] r[j]).2 implies (#[trigger] r[i]).2 by {
        if j >= rp.len() {
            assert(r[j] == fp[j - rp.len()]);
        } else {
            assert(r[i] == rp[i]);
        }
    }
}

} // verus!
