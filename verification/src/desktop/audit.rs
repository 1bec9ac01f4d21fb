use vstd::prelude::*;

use crate::clock::unix_time_now;
use crate::digest::{no_collision, sha256, sha256_hex};
use crate::desktop::types::AuditEntry;
use crate::text::{
    decimal, hex_lower, lemma_decimal_injective, lemma_hex_lower_injective, lemma_length_prefixed_unique, lemma_regroup_seven,
    length_prefixed, push_char, push_length_prefixed, push_length_prefixed_decimal,
};
use vstd::string::StringExecFns;
use vstd::utf8::{encode_utf8, encode_utf8_decode_utf8};

verus! {

/// The link value that the first entry of a chain must carry.
pub open spec fn genesis_hash() -> Seq<char> {
    "GENESIS_BLOCK"@
}

/// The text that is hashed for an entry: its index, timestamp, action, target, status,
/// operator and previous hash, in that order, each written as a length-prefixed field
/// (its length in characters, a colon, then the field), so that no two different
/// entries share a payload.
pub open spec fn entry_payload(
    index: usize,
    timestamp: u64,
    action: Seq<char>,
    target: Seq<char>,
    status: Seq<char>,
    operator: Seq<char>,
    previous_hash: Seq<char>,
) -> Seq<char> {
    length_prefixed(decimal(index as nat)) + (length_prefixed(decimal(timestamp as nat)) + (length_prefixed(action)
        + (length_prefixed(target) + (length_prefixed(status) + (length_prefixed(operator) + length_prefixed(
        previous_hash,
    ))))))
}

/// The payload of `e`, from all of its fields but the record hash.
pub open spec fn payload_of(e: AuditEntry) -> Seq<char> {
    entry_payload(e.index, e.timestamp, e.action@, e.target@, e.status@, e.operator_id@, e.previous_hash@)
}

/// The record hash that an entry with these fields must carry: the lower-case hex
/// SHA-256 of the UTF-8 bytes of its payload.
pub open spec fn record_hash_for(
    index: usize,
    timestamp: u64,
    action: Seq<char>,
    target: Seq<char>,
    status: Seq<char>,
    operator: Seq<char>,
    previous_hash: Seq<char>,
) -> Seq<char> {
    hex_lower(sha256(encode_utf8(entry_payload(index, timestamp, action, target, status, operator, previous_hash))))
}

/// The record hash that `e` must carry, recomputed from its other fields.
pub open spec fn computed_hash(e: AuditEntry) -> Seq<char> {
    record_hash_for(e.index, e.timestamp, e.action@, e.target@, e.status@, e.operator_id@, e.previous_hash@)
}

/// The value that entry `k` of `entries` must hold as its previous hash.
pub open spec fn expected_link(entries: Seq<AuditEntry>, k: int) -> Seq<char> {
    if k == 0 {
        genesis_hash()
    } else {
        entries[k - 1].record_hash@
    }
}

/// Entry `k` links to its predecessor and carries the hash of its own fields.
pub open spec fn entry_intact(entries: Seq<AuditEntry>, k: int) -> bool {
    &&& entries[k].previous_hash@ == expected_link(entries, k)
    &&& entries[k].record_hash@ == computed_hash(entries[k])
}

/// Every entry of the chain is intact.
pub open spec fn chain_valid(entries: Seq<AuditEntry>) -> bool {
    forall|k: int| 0 <= k < entries.len() ==> #[trigger] entry_intact(entries, k)
}

/// The append-only ledger of audit entries, kept at `file_path` by its owner.
pub struct AuditLedger {
    pub file_path: String,
    pub entries: Vec<AuditEntry>,
}

impl AuditLedger {
    /// Opens the ledger kept at `path` with the entries that were read from it
    /// (none when the file was missing or unreadable).
    pub fn init(path: &str, loaded: Vec<AuditEntry>) -> (ledger: Self)
        ensures
            ledger.file_path@ == path@,
            ledger.entries@ == loaded@,
    {
        AuditLedger { file_path: String::from_str(path), entries: loaded }
    }

    /// Appends an entry for an operation, stamped with the current time, and returns it.
    pub fn append(&mut self, action: &str, target: &str, status: &str, operator: &str) -> (entry: AuditEntry)
        ensures
            final(self).file_path@ == old(self).file_path@,
            final(self).entries@ == old(self).entries@.push(entry),
            entry.index == old(self).entries@.len(),
            entry.action@ == action@,
            entry.target@ == target@,
            entry.status@ == status@,
            entry.operator_id@ == operator@,
            entry.previous_hash@ == expected_link(old(self).entries@, old(self).entries@.len() as int),
            entry.record_hash@ == computed_hash(entry),
    {
        let timestamp = unix_time_now();
        self.append_at(action, target, status, operator, timestamp)
    }

    /// Appends an entry stamped with `timestamp` and returns it.
    pub fn append_at(
        &mut self,
        action: &str,
        target: &str,
        status: &str,
        operator: &str,
        timestamp: u64,
    ) -> (entry: AuditEntry)
        ensures
            final(self).file_path@ == old(self).file_path@,
            final(self).entries@ == old(self).entries@.push(entry),
            entry.index == old(self).entries@.len(),
            entry.timestamp == timestamp,
            entry.action@ == action@,
            entry.target@ == target@,
            entry.status@ == status@,
            entry.operator_id@ == operator@,
            entry.previous_hash@ == expected_link(old(self).entries@, old(self).entries@.len() as int),
            entry.record_hash@ == computed_hash(entry),
    {
        let n = self.entries.len();
        let prev_hash = if n == 0 {
            genesis_string()
        } else {
            self.entries[n - 1].record_hash.clone()
        };
        let index = n;
        let record_hash = record_hash_of(index, timestamp, action, target, status, operator, prev_hash.as_str());
        let entry = AuditEntry {
            index,
            timestamp,
            action: String::from_str(action),
            target: String::from_str(target),
            status: String::from_str(status),
            operator_id: String::from_str(operator),
            previous_hash: prev_hash,
            record_hash,
        };
        let copy = entry.duplicate();
        self.entries.push(copy);
        entry
    }

    /// Checks every link and record hash of the chain, in order; the chain holds when
    /// every entry links to its predecessor (the first to `GENESIS_BLOCK`) and carries the
    /// hash of its own fields.
    pub fn verify_chain(&self) -> (r: bool)
        ensures
            r == chain_valid(self.entries@),
    {
        let mut expected_prev = genesis_string();
        let mut i: usize = 0;
        while i < self.entries.len()
            invariant
                i <= self.entries@.len(),
                expected_prev@ == expected_link(self.entries@, i as int),
                forall|k: int| 0 <= k < i ==> #[trigger] entry_intact(self.entries@, k),
            decreases self.entries@.len() - i,
        {
            let entry = &self.entries[i];
            if entry.previous_hash != expected_prev {
                proof {
                    lemma_broken_not_valid(self.entries@, i as int);
                }
                return false;
            }
            let computed = record_hash_of(
                entry.index,
                entry.timestamp,
                entry.action.as_str(),
                entry.target.as_str(),
                entry.status.as_str(),
                entry.operator_id.as_str(),
                entry.previous_hash.as_str(),
            );
            if computed != entry.record_hash {
                proof {
                    lemma_broken_not_valid(self.entries@, i as int);
                }
                return false;
            }
            expected_prev = entry.record_hash.clone();
            i = i + 1;
        }
        true
    }
}

/// The most entry lines that fit on the certificate page.
pub const CERTIFICATE_ENTRY_LINES: usize = 21;

/// The certificate line for one entry: `[action] target -> status`.
pub open spec fn certificate_entry_line(e: AuditEntry) -> Seq<char> {
    seq!['['] + e.action@ + "] "@ + e.target@ + " -> "@ + e.status@
}

/// The chain-integrity line of the certificate.
pub open spec fn integrity_line(valid: bool) -> Seq<char> {
    "Merkle Chain Integrity: "@ + if valid {
        "VERIFIED INTACT"@
    } else {
        "TAMPERED / BROKEN"@
    }
}

impl AuditLedger {
    /// The text lines of the destruction certificate, top to bottom: the title, the chain
    /// integrity verdict, then one line per entry for as many entries as fit on the page.
    pub fn certificate_lines(&self) -> (r: Vec<String>)
        ensures
            ({
                let shown = if self.entries@.len() < CERTIFICATE_ENTRY_LINES {
                    self.entries@.len() as int
                } else {
                    CERTIFICATE_ENTRY_LINES as int
                };
                &&& r@.len() == 2 + shown
                &&& r@[0]@ == "CERTIFICATE OF DATA DESTRUCTION"@
                &&& r@[1]@ == integrity_line(chain_valid(self.entries@))
                &&& forall|k: int| 0 <= k < shown ==> (#[trigger] r@[k + 2])@ == certificate_entry_line(
                    self.entries@[k],
                )
            }),
    {
        let mut r: Vec<String> = Vec::new();
        r.push(String::from_str("CERTIFICATE OF DATA DESTRUCTION"));
        let mut status = String::from_str("Merkle Chain Integrity: ");
        if self.verify_chain() {
            status.append("VERIFIED INTACT");
        } else {
            status.append("TAMPERED / BROKEN");
        }
        r.push(status);
        let mut k: usize = 0;
        while k < self.entries.len() && k < CERTIFICATE_ENTRY_LINES
            invariant
                k <= self.entries@.len(),
                k <= CERTIFICATE_ENTRY_LINES,
                r@.len() == 2 + k,
                r@[0]@ == "CERTIFICATE OF DATA DESTRUCTION"@,
                r@[1]@ == integrity_line(chain_valid(self.entries@)),
                forall|m: int| 0 <= m < k ==> (#[trigger] r@[m + 2])@ == certificate_entry_line(self.entries@[m]),
            decreases self.entries@.len() - k,
        {
            let e = &self.entries[k];
            let mut line = String::new();
            push_char(&mut line, '[');
            line.append(e.action.as_str());
            line.append("] ");
            line.append(e.target.as_str());
            line.append(" -> ");
            line.append(e.status.as_str());
            assert(line@ =~= certificate_entry_line(*e));
            r.push(line);
            k = k + 1;
        }
        r
    }
}

/// Appending an entry that links to the last record hash (or to `GENESIS_BLOCK` on an
/// empty chain) and carries the hash of its own fields, as `append` does, keeps a valid
/// chain valid.
pub proof fn law_append_keeps_chain_valid(entries: Seq<AuditEntry>, e: AuditEntry)
    requires
        chain_valid(entries),
        e.previous_hash@ == expected_link(entries, entries.len() as int),
        e.record_hash@ == computed_hash(e),
    ensures
        chain_valid(entries.push(e)),
{
    let s = entries.push(e);
    assert forall|k: int| 0 <= k < s.len() implies #[trigger] entry_intact(s, k) by {
        if k < entries.len() {
            assert(entry_intact(entries, k));
            assert(s[k] == entries[k]);
            if k > 0 {
                assert(s[k - 1] == entries[k - 1]);
            }
        }
    }
}

/// The empty chain is valid.
pub proof fn law_empty_chain_valid()
    ensures
        chain_valid(Seq::<AuditEntry>::empty()),
{
}

/// In a valid chain, overwriting the record hash of an entry with any other value (all
/// other fields kept) makes the chain fail verification.
pub proof fn law_forged_record_hash_detected(entries: Seq<AuditEntry>, k: int, forged: AuditEntry)
    requires
        chain_valid(entries),
        0 <= k < entries.len(),
        forged.index == entries[k].index,
        forged.timestamp == entries[k].timestamp,
        forged.action@ == entries[k].action@,
        forged.target@ == entries[k].target@,
        forged.status@ == entries[k].status@,
        forged.operator_id@ == entries[k].operator_id@,
        forged.previous_hash@ == entries[k].previous_hash@,
        forged.record_hash@ != entries[k].record_hash@,
    ensures
        !chain_valid(entries.update(k, forged)),
{
    let s = entries.update(k, forged);
    assert(entry_intact(entries, k));
    assert(!entry_intact(s, k));
}

/// In a valid chain, overwriting the previous-hash link of an entry with any other value
/// (all other fields kept) makes the chain fail verification.
pub proof fn law_forged_link_detected(entries: Seq<AuditEntry>, k: int, forged: AuditEntry)
    requires
        chain_valid(entries),
        0 <= k < entries.len(),
        forged.index == entries[k].index,
        forged.timestamp == entries[k].timestamp,
        forged.action@ == entries[k].action@,
        forged.target@ == entries[k].target@,
        forged.status@ == entries[k].status@,
        forged.operator_id@ == entries[k].operator_id@,
        forged.record_hash@ == entries[k].record_hash@,
        forged.previous_hash@ != entries[k].previous_hash@,
    ensures
        !chain_valid(entries.update(k, forged)),
{
    let s = entries.update(k, forged);
    assert(entry_intact(entries, k));
    if k > 0 {
        assert(s[k - 1] == entries[k - 1]);
    }
    assert(!entry_intact(s, k));
}

/// Two entries whose hashed payloads are the same text agree on every field that is
/// hashed: the payload can be read only one way.
pub proof fn law_payload_determines_entry(a: AuditEntry, b: AuditEntry)
    requires
        payload_of(a) == payload_of(b),
    ensures
        a.index == b.index,
        a.timestamp == b.timestamp,
        a.action@ == b.action@,
        a.target@ == b.target@,
        a.status@ == b.status@,
        a.operator_id@ == b.operator_id@,
        a.previous_hash@ == b.previous_hash@,
{
    let (lt, la, lg) = (length_prefixed(a.target@), length_prefixed(a.status@), length_prefixed(a.operator_id@));
    let (mt, ma, mg) = (length_prefixed(b.target@), length_prefixed(b.status@), length_prefixed(b.operator_id@));
    let (lp, mp) = (length_prefixed(a.previous_hash@), length_prefixed(b.previous_hash@));
    let a5 = lg + lp;
    let b5 = mg + mp;
    let a4 = la + a5;
    let b4 = ma + b5;
    let a3 = lt + a4;
    let b3 = mt + b4;
    let a2 = length_prefixed(a.action@) + a3;
    let b2 = length_prefixed(b.action@) + b3;
    let a1 = length_prefixed(decimal(a.timestamp as nat)) + a2;
    let b1 = length_prefixed(decimal(b.timestamp as nat)) + b2;
    lemma_length_prefixed_unique(decimal(a.index as nat), decimal(b.index as nat), a1, b1);
    lemma_length_prefixed_unique(decimal(a.timestamp as nat), decimal(b.timestamp as nat), a2, b2);
    lemma_length_prefixed_unique(a.action@, b.action@, a3, b3);
    lemma_length_prefixed_unique(a.target@, b.target@, a4, b4);
    lemma_length_prefixed_unique(a.status@, b.status@, a5, b5);
    lemma_length_prefixed_unique(a.operator_id@, b.operator_id@, lp, mp);
    assert(lp + Seq::<char>::empty() =~= lp);
    assert(mp + Seq::<char>::empty() =~= mp);
    lemma_length_prefixed_unique(a.previous_hash@, b.previous_hash@, Seq::empty(), Seq::empty());
    lemma_decimal_injective(a.index as nat, b.index as nat);
    lemma_decimal_injective(a.timestamp as nat, b.timestamp as nat);
}

/// In a valid chain, editing an entry in any hashed field (index, timestamp, action,
/// target, status or operator) while keeping both of its hashes makes the chain fail
/// verification, unless SHA-256 gives the old and the new payload the same digest.
pub proof fn law_edited_entry_detected(entries: Seq<AuditEntry>, k: int, edited: AuditEntry)
    requires
        chain_valid(entries),
        0 <= k < entries.len(),
        edited.previous_hash@ == entries[k].previous_hash@,
        edited.record_hash@ == entries[k].record_hash@,
        !(edited.index == entries[k].index && edited.timestamp == entries[k].timestamp && edited.action@
            == entries[k].action@ && edited.target@ == entries[k].target@ && edited.status@ == entries[k].status@
            && edited.operator_id@ == entries[k].operator_id@),
        no_collision(encode_utf8(payload_of(edited)), encode_utf8(payload_of(entries[k]))),
    ensures
        !chain_valid(entries.update(k, edited)),
{
    let orig = entries[k];
    let s = entries.update(k, edited);
    if payload_of(edited) == payload_of(orig) {
        law_payload_determines_entry(edited, orig);
    }
    encode_utf8_decode_utf8(payload_of(edited));
    encode_utf8_decode_utf8(payload_of(orig));
    let de = sha256(encode_utf8(payload_of(edited)));
    let dorig = sha256(encode_utf8(payload_of(orig)));
    assert(de != dorig);
    if hex_lower(de) == hex_lower(dorig) {
        lemma_hex_lower_injective(de, dorig);
    }
    assert(entry_intact(entries, k));
    assert(computed_hash(edited) == hex_lower(de));
    assert(computed_hash(orig) == hex_lower(dorig));
    assert(!entry_intact(s, k));
}

proof fn lemma_broken_not_valid(entries: Seq<AuditEntry>, i: int)
    requires
        0 <= i < entries.len(),
        !entry_intact(entries, i),
    ensures
        !chain_valid(entries),
{
}

/// The link value of the first entry.
fn genesis_string() -> (s: String)
    ensures
        s@ == genesis_hash(),
{
    String::from_str("GENESIS_BLOCK")
}

/// Computes the record hash of an entry with these fields.
fn record_hash_of(
    index: usize,
    timestamp: u64,
    action: &str,
    target: &str,
    status: &str,
    operator: &str,
    previous_hash: &str,
) -> (h: String)
    ensures
        h@ == record_hash_for(index, timestamp, action@, target@, status@, operator@, previous_hash@),
{
    let wide: u64 = index as u64;
    assert(wide as nat == index as nat);
    let mut payload = String::new();
    push_length_prefixed_decimal(&mut payload, wide);
    push_length_prefixed_decimal(&mut payload, timestamp);
    push_length_prefixed(&mut payload, action);
    push_length_prefixed(&mut payload, target);
    push_length_prefixed(&mut payload, status);
    push_length_prefixed(&mut payload, operator);
    push_length_prefixed(&mut payload, previous_hash);
    proof {
        let l0 = length_prefixed(decimal(index as nat));
        assert(Seq::<char>::empty() + l0 =~= l0);
        lemma_regroup_seven(
            l0,
            length_prefixed(decimal(timestamp as nat)),
            length_prefixed(action@),
            length_prefixed(target@),
            length_prefixed(status@),
            length_prefixed(operator@),
            length_prefixed(previous_hash@),
        );
    }
    sha256_hex(payload.as_str().as_bytes())
}

} // verus!
