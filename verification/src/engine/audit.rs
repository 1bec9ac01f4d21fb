use vstd::prelude::*;

use crate::clock::unix_time_now;
use crate::digest::{no_collision, sha256, sha256_hex};
use crate::text::{
    decimal, hex_lower, lemma_decimal_injective, lemma_hex_lower_injective, lemma_length_prefixed_unique, lemma_regroup_seven,
    length_prefixed, push_char, push_decimal, push_length_prefixed, push_length_prefixed_decimal,
};
use vstd::string::StringExecFns;
use vstd::utf8::{encode_utf8, encode_utf8_decode_utf8};

verus! {

/// One record of the tamper-evident audit chain.
#[derive(Debug)]
pub struct AuditEntry {
    pub index: u64,
    pub timestamp: u64,
    pub action: String,
    pub target: String,
    pub status: String,
    pub operator_id: String,
    pub previous_hash: String,
    pub record_hash: String,
}

impl AuditEntry {
    /// A field-by-field copy of this entry.
    pub fn duplicate(&self) -> (r: AuditEntry)
        ensures
            r == *self,
    {
        AuditEntry {
            index: self.index,
            timestamp: self.timestamp,
            action: self.action.clone(),
            target: self.target.clone(),
            status: self.status.clone(),
            operator_id: self.operator_id.clone(),
            previous_hash: self.previous_hash.clone(),
            record_hash: self.record_hash.clone(),
        }
    }
}

/// The link value that the first entry of a chain must carry: 64 zeros.
pub open spec fn genesis_hash() -> Seq<char> {
    Seq::new(64, |i: int| '0')
}

/// The text that is hashed for an entry: its index, timestamp, action, target, status,
/// operator and previous hash, in that order, each written as a length-prefixed field
/// (its length in characters, a colon, then the field), so that no two different
/// entries share a payload.
pub open spec fn entry_payload(
    index: u64,
    timestamp: u64,
    action: Seq<char>,
    target: Seq<char>,
    status: Seq<char>,
    operator: Seq<char>,
    previous_hash: Seq<char>,
) -> Seq<char> {
    length_prefixed(decimal(index as nat)) + (length_prefixed(decimal(timestamp as nat)) + (length_prefixed(action)
        + (length_prefixed(target) + (length_prefixed(status) + (length_prefixed(operator) + length_prefixed(
        previous_hash,
    ))))))
}

/// The payload of `e`, from all of its fields but the record hash.
pub open spec fn payload_of(e: AuditEntry) -> Seq<char> {
    entry_payload(e.index, e.timestamp, e.action@, e.target@, e.status@, e.operator_id@, e.previous_hash@)
}

/// The record hash that an entry with these fields must carry: the lower-case hex
/// SHA-256 of the UTF-8 bytes of its payload.
pub open spec fn record_hash_for(
    index: u64,
    timestamp: u64,
    action: Seq<char>,
    target: Seq<char>,
    status: Seq<char>,
    operator: Seq<char>,
    previous_hash: Seq<char>,
) -> Seq<char> {
    crate::text::hex_lower(
        sha256(
            vstd::utf8::encode_utf8(
                entry_payload(index, timestamp, action, target, status, operator, previous_hash),
            ),
        ),
    )
}

/// The record hash that `e` must carry, recomputed from its other fields.
pub open spec fn computed_hash(e: AuditEntry) -> Seq<char> {
    record_hash_for(
        e.index,
        e.timestamp,
        e.action@,
        e.target@,
        e.status@,
        e.operator_id@,
        e.previous_hash@,
    )
}

/// The value that entry `k` of `entries` must hold as its previous hash.
pub open spec fn expected_link(entries: Seq<AuditEntry>, k: int) -> Seq<char> {
    if k == 0 {
        genesis_hash()
    } else {
        entries[k - 1].record_hash@
    }
}

/// Entry `k` links to its predecessor and carries the hash of its own fields.
pub open spec fn entry_intact(entries: Seq<AuditEntry>, k: int) -> bool {
    &&& entries[k].previous_hash@ == expected_link(entries, k)
    &&& entries[k].record_hash@ == computed_hash(entries[k])
}

/// Every entry of the chain is intact.
pub open spec fn chain_valid(entries: Seq<AuditEntry>) -> bool {
    forall|k: int| 0 <= k < entries.len() ==> #[trigger] entry_intact(entries, k)
}

/// The position of the first entry at or after `k` that is not intact.
pub open spec fn first_broken_from(entries: Seq<AuditEntry>, k: int) -> Option<int>
    decreases entries.len() - k,
{
    if k < 0 || k >= entries.len() {
        None
    } else if !entry_intact(entries, k) {
        Some(k)
    } else {
        first_broken_from(entries, k + 1)
    }
}

/// The position of the first entry of the chain that is not intact, if any.
pub open spec fn first_broken(entries: Seq<AuditEntry>) -> Option<int> {
    first_broken_from(entries, 0)
}

/// The append-only ledger of audit entries, kept at `log_path` by its owner.
pub struct AuditLedger {
    pub log_path: String,
    pub entries: Vec<AuditEntry>,
}

impl AuditLedger {
    /// Opens the ledger kept at `path` with the entries that were read from it
    /// (none when the file was missing or unreadable).
    pub fn init(path: &str, loaded: Vec<AuditEntry>) -> (ledger: Self)
        ensures
            ledger.log_path@ == path@,
            ledger.entries@ == loaded@,
    {
        AuditLedger { log_path: String::from_str(path), entries: loaded }
    }

    /// Appends an entry for an operation, stamped with the current time, and returns it.
    pub fn append(&mut self, action: &str, target: &str, status: &str, operator: &str) -> (entry: AuditEntry)
        ensures
            final(self).log_path@ == old(self).log_path@,
            final(self).entries@ == old(self).entries@.push(entry),
            entry.index == old(self).entries@.len(),
            entry.action@ == action@,
            entry.target@ == target@,
            entry.status@ == status@,
            entry.operator_id@ == operator@,
            entry.previous_hash@ == expected_link(old(self).entries@, old(self).entries@.len() as int),
            entry.record_hash@ == computed_hash(entry),
    {
        let timestamp = unix_time_now();
        self.append_at(action, target, status, operator, timestamp)
    }

    /// Appends an entry stamped with `timestamp` and returns it.
    pub fn append_at(
        &mut self,
        action: &str,
        target: &str,
        status: &str,
        operator: &str,
        timestamp: u64,
    ) -> (entry: AuditEntry)
        ensures
            final(self).log_path@ == old(self).log_path@,
            final(self).entries@ == old(self).entries@.push(entry),
            entry.index == old(self).entries@.len(),
            entry.timestamp == timestamp,
            entry.action@ == action@,
            entry.target@ == target@,
            entry.status@ == status@,
            entry.operator_id@ == operator@,
            entry.previous_hash@ == expected_link(old(self).entries@, old(self).entries@.len() as int),
            entry.record_hash@ == computed_hash(entry),
    {
        let n = self.entries.len();
        let prev_hash = if n == 0 {
            genesis_string()
        } else {
            self.entries[n - 1].record_hash.clone()
        };
        let index = n as u64;
        let record_hash = record_hash_of(index, timestamp, action, target, status, operator, prev_hash.as_str());
        let entry = AuditEntry {
            index,
            timestamp,
            action: String::from_str(action),
            target: String::from_str(target),
            status: String::from_str(status),
            operator_id: String::from_str(operator),
            previous_hash: prev_hash,
            record_hash,
        };
        let copy = entry.duplicate();
        self.entries.push(copy);
        entry
    }

    /// Checks every link and record hash of the chain, in order; on the first entry
    /// that fails either check, reports `false` and that entry's index.
    pub fn verify_integrity(&self) -> (r: (bool, Option<u64>))
        ensures
            r.0 == chain_valid(self.entries@),
            r.0 == (first_broken(self.entries@) is None),
            match first_broken(self.entries@) {
                None => r.1 is None,
                Some(k) => r.1 == Some(self.entries@[k].index),
            },
    {
        let mut expected_prev = genesis_string();
        let mut i: usize = 0;
        while i < self.entries.len()
            invariant
                i <= self.entries@.len(),
                expected_prev@ == expected_link(self.entries@, i as int),
                forall|k: int| 0 <= k < i ==> #[trigger] entry_intact(self.entries@, k),
                first_broken(self.entries@) == first_broken_from(self.entries@, i as int),
            decreases self.entries@.len() - i,
        {
            let entry = &self.entries[i];
            proof {
                lemma_first_broken_step(self.entries@, i as int);
            }
            if entry.previous_hash != expected_prev {
                proof {
                    lemma_broken_not_valid(self.entries@, i as int);
                }
                return (false, Some(entry.index));
            }
            let computed = record_hash_of(
                entry.index,
                entry.timestamp,
                entry.action.as_str(),
                entry.target.as_str(),
                entry.status.as_str(),
                entry.operator_id.as_str(),
                entry.previous_hash.as_str(),
            );
            if computed != entry.record_hash {
                proof {
                    lemma_broken_not_valid(self.entries@, i as int);
                }
                return (false, Some(entry.index));
            }
            expected_prev = entry.record_hash.clone();
            i = i + 1;
        }
        (true, None)
    }
}

/// The header line of the CSV export.
pub open spec fn csv_header() -> Seq<char> {
    "Index,Timestamp,Action,Target,Status,Operator,RecordHash"@.push('\n')
}

/// The CSV line of one entry.
pub open spec fn csv_row(e: AuditEntry) -> Seq<char> {
    decimal(e.index as nat) + seq![','] + decimal(e.timestamp as nat) + seq![','] + e.action@ + seq![',']
        + e.target@ + seq![','] + e.status@ + seq![','] + e.operator_id@ + seq![','] + e.record_hash@ + seq![
        '\n',
    ]
}

/// The CSV lines of `entries`, in order.
pub open spec fn csv_rows(entries: Seq<AuditEntry>) -> Seq<char>
    decreases entries.len(),
{
    if entries.len() == 0 {
        Seq::empty()
    } else {
        csv_rows(entries.drop_last()) + csv_row(entries.last())
    }
}

/// The CSV export has one line per entry, in entry order: the lines of two runs of
/// entries are the lines of the first run followed by those of the second, and a
/// single entry gives exactly its own line.
pub proof fn law_csv_rows_per_entry(a: Seq<AuditEntry>, b: Seq<AuditEntry>)
    ensures
        csv_rows(a + b) == csv_rows(a) + csv_rows(b),
        forall|e: AuditEntry| #[trigger] csv_rows(seq![e]) == csv_row(e),
    decreases b.len(),
{
    assert forall|e: AuditEntry| #[trigger] csv_rows(seq![e]) == csv_row(e) by {
        assert(seq![e].drop_last() =~= Seq::<AuditEntry>::empty());
        assert(seq![e].last() == e);
        assert(csv_rows(Seq::<AuditEntry>::empty()) == Seq::<char>::empty());
        assert(csv_rows(seq![e]) == csv_rows(seq![e].drop_last()) + csv_row(e));
        assert(Seq::<char>::empty() + csv_row(e) =~= csv_row(e));
    }
    if b.len() == 0 {
        assert(a + b =~= a);
        assert(csv_rows(a) + Seq::<char>::empty() =~= csv_rows(a));
    } else {
        law_csv_rows_per_entry(a, b.drop_last());
        assert((a + b).drop_last() =~= a + b.drop_last());
        assert((a + b).last() == b.last());
        assert(csv_rows(a + b) =~= csv_rows(a) + csv_rows(b));
    }
}

/// The lines of the compliance certificate for `e`, top to bottom.
pub open spec fn certificate_text(e: AuditEntry) -> Seq<Seq<char>> {
    seq![
        "Digital Forensics Compliance Certificate"@,
        "Action: "@ + e.action@,
        "Target: "@ + e.target@,
        "Timestamp: "@ + decimal(e.timestamp as nat),
        "Status: "@ + e.status@,
        "Operator ID: "@ + e.operator_id@,
        "Standard: NIST SP 800-88 Rev.1"@,
        "Entry hash: "@ + e.record_hash@,
        "Previous hash: "@ + e.previous_hash@,
    ]
}

fn push_csv_row(r: &mut String, e: &AuditEntry)
    ensures
        final(r)@ == old(r)@ + csv_row(*e),
{
    push_decimal(r, e.index);
    push_char(r, ',');
    push_decimal(r, e.timestamp);
    push_char(r, ',');
    r.append(e.action.as_str());
    push_char(r, ',');
    r.append(e.target.as_str());
    push_char(r, ',');
    r.append(e.status.as_str());
    push_char(r, ',');
    r.append(e.operator_id.as_str());
    push_char(r, ',');
    r.append(e.record_hash.as_str());
    push_char(r, '\n');
    assert(r@ =~= old(r)@ + csv_row(*e));
}

impl AuditLedger {
    /// The ledger as CSV text: a header line, then one line per entry with its index,
    /// timestamp, action, target, status, operator and record hash.
    pub fn csv_report(&self) -> (r: String)
        ensures
            r@ == csv_header() + csv_rows(self.entries@),
    {
        let mut r = String::from_str("Index,Timestamp,Action,Target,Status,Operator,RecordHash");
        push_char(&mut r, '\n');
        let mut i: usize = 0;
        while i < self.entries.len()
            invariant
                i <= self.entries@.len(),
                r@ == csv_header() + csv_rows(self.entries@.take(i as int)),
            decreases self.entries@.len() - i,
        {
            let e = &self.entries[i];
            push_csv_row(&mut r, e);
            proof {
                assert(self.entries@.take(i + 1).drop_last() =~= self.entries@.take(i as int));
                assert(self.entries@.take(i + 1).last() == *e);
            }
            i = i + 1;
        }
        assert(self.entries@.take(i as int) =~= self.entries@);
        r
    }

    /// The text lines of the compliance certificate for entry `entry_index`; an index
    /// past the last entry is refused with `Invalid entry index`.
    pub fn certificate_lines(&self, entry_index: usize) -> (r: Result<Vec<String>, String>)
        ensures
            entry_index >= self.entries@.len() ==> (r matches Err(e) && e@ == "Invalid entry index"@),
            entry_index < self.entries@.len() ==> (r matches Ok(lines) && lines@.len() == 9 && forall|k: int|
                0 <= k < 9 ==> (#[trigger] lines@[k])@ == certificate_text(self.entries@[entry_index as int])[k]),
    {
        if entry_index >= self.entries.len() {
            return Err(String::from_str("Invalid entry index"));
        }
        let e = &self.entries[entry_index];
        let mut lines: Vec<String> = Vec::new();
        lines.push(String::from_str("Digital Forensics Compliance Certificate"));
        let mut l = String::from_str("Action: ");
        l.append(e.action.as_str());
        lines.push(l);
        let mut l = String::from_str("Target: ");
        l.append(e.target.as_str());
        lines.push(l);
        let mut l = String::from_str("Timestamp: ");
        push_decimal(&mut l, e.timestamp);
        lines.push(l);
        let mut l = String::from_str("Status: ");
        l.append(e.status.as_str());
        lines.push(l);
        let mut l = String::from_str("Operator ID: ");
        l.append(e.operator_id.as_str());
        lines.push(l);
        lines.push(String::from_str("Standard: NIST SP 800-88 Rev.1"));
        let mut l = String::from_str("Entry hash: ");
        l.append(e.record_hash.as_str());
        lines.push(l);
        let mut l = String::from_str("Previous hash: ");
        l.append(e.previous_hash.as_str());
        lines.push(l);
        Ok(lines)
    }
}

proof fn lemma_first_broken_at(entries: Seq<AuditEntry>, j: int, k: int)
    requires
        0 <= j <= k <= entries.len(),
        forall|m: int| 0 <= m < k ==> #[trigger] entry_intact(entries, m),
        k < entries.len() ==> !entry_intact(entries, k),
    ensures
        first_broken_from(entries, j) == if k == entries.len() { None } else { Some(k) },
    decreases k - j,
{
    if j < k {
        assert(entry_intact(entries, j));
        lemma_first_broken_at(entries, j + 1, k);
    }
}

/// A chain is valid exactly when verification finds no broken entry.
pub proof fn law_valid_iff_nothing_broken(entries: Seq<AuditEntry>)
    ensures
        chain_valid(entries) <==> first_broken(entries) is None,
{
    if chain_valid(entries) {
        lemma_first_broken_at(entries, 0, entries.len() as int);
    } else {
        let k = choose|k: int| 0 <= k < entries.len() && !#[trigger] entry_intact(entries, k);
        lemma_first_broken_exists(entries, 0, k);
    }
}

proof fn lemma_first_broken_exists(entries: Seq<AuditEntry>, j: int, k: int)
    requires
        0 <= j <= k < entries.len(),
        !entry_intact(entries, k),
    ensures
        first_broken_from(entries, j) is Some,
    decreases k - j,
{
    if j < k && entry_intact(entries, j) {
        lemma_first_broken_exists(entries, j + 1, k);
    }
}

/// Appending an entry that links to the last record hash (or to the genesis value on an
/// empty chain) and carries the hash of its own fields, as `append` does, keeps a valid
/// chain valid: verification of the longer chain finds nothing broken.
pub proof fn law_append_keeps_chain_valid(entries: Seq<AuditEntry>, e: AuditEntry)
    requires
        chain_valid(entries),
        e.previous_hash@ == expected_link(entries, entries.len() as int),
        e.record_hash@ == computed_hash(e),
    ensures
        chain_valid(entries.push(e)),
        first_broken(entries.push(e)) is None,
{
    let s = entries.push(e);
    assert forall|k: int| 0 <= k < s.len() implies #[trigger] entry_intact(s, k) by {
        if k < entries.len() {
            assert(entry_intact(entries, k));
            assert(s[k] == entries[k]);
            if k > 0 {
                assert(s[k - 1] == entries[k - 1]);
            }
        }
    }
    law_valid_iff_nothing_broken(s);
}

/// The empty chain is valid.
pub proof fn law_empty_chain_valid()
    ensures
        chain_valid(Seq::<AuditEntry>::empty()),
        first_broken(Seq::<AuditEntry>::empty()) is None,
{
}

/// In a valid chain, overwriting the record hash of entry `k` with any other value
/// (all other fields kept) makes verification report entry `k` as the first broken one.
pub proof fn law_forged_record_hash_detected(entries: Seq<AuditEntry>, k: int, forged: AuditEntry)
    requires
        chain_valid(entries),
        0 <= k < entries.len(),
        forged.index == entries[k].index,
        forged.timestamp == entries[k].timestamp,
        forged.action@ == entries[k].action@,
        forged.target@ == entries[k].target@,
        forged.status@ == entries[k].status@,
        forged.operator_id@ == entries[k].operator_id@,
        forged.previous_hash@ == entries[k].previous_hash@,
        forged.record_hash@ != entries[k].record_hash@,
    ensures
        first_broken(entries.update(k, forged)) == Some(k),
{
    let s = entries.update(k, forged);
    assert(entry_intact(entries, k));
    assert forall|m: int| 0 <= m < k implies #[trigger] entry_intact(s, m) by {
        assert(entry_intact(entries, m));
        if m > 0 {
            assert(s[m - 1] == entries[m - 1]);
        }
    }
    lemma_first_broken_at(s, 0, k);
}

/// In a valid chain, overwriting the previous-hash link of entry `k` with any other
/// value (all other fields kept) makes verification report entry `k` as the first
/// broken one.
pub proof fn law_forged_link_detected(entries: Seq<AuditEntry>, k: int, forged: AuditEntry)
    requires
        chain_valid(entries),
        0 <= k < entries.len(),
        forged.index == entries[k].index,
        forged.timestamp == entries[k].timestamp,
        forged.action@ == entries[k].action@,
        forged.target@ == entries[k].target@,
        forged.status@ == entries[k].status@,
        forged.operator_id@ == entries[k].operator_id@,
        forged.record_hash@ == entries[k].record_hash@,
        forged.previous_hash@ != entries[k].previous_hash@,
    ensures
        first_broken(entries.update(k, forged)) == Some(k),
{
    let s = entries.update(k, forged);
    assert(entry_intact(entries, k));
    assert forall|m: int| 0 <= m < k implies #[trigger] entry_intact(s, m) by {
        assert(entry_intact(entries, m));
        if m > 0 {
            assert(s[m - 1] == entries[m - 1]);
        }
    }
    if k > 0 {
        assert(s[k - 1] == entries[k - 1]);
    }
    lemma_first_broken_at(s, 0, k);
}

/// Two entries whose hashed payloads are the same text agree on every field that is
/// hashed: the payload can be read only one way.
pub proof fn law_payload_determines_entry(a: AuditEntry, b: AuditEntry)
    requires
        payload_of(a) == payload_of(b),
    ensures
        a.index == b.index,
        a.timestamp == b.timestamp,
        a.action@ == b.action@,
        a.target@ == b.target@,
        a.status@ == b.status@,
        a.operator_id@ == b.operator_id@,
        a.previous_hash@ == b.previous_hash@,
{
    let (lt, la, lg) = (length_prefixed(a.target@), length_prefixed(a.status@), length_prefixed(a.operator_id@));
    let (mt, ma, mg) = (length_prefixed(b.target@), length_prefixed(b.status@), length_prefixed(b.operator_id@));
    let (lp, mp) = (length_prefixed(a.previous_hash@), length_prefixed(b.previous_hash@));
    let a5 = lg + lp;
    let b5 = mg + mp;
    let a4 = la + a5;
    let b4 = ma + b5;
    let a3 = lt + a4;
    let b3 = mt + b4;
    let a2 = length_prefixed(a.action@) + a3;
    let b2 = length_prefixed(b.action@) + b3;
    let a1 = length_prefixed(decimal(a.timestamp as nat)) + a2;
    let b1 = length_prefixed(decimal(b.timestamp as nat)) + b2;
    lemma_length_prefixed_unique(decimal(a.index as nat), decimal(b.index as nat), a1, b1);
    lemma_length_prefixed_unique(decimal(a.timestamp as nat), decimal(b.timestamp as nat), a2, b2);
    lemma_length_prefixed_unique(a.action@, b.action@, a3, b3);
    lemma_length_prefixed_unique(a.target@, b.target@, a4, b4);
    lemma_length_prefixed_unique(a.status@, b.status@, a5, b5);
    lemma_length_prefixed_unique(a.operator_id@, b.operator_id@, lp, mp);
    assert(lp + Seq::<char>::empty() =~= lp);
    assert(mp + Seq::<char>::empty() =~= mp);
    lemma_length_prefixed_unique(a.previous_hash@, b.previous_hash@, Seq::empty(), Seq::empty());
    lemma_decimal_injective(a.index as nat, b.index as nat);
    lemma_decimal_injective(a.timestamp as nat, b.timestamp as nat);
}

/// In a valid chain, editing entry `k` in any hashed field (index, timestamp, action,
/// target, status or operator) while keeping both of its hashes makes verification
/// report entry `k` as the first broken one, unless SHA-256 gives the old and the new
/// payload the same digest.
pub proof fn law_edited_entry_detected(entries: Seq<AuditEntry>, k: int, edited: AuditEntry)
    requires
        chain_valid(entries),
        0 <= k < entries.len(),
        edited.previous_hash@ == entries[k].previous_hash@,
        edited.record_hash@ == entries[k].record_hash@,
        !(edited.index == entries[k].index && edited.timestamp == entries[k].timestamp && edited.action@
            == entries[k].action@ && edited.target@ == entries[k].target@ && edited.status@ == entries[k].status@
            && edited.operator_id@ == entries[k].operator_id@),
        no_collision(encode_utf8(payload_of(edited)), encode_utf8(payload_of(entries[k]))),
    ensures
        first_broken(entries.update(k, edited)) == Some(k),
{
    let orig = entries[k];
    let s = entries.update(k, edited);
    if payload_of(edited) == payload_of(orig) {
        law_payload_determines_entry(edited, orig);
    }
    encode_utf8_decode_utf8(payload_of(edited));
    encode_utf8_decode_utf8(payload_of(orig));
    let de = sha256(encode_utf8(payload_of(edited)));
    let dorig = sha256(encode_utf8(payload_of(orig)));
    assert(de != dorig);
    if hex_lower(de) == hex_lower(dorig) {
        lemma_hex_lower_injective(de, dorig);
    }
    assert(entry_intact(entries, k));
    assert(computed_hash(edited) == hex_lower(de));
    assert(computed_hash(orig) == hex_lower(dorig));
    assert(!entry_intact(s, k));
    assert forall|m: int| 0 <= m < k implies #[trigger] entry_intact(s, m) by {
        assert(entry_intact(entries, m));
        if m > 0 {
            assert(s[m - 1] == entries[m - 1]);
        }
    }
    lemma_first_broken_at(s, 0, k);
}

proof fn lemma_first_broken_step(entries: Seq<AuditEntry>, i: int)
    requires
        0 <= i < entries.len(),
    ensures
        first_broken_from(entries, i) == if !entry_intact(entries, i) {
            Some(i)
        } else {
            first_broken_from(entries, i + 1)
        },
{
}

proof fn lemma_broken_not_valid(entries: Seq<AuditEntry>, i: int)
    requires
        0 <= i < entries.len(),
        !entry_intact(entries, i),
    ensures
        !chain_valid(entries),
{
}

/// The 64-zero link value of the first entry.
fn genesis_string() -> (s: String)
    ensures
        s@ == genesis_hash(),
{
    let mut s = String::new();
    let mut i: usize = 0;
    while i < 64
        invariant
            i <= 64,
            s@ == Seq::new(i as nat, |j: int| '0'),
        decreases 64 - i,
    {
        push_char(&mut s, '0');
        assert(s@ =~= Seq::new((i + 1) as nat, |j: int| '0'));
        i = i + 1;
    }
    s
}

/// Computes the record hash of an entry with these fields.
fn record_hash_of(
    index: u64,
    timestamp: u64,
    action: &str,
    target: &str,
    status: &str,
    operator: &str,
    previous_hash: &str,
) -> (h: String)
    ensures
        h@ == record_hash_for(index, timestamp, action@, target@, status@, operator@, previous_hash@),
{
    let mut payload = String::new();
    push_length_prefixed_decimal(&mut payload, index);
    push_length_prefixed_decimal(&mut payload, timestamp);
    push_length_prefixed(&mut payload, action);
    push_length_prefixed(&mut payload, target);
    push_length_prefixed(&mut payload, status);
    push_length_prefixed(&mut payload, operator);
    push_length_prefixed(&mut payload, previous_hash);
    proof {
        let l0 = length_prefixed(decimal(index as nat));
        assert(Seq::<char>::empty() + l0 =~= l0);
        lemma_regroup_seven(
            l0,
            length_prefixed(decimal(timestamp as nat)),
            length_prefixed(action@),
            length_prefixed(target@),
            length_prefixed(status@),
            length_prefixed(operator@),
            length_prefixed(previous_hash@),
        );
    }
    sha256_hex(payload.as_str().as_bytes())
}

} // verus!
