use vstd::prelude::*;

verus! {

/// A recovered file or harvest record, as shown in the desktop gallery. The confidence
/// score is kept in thousandths (1000 is certain).
#[derive(Debug)]
pub struct CarvedArtifact {
    pub file_type: String,
    pub start_offset: u64,
    pub size_bytes: u64,
    pub output_path: String,
    pub sha256_checksum: String,
    pub is_fragmented_candidate: bool,
    pub confidence_permille: u16,
    pub regex_strings: Vec<String>,
    pub threat_tags: Vec<String>,
}

/// One record of the desktop audit chain.
#[derive(Debug)]
pub struct AuditEntry {
    pub index: usize,
    pub timestamp: u64,
    pub action: String,
    pub target: String,
    pub status: String,
    pub operator_id: String,
    pub previous_hash: String,
    pub record_hash: String,
}

impl AuditEntry {
    /// A field-by-field copy of this entry.
    pub fn duplicate(&self) -> (r: AuditEntry)
        ensures
            r == *self,
    {
        AuditEntry {
            index: self.index,
            timestamp: self.timestamp,
            action: self.action.clone(),
            target: self.target.clone(),
            status: self.status.clone(),
            operator_id: self.operator_id.clone(),
            previous_hash: self.previous_hash.clone(),
            record_hash: self.record_hash.clone(),
        }
    }
}

} // verus!
