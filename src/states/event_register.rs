use vstd::prelude::*;

verus! {

/// One batch of certificates issued together.
pub struct Event {
    /// The issuer's public key.
    pub issuer: [u8; 32],
    /// Caller-chosen nonce, part of the record's address.
    pub unique_key: u64,
    pub event_name: String,
    /// Caller-defined identifier.
    pub event_id: u64,
    /// Number of certificate slots.
    pub batch_size: u32,
    /// One bit per certificate: bit `i % 8` of byte `i / 8` is set once
    /// certificate `i` was claimed.
    pub bit_map: Vec<u8>,
    /// Commitment to the certificates' off-chain content.
    pub merkle_root: [u8; 32],
    /// Creation time, in seconds since the Unix epoch.
    pub issued_timestamp: i64,
    pub metadata_uri: String,
    pub template_uri: String,
    pub merkle_proof_uri: String,
    /// Set to `batch_size` at creation; the claim path leaves it alone.
    pub remaning_certs: u64,
    /// Number of certificates claimed so far.
    pub issued_cert: u64,
    /// Bump seed that, with issuer and nonce, yields the record's address.
    pub bump: u8,
}

impl Event {
    /// Everything but the claim bitmap and the issued count agrees.
    pub open spec fn same_but_claims(&self, other: &Event) -> bool {
        &&& self.issuer == other.issuer
        &&& self.unique_key == other.unique_key
        &&& self.event_name@ == other.event_name@
        &&& self.event_id == other.event_id
        &&& self.batch_size == other.batch_size
        &&& self.merkle_root == other.merkle_root
        &&& self.issued_timestamp == other.issued_timestamp
        &&& self.metadata_uri@ == other.metadata_uri@
        &&& self.template_uri@ == other.template_uri@
        &&& self.merkle_proof_uri@ == other.merkle_proof_uri@
        &&& self.remaning_certs == other.remaning_certs
        &&& self.bump == other.bump
    }
}

} // verus!
