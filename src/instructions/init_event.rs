use vstd::prelude::*;

use crate::states::event_register::Event;

verus! {

/// `e` holds the given fields as they are, was created at `now`, has issued no
/// certificate, and has every slot remaining.
pub open spec fn is_new_record(
    e: &Event,
    issuer: [u8; 32],
    unique_key: u64,
    event_name: Seq<char>,
    event_id: u64,
    batch_size: u32,
    bit_map: Seq<u8>,
    merkle_root: [u8; 32],
    metadata_uri: Seq<char>,
    template_uri: Seq<char>,
    merkle_proof_uri: Seq<char>,
    now: i64,
    bump: u8,
) -> bool {
    &&& e.issuer == issuer
    &&& e.unique_key == unique_key
    &&& e.event_name@ == event_name
    &&& e.event_id == event_id
    &&& e.batch_size == batch_size
    &&& e.bit_map@ == bit_map
    &&& e.merkle_root == merkle_root
    &&& e.issued_timestamp == now
    &&& e.metadata_uri@ == metadata_uri
    &&& e.template_uri@ == template_uri
    &&& e.merkle_proof_uri@ == merkle_proof_uri
    &&& e.remaning_certs == batch_size as u64
    &&& e.issued_cert == 0
    &&& e.bump == bump
}

/// A fresh batch record: the given fields stored as they are, created at `now`,
/// with no certificate issued and every slot remaining.
pub fn handler(
    issuer: [u8; 32],
    unique_key: u64,
    event_name: String,
    event_id: u64,
    batch_size: u32,
    bit_map: Vec<u8>,
    merkle_root: [u8; 32],
    metadata_uri: String,
    template_uri: String,
    merkle_proof_uri: String,
    now: i64,
    bump: u8,
) -> (e: Event)
    ensures
        is_new_record(
            &e,
            issuer,
            unique_key,
            event_name@,
            event_id,
            batch_size,
            bit_map@,
            merkle_root,
            metadata_uri@,
            template_uri@,
            merkle_proof_uri@,
            now,
            bump,
        ),
{
    Event {
        issuer,
        unique_key,
        event_name,
        event_id,
        batch_size,
        bit_map,
        merkle_root,
        issued_timestamp: now,
        metadata_uri,
        template_uri,
        merkle_proof_uri,
        remaning_certs: batch_size as u64,
        issued_cert: 0,
        bump,
    }
}

} // verus!
