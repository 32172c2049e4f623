use vstd::prelude::*;

use crate::errors::ErrorCode;
use crate::states::bitmap::{byte_of, claim_outcome};
use crate::states::event_register::Event;

verus! {

/// Claims certificate `cert_id` of the batch: sets its bit, then adds one to
/// the issued count.
///
/// A bit already set gives `AlreadyClaimed` and changes nothing. A full count
/// gives `MathOverflow` with the bit left set.
pub fn handler(event: &mut Event, cert_id: u32) -> (r: Result<(), ErrorCode>)
    requires
        byte_of(cert_id) < old(event).bit_map@.len(),
    ensures
        (final(event).bit_map@, final(event).issued_cert, r) == claim_outcome(
            old(event).bit_map@,
            old(event).issued_cert,
            cert_id,
        ),
        final(event).same_but_claims(&*old(event)),
{
    let byte_index = match cert_id.checked_div(8) {
        Some(q) => q as usize,
        None => {
            return Err(ErrorCode::MathOverflow);
        },
    };
    let bit_index: u8 = (cert_id % 8) as u8;
    let mask: u8 = 1u8 << bit_index;
    if event.bit_map[byte_index] & mask != 0 {
        return Err(ErrorCode::AlreadyClaimed);
    }
    let set = event.bit_map[byte_index] | mask;
    event.bit_map.set(byte_index, set);
    match event.issued_cert.checked_add(1) {
        Some(n) => {
            event.issued_cert = n;
            Ok(())
        },
        None => Err(ErrorCode::MathOverflow),
    }
}

} // verus!
