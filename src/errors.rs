use vstd::prelude::*;

verus! {

/// Why an operation on a batch was refused.
#[derive(Clone, Copy, Debug, PartialEq, Eq, Structural)]
pub enum ErrorCode {
    /// A checked arithmetic step would leave its width.
    MathOverflow,
    /// The certificate's bit is already set.
    AlreadyClaimed,
    /// A record already stands at the derived address.
    AddressCollision,
    /// No record stands at the derived address.
    NotFound,
    /// The certificate index lies past the end of the claim bitmap.
    IndexOutOfRange,
    /// No bump seed gives an address off the curve for these seeds.
    NoViableAddress,
}

} // verus!
