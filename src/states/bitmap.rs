use vstd::prelude::*;

use crate::errors::ErrorCode;

verus! {

/// Byte of the claim bitmap that holds certificate `cert_id`.
pub open spec fn byte_of(cert_id: u32) -> int {
    (cert_id / 8) as int
}

/// Mask of certificate `cert_id`'s bit within its byte.
pub open spec fn mask_of(cert_id: u32) -> u8 {
    1u8 << ((cert_id % 8) as u8)
}

/// Whether certificate `cert_id` is marked in `bm`.
pub open spec fn is_claimed(bm: Seq<u8>, cert_id: u32) -> bool {
    bm[byte_of(cert_id)] & mask_of(cert_id) != 0
}

/// `bm` with certificate `cert_id`'s bit set.
pub open spec fn with_claim(bm: Seq<u8>, cert_id: u32) -> Seq<u8> {
    bm.update(byte_of(cert_id), bm[byte_of(cert_id)] | mask_of(cert_id))
}

/// Bitmap, issued count and result after claiming `cert_id`.
/// The bit is set before the count is incremented, so an overflowing count
/// leaves the bit set.
pub open spec fn claim_outcome(bm: Seq<u8>, issued: u64, cert_id: u32) -> (
    Seq<u8>,
    u64,
    Result<(), ErrorCode>,
) {
    if is_claimed(bm, cert_id) {
        (bm, issued, Err(ErrorCode::AlreadyClaimed))
    } else if issued == u64::MAX {
        (with_claim(bm, cert_id), issued, Err(ErrorCode::MathOverflow))
    } else {
        (with_claim(bm, cert_id), (issued + 1) as u64, Ok(()))
    }
}

/// Number of set bits of `b` below position `n`.
pub open spec fn ones_below(b: u8, n: nat) -> nat
    decreases n,
{
    if n == 0 {
        0
    } else {
        ones_below(b, (n - 1) as nat) + if b & (1u8 << ((n - 1) as u8)) != 0 {
            1nat
        } else {
            0nat
        }
    }
}

/// Number of set bits of `b`.
pub open spec fn byte_ones(b: u8) -> nat {
    ones_below(b, 8)
}

/// Number of set bits of the bitmap.
pub open spec fn ones_in(bm: Seq<u8>) -> nat
    decreases bm.len(),
{
    if bm.len() == 0 {
        0
    } else {
        ones_in(bm.drop_last()) + byte_ones(bm.last())
    }
}

/// Setting one bit leaves every other bit as it was.
pub proof fn lemma_set_bit(x: u8, i: u8, j: u8)
    requires
        i < 8,
        j < 8,
    ensures
        ((x | (1u8 << i)) & (1u8 << j) != 0) == (i == j || x & (1u8 << j) != 0),
{
    assert(((x | (1u8 << i)) & (1u8 << j) != 0) == (i == j || x & (1u8 << j) != 0))
        by (bit_vector)
        requires
            i < 8,
            j < 8,
    ;
}

proof fn lemma_zero_byte(j: u8)
    requires
        j < 8,
    ensures
        0u8 & (1u8 << j) == 0,
{
    assert(0u8 & (1u8 << j) == 0) by (bit_vector);
}

proof fn lemma_ones_below_set(x: u8, i: u8, n: nat)
    requires
        i < 8,
        n <= 8,
        x & (1u8 << i) == 0,
    ensures
        ones_below(x | (1u8 << i), n) == ones_below(x, n) + if (i as nat) < n {
            1nat
        } else {
            0nat
        },
    decreases n,
{
    if n > 0 {
        lemma_ones_below_set(x, i, (n - 1) as nat);
        lemma_set_bit(x, i, (n - 1) as u8);
    }
}

proof fn lemma_ones_below_zero(n: nat)
    requires
        n <= 8,
    ensures
        ones_below(0, n) == 0,
    decreases n,
{
    if n > 0 {
        lemma_ones_below_zero((n - 1) as nat);
        lemma_zero_byte((n - 1) as u8);
    }
}

/// Replacing one byte changes the count by the difference of the two bytes.
proof fn lemma_ones_in_update(bm: Seq<u8>, k: int, v: u8)
    requires
        0 <= k < bm.len(),
    ensures
        ones_in(bm.update(k, v)) + byte_ones(bm[k]) == ones_in(bm) + byte_ones(v),
    decreases bm.len(),
{
    let u = bm.update(k, v);
    if k == bm.len() - 1 {
        assert(u.drop_last() =~= bm.drop_last());
    } else {
        assert(u.drop_last() =~= bm.drop_last().update(k, v));
        lemma_ones_in_update(bm.drop_last(), k, v);
    }
}

/// A bitmap of zero bytes has no bit set.
pub proof fn lemma_zero_bitmap(bm: Seq<u8>)
    requires
        forall|k: int| 0 <= k < bm.len() ==> bm[k] == 0,
    ensures
        ones_in(bm) == 0,
        forall|c: u32| byte_of(c) < bm.len() ==> !#[trigger] is_claimed(bm, c),
    decreases bm.len(),
{
    if bm.len() > 0 {
        lemma_zero_bitmap(bm.drop_last());
        lemma_ones_below_zero(8);
    }
    assert forall|c: u32| byte_of(c) < bm.len() implies !#[trigger] is_claimed(bm, c) by {
        lemma_zero_byte((c % 8) as u8);
    }
}

/// Setting an unset bit adds exactly one to the bitmap's count of set bits.
pub proof fn lemma_claim_adds_one(bm: Seq<u8>, cert_id: u32)
    requires
        byte_of(cert_id) < bm.len(),
        !is_claimed(bm, cert_id),
    ensures
        ones_in(with_claim(bm, cert_id)) == ones_in(bm) + 1,
{
    let k = byte_of(cert_id);
    lemma_ones_below_set(bm[k], (cert_id % 8) as u8, 8);
    lemma_ones_in_update(bm, k, bm[k] | mask_of(cert_id));
}

/// Setting the bit of `cert_id` leaves the bit of every other certificate as it was.
pub proof fn lemma_claim_keeps_others(bm: Seq<u8>, cert_id: u32, other: u32)
    requires
        byte_of(cert_id) < bm.len(),
        byte_of(other) < bm.len(),
    ensures
        is_claimed(with_claim(bm, cert_id), other) == (other == cert_id || is_claimed(bm, other)),
{
    if byte_of(other) == byte_of(cert_id) {
        lemma_set_bit(bm[byte_of(cert_id)], (cert_id % 8) as u8, (other % 8) as u8);
    }
}

/// Bitmap, issued count, and whether every claim succeeded, after claiming
/// `ids` in order starting from `bm` and `issued`.
pub open spec fn run_claims(bm: Seq<u8>, issued: u64, ids: Seq<u32>) -> (Seq<u8>, u64, bool)
    decreases ids.len(),
{
    if ids.len() == 0 {
        (bm, issued, true)
    } else {
        let (b, n, ok) = run_claims(bm, issued, ids.drop_last());
        let (b2, n2, r) = claim_outcome(b, n, ids.last());
        (b2, n2, ok && r is Ok)
    }
}

/// The first claim of an unclaimed certificate, with room left in the count,
/// succeeds and sets its bit; a claim of a certificate already claimed fails
/// with `AlreadyClaimed` and leaves bitmap and count as they were. A claim of
/// any certificate never clears the bit of another.
pub proof fn lemma_claim_at_most_once(bm: Seq<u8>, issued: u64, cert_id: u32, other: u32)
    requires
        byte_of(cert_id) < bm.len(),
        byte_of(other) < bm.len(),
    ensures
        !is_claimed(bm, cert_id) && issued < u64::MAX ==> {
            let (b, n, r) = claim_outcome(bm, issued, cert_id);
            &&& r is Ok
            &&& is_claimed(b, cert_id)
            &&& n == issued + 1
        },
        is_claimed(bm, cert_id) ==> claim_outcome(bm, issued, cert_id) == (
            bm,
            issued,
            Err::<(), ErrorCode>(ErrorCode::AlreadyClaimed),
        ),
        is_claimed(bm, other) ==> is_claimed(claim_outcome(bm, issued, cert_id).0, other),
{
    lemma_claim_keeps_others(bm, cert_id, cert_id);
    lemma_claim_keeps_others(bm, cert_id, other);
}

/// After `k` distinct successful claims on a batch whose bitmap started at
/// zero and whose count started at zero, the count is `k` and exactly `k` bits
/// are set: each of the `k` claims succeeds, and the set bits are those of the
/// claimed certificates.
pub proof fn lemma_counter_consistency(bm: Seq<u8>, ids: Seq<u32>)
    requires
        forall|k: int| 0 <= k < bm.len() ==> bm[k] == 0,
        forall|j: int| 0 <= j < ids.len() ==> byte_of(#[trigger] ids[j]) < bm.len(),
        ids.no_duplicates(),
        ids.len() < u64::MAX,
    ensures
        ({
            let (b, n, ok) = run_claims(bm, 0, ids);
            &&& ok
            &&& n == ids.len()
            &&& ones_in(b) == ids.len()
            &&& b.len() == bm.len()
            &&& forall|c: u32| byte_of(c) < bm.len() ==> (#[trigger] is_claimed(b, c) <==> ids.contains(c))
        }),
    decreases ids.len(),
{
    lemma_zero_bitmap(bm);
    if ids.len() > 0 {
        let pre = ids.drop_last();
        let last = ids.last();
        assert forall|j: int| 0 <= j < pre.len() implies byte_of(#[trigger] pre[j]) < bm.len() by {
            assert(pre[j] == ids[j]);
        }
        lemma_counter_consistency(bm, pre);
        let (b, n, ok) = run_claims(bm, 0, pre);
        assert(ids[ids.len() - 1] == last);
        assert(!pre.contains(last)) by {
            if pre.contains(last) {
                let j = choose|j: int| 0 <= j < pre.len() && pre[j] == last;
                assert(ids[j] == ids[ids.len() - 1]);
            }
        }
        lemma_claim_adds_one(b, last);
        assert(run_claims(bm, 0, ids) == (with_claim(b, last), (n + 1) as u64, true));
        assert forall|c: u32| byte_of(c) < bm.len() implies (#[trigger] is_claimed(
            with_claim(b, last),
            c,
        ) <==> ids.contains(c)) by {
            lemma_claim_keeps_others(b, last, c);
            if ids.contains(c) && c != last {
                let j = choose|j: int| 0 <= j < ids.len() && ids[j] == c;
                assert(pre[j] == c);
            }
            if pre.contains(c) {
                let j = choose|j: int| 0 <= j < pre.len() && pre[j] == c;
                assert(ids[j] == c);
            }
        }
    }
}

} // verus!
