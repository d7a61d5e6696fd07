use vstd::prelude::*;
use sha2::Digest;
use crate::keys::Pubkey;

verus! {

broadcast use vstd::array::group_array_axioms;

/// The SHA-256 digest of a byte string.
pub uninterp spec fn sha256_of(data: Seq<u8>) -> Seq<u8>;

/// Relies on sha2::Sha256 (through `Digest::digest`): the 32-byte SHA-256
/// digest of the buffer, which depends on its bytes alone.
#[verifier::external_body]
fn sha256(data: &[u8; 64]) -> (r: [u8; 32])
    ensures
        r@ == sha256_of(data@),
{
    sha2::Sha256::digest(data).into()
}

/// Whether `a` comes no later than `b` when the two are compared byte by byte
/// from index `i` on: the first byte where they differ decides.
pub open spec fn orders_first_from(a: Pubkey, b: Pubkey, i: int) -> bool
    decreases 32 - i,
{
    if i < 0 || i >= 32 {
        true
    } else if a[i] != b[i] {
        a[i] < b[i]
    } else {
        orders_first_from(a, b, i + 1)
    }
}

/// The 64 bytes that name the conversation between `a` and `b`: the smaller key
/// first, then the larger. Two equal keys have no smaller one and give 64 zero bytes.
pub open spec fn chat_preimage(a: Pubkey, b: Pubkey) -> Seq<u8> {
    if a == b {
        Seq::new(64, |i: int| 0u8)
    } else if orders_first_from(a, b, 0) {
        a@ + b@
    } else {
        b@ + a@
    }
}

/// The conversation key of the pair `a`, `b`.
pub open spec fn chat_digest(a: Pubkey, b: Pubkey) -> Seq<u8> {
    sha256_of(chat_preimage(a, b))
}

/// Lays the two keys out in one buffer, the smaller first. The loop stops at
/// the first byte where the keys differ; equal keys leave the buffer zeroed.
pub fn chat_buffer(a: &Pubkey, b: &Pubkey) -> (c: [u8; 64])
    ensures
        c@ == chat_preimage(*a, *b),
{
    let mut c: [u8; 64] = [0u8; 64];
    let mut i: usize = 0;
    let mut decided = false;
    while i < 32
        invariant_except_break
            !decided,
        invariant
            0 <= i <= 32,
            forall|j: int| 0 <= j < i ==> a[j] == b[j],
            orders_first_from(*a, *b, 0) == orders_first_from(*a, *b, i as int),
            c@ == Seq::new(64, |k: int| 0u8),
        ensures
            c@ == Seq::new(64, |k: int| 0u8),
            forall|j: int| 0 <= j < i ==> a[j] == b[j],
            orders_first_from(*a, *b, 0) == orders_first_from(*a, *b, i as int),
            decided ==> i < 32 && a[i as int] != b[i as int],
            !decided ==> i == 32,
        decreases 32 - i,
    {
        if a[i] != b[i] {
            decided = true;
            break;
        }
        i = i + 1;
    }
    if !decided {
        assert(*a =~= *b);
        assert(c@ =~= chat_preimage(*a, *b));
        return c;
    }
    assert(*a != *b) by {
        assert(a[i as int] != b[i as int]);
    }
    let a_first = a[i] < b[i];
    let mut k: usize = 0;
    while k < 32
        invariant
            0 <= k <= 32,
            c@.len() == 64,
            forall|j: int|
                0 <= j < k ==> c@[j] == (if a_first { a[j] } else { b[j] }),
            forall|j: int|
                0 <= j < k ==> c@[32 + j] == (if a_first { b[j] } else { a[j] }),
        decreases 32 - k,
    {
        if a_first {
            c[k] = a[k];
            c[k + 32] = b[k];
        } else {
            c[k] = b[k];
            c[k + 32] = a[k];
        }
        k = k + 1;
    }
    assert(c@ =~= chat_preimage(*a, *b));
    c
}

/// The conversation key of two users: SHA-256 over both keys, the smaller first.
pub fn get_chat_hash(a: &Pubkey, b: &Pubkey) -> (r: [u8; 32])
    ensures
        r@ == chat_digest(*a, *b),
{
    let c = chat_buffer(a, b);
    sha256(&c)
}

proof fn lemma_orders_total(a: Pubkey, b: Pubkey, i: int)
    requires
        0 <= i <= 32,
    ensures
        orders_first_from(a, b, i) || orders_first_from(b, a, i),
        orders_first_from(a, b, i) && orders_first_from(b, a, i) ==> forall|j: int|
            i <= j < 32 ==> a[j] == b[j],
    decreases 32 - i,
{
    if i < 32 {
        lemma_orders_total(a, b, i + 1);
    }
}

/// The conversation key does not depend on which of the two users is named
/// first: both orders lay out the same bytes, so they hash alike.
pub proof fn chat_digest_commutes(a: Pubkey, b: Pubkey)
    ensures
        chat_digest(a, b) == chat_digest(b, a),
{
    if a != b {
        lemma_orders_total(a, b, 0);
        if orders_first_from(a, b, 0) && orders_first_from(b, a, 0) {
            assert(a =~= b);
        }
    }
    assert(chat_preimage(a, b) =~= chat_preimage(b, a));
}

} // verus!
