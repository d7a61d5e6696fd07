use vstd::prelude::*;

verus! {

broadcast use vstd::array::group_array_axioms;

/// A public key that names a user, a token mint or an account.
pub type Pubkey = [u8; 32];

/// The all-zero key, which an account that nobody has claimed yet holds.
pub open spec fn is_default_key(k: Pubkey) -> bool {
    forall|i: int| 0 <= i < 32 ==> #[trigger] k[i] == 0u8
}

/// Byte-wise equality of two keys. Every byte is compared, whatever the
/// earlier ones were, so the running time says nothing about the keys.
pub fn keys_equal(a: &Pubkey, b: &Pubkey) -> (r: bool)
    ensures
        r == (*a == *b),
{
    let mut equal_bytes: u32 = 0;
    let mut i: usize = 0;
    while i < 32
        invariant
            0 <= i <= 32,
            equal_bytes <= i,
            (equal_bytes == i) == (forall|j: int| 0 <= j < i ==> a[j] == b[j]),
        decreases 32 - i,
    {
        equal_bytes = equal_bytes + (a[i] == b[i]) as u32;
        i = i + 1;
    }
    let same = equal_bytes == 32;
    proof {
        if same {
            assert(*a =~= *b);
        }
    }
    same
}

/// Whether a key is the all-zero key.
pub fn is_default(k: &Pubkey) -> (r: bool)
    ensures
        r == is_default_key(*k),
{
    let mut zero_bytes: u32 = 0;
    let mut i: usize = 0;
    while i < 32
        invariant
            0 <= i <= 32,
            zero_bytes <= i,
            (zero_bytes == i) == (forall|j: int| 0 <= j < i ==> k[j] == 0u8),
        decreases 32 - i,
    {
        zero_bytes = zero_bytes + (k[i] == 0u8) as u32;
        i = i + 1;
    }
    zero_bytes == 32
}

} // verus!
