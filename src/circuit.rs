use vstd::prelude::*;
use crate::keys::{keys_equal, Pubkey};

verus! {

broadcast use vstd::array::group_array_axioms;

/// The number of slots in a contact list. Every query walks all of them.
pub const MAX_CONTACTS: usize = 100;

/// Slot states of the contact list mirror.
pub const STATUS_EMPTY: u8 = 0;
pub const STATUS_PENDING: u8 = 1;
pub const STATUS_ACCEPTED: u8 = 2;
pub const STATUS_REJECTED: u8 = 3;
pub const STATUS_BLOCKED: u8 = 4;

/// One slot of the mirror: a peer and its status.
#[derive(Debug, Clone, Copy, PartialEq, Eq)]
pub struct ContactEntry {
    pub pubkey: [u8; 32],
    pub status: u8,
}

/// The owner's contact list as the private computation sees it: a fixed
/// number of slots, of which the first `count` are in use.
#[derive(Debug, Clone, Copy)]
pub struct ContactList {
    pub contacts: [ContactEntry; 100],
    pub count: u32,
}

pub struct AddInput {
    pub a: u32,
    pub b: u32,
}

/// Slot `i` is in use and holds an accepted contact.
pub open spec fn slot_accepted(list: ContactList, i: int) -> bool {
    i < list.count && list.contacts[i].status == STATUS_ACCEPTED
}

/// Slot `i` is in use and holds `q` as an accepted contact.
pub open spec fn slot_matches(list: ContactList, q: Pubkey, i: int) -> bool {
    slot_accepted(list, i) && list.contacts[i].pubkey == q
}

/// Some slot in use holds `q` as an accepted contact.
pub open spec fn has_accepted(list: ContactList, q: Pubkey) -> bool {
    exists|i: int| 0 <= i < MAX_CONTACTS && #[trigger] slot_matches(list, q, i)
}

/// The number of slots below `n` that are in use and accepted.
pub open spec fn accepted_below(list: ContactList, n: int) -> nat
    decreases n,
{
    if n <= 0 {
        0
    } else {
        accepted_below(list, n - 1) + if slot_accepted(list, n - 1) {
            1nat
        } else {
            0nat
        }
    }
}

/// Whether `query_pubkey` is an accepted contact in the list. All slots are
/// visited and every test is made on each, so that neither the number of
/// steps nor the branches taken depend on `count` or on the entries.
pub fn is_accepted_contact(list: &ContactList, query_pubkey: &Pubkey) -> (r: bool)
    ensures
        r == has_accepted(*list, *query_pubkey),
{
    let mut hits: u32 = 0;
    let mut i: usize = 0;
    while i < MAX_CONTACTS
        invariant
            0 <= i <= MAX_CONTACTS,
            hits <= i,
            (hits != 0) == exists|j: int| 0 <= j < i && #[trigger] slot_matches(*list, *query_pubkey, j),
        decreases MAX_CONTACTS - i,
    {
        let active = ((i as u64) < (list.count as u64)) as u32;
        let entry = list.contacts[i];
        let same_key = keys_equal(&entry.pubkey, query_pubkey) as u32;
        let accepted = (entry.status == STATUS_ACCEPTED) as u32;
        let hit = (active + same_key + accepted == 3) as u32;
        proof {
            assert((hit == 1) == slot_matches(*list, *query_pubkey, i as int));
        }
        hits = hits + hit;
        i = i + 1;
    }
    hits != 0
}

/// The number of accepted contacts among the slots in use, counted over all
/// slots with no branch on their contents.
pub fn count_accepted(list: &ContactList) -> (r: u32)
    ensures
        r == accepted_below(*list, MAX_CONTACTS as int),
{
    let mut count: u32 = 0;
    let mut i: usize = 0;
    while i < MAX_CONTACTS
        invariant
            0 <= i <= MAX_CONTACTS,
            count == accepted_below(*list, i as int),
            count <= i,
        decreases MAX_CONTACTS - i,
    {
        let active = ((i as u64) < (list.count as u64)) as u32;
        let accepted = (list.contacts[i].status == STATUS_ACCEPTED) as u32;
        let hit = (active + accepted == 2) as u32;
        proof {
            assert((hit == 1) == slot_accepted(*list, i as int));
        }
        count = count + hit;
        i = i + 1;
    }
    count
}

/// The sum of the two inputs.
pub fn add_two_numbers(input: &AddInput) -> (r: u32)
    requires
        input.a + input.b <= u32::MAX,
    ensures
        r == input.a + input.b,
{
    input.a + input.b
}

/// Slots past `count` never count, whatever bytes they hold: two lists that
/// agree on the slots in use give the same answers.
pub proof fn unused_slots_ignored(a: ContactList, b: ContactList, q: Pubkey)
    requires
        a.count == b.count,
        forall|i: int| 0 <= i < MAX_CONTACTS && i < a.count ==> a.contacts[i] == b.contacts[i],
    ensures
        has_accepted(a, q) == has_accepted(b, q),
        accepted_below(a, MAX_CONTACTS as int) == accepted_below(b, MAX_CONTACTS as int),
{
    assert forall|i: int| 0 <= i < MAX_CONTACTS implies slot_matches(a, q, i) == slot_matches(b, q, i) by {
        if i < a.count {
            assert(a.contacts[i] == b.contacts[i]);
        }
    }
    lemma_accepted_below_agree(a, b, MAX_CONTACTS as int);
}

proof fn lemma_accepted_below_agree(a: ContactList, b: ContactList, n: int)
    requires
        0 <= n <= MAX_CONTACTS,
        a.count == b.count,
        forall|i: int| 0 <= i < MAX_CONTACTS && i < a.count ==> a.contacts[i] == b.contacts[i],
    ensures
        accepted_below(a, n) == accepted_below(b, n),
    decreases n,
{
    if n > 0 {
        lemma_accepted_below_agree(a, b, n - 1);
        if n - 1 < a.count {
            assert(a.contacts[n - 1] == b.contacts[n - 1]);
        }
    }
}

/// A key that no slot in use holds is never an accepted contact.
pub proof fn absent_key_not_accepted(list: ContactList, q: Pubkey)
    requires
        forall|i: int| 0 <= i < MAX_CONTACTS && i < list.count ==> list.contacts[i].pubkey != q,
    ensures
        !has_accepted(list, q),
{
}

/// An empty list counts no accepted contact; a full list whose entries are
/// all accepted counts every slot.
pub proof fn count_of_empty_and_full(list: ContactList)
    ensures
        list.count == 0 ==> accepted_below(list, MAX_CONTACTS as int) == 0,
        list.count >= MAX_CONTACTS && (forall|i: int|
            0 <= i < MAX_CONTACTS ==> list.contacts[i].status == STATUS_ACCEPTED) ==> accepted_below(
            list,
            MAX_CONTACTS as int,
        ) == MAX_CONTACTS,
{
    lemma_count_extremes(list, MAX_CONTACTS as int);
}

proof fn lemma_count_extremes(list: ContactList, n: int)
    requires
        0 <= n <= MAX_CONTACTS,
    ensures
        list.count == 0 ==> accepted_below(list, n) == 0,
        list.count >= n && (forall|i: int|
            0 <= i < MAX_CONTACTS ==> list.contacts[i].status == STATUS_ACCEPTED) ==> accepted_below(
            list,
            n,
        ) == n,
    decreases n,
{
    if n > 0 {
        lemma_count_extremes(list, n - 1);
    }
}

} // verus!
