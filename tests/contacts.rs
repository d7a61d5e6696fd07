use mukon_messenger::chat::{chat_buffer, get_chat_hash};
use mukon_messenger::contacts::{
    accept, block, invite, invite_with_expected, lookup_state, reject, unblock, Conversation,
    Peer, PeerState, WalletDescriptor,
};
use mukon_messenger::error::ErrorCode;
use sha2::{Digest, Sha256};

fn key(first: u8, last: u8) -> [u8; 32] {
    let mut k = [7u8; 32];
    k[0] = first;
    k[31] = last;
    k
}

fn owned(owner: [u8; 32]) -> WalletDescriptor {
    WalletDescriptor { owner, peers: vec![] }
}

fn empty_conversation() -> Conversation {
    Conversation { participants: [[0u8; 32]; 2], created_at: 0 }
}

fn state(d: &WalletDescriptor, w: &[u8; 32]) -> Option<PeerState> {
    lookup_state(&d.peers, w)
}

/// Two users with accepted contact of each other.
fn befriended(a: [u8; 32], b: [u8; 32]) -> (WalletDescriptor, WalletDescriptor) {
    let mut da = owned(a);
    let mut db = owned(b);
    let mut conv = empty_conversation();
    let h = get_chat_hash(&a, &b);
    invite(&mut da, &mut db, &mut conv, &a, &b, &h, 10).unwrap();
    accept(&mut db, &mut da, &b, &a).unwrap();
    (da, db)
}

#[test]
fn chat_hash_is_symmetric_and_deterministic() {
    let a = key(1, 9);
    let b = key(2, 0);
    assert_eq!(get_chat_hash(&a, &b), get_chat_hash(&b, &a));
    assert_eq!(get_chat_hash(&a, &b), get_chat_hash(&a, &b));
    let c = key(1, 10);
    assert_eq!(get_chat_hash(&a, &c), get_chat_hash(&c, &a));
    assert_ne!(get_chat_hash(&a, &b), get_chat_hash(&a, &c));
}

#[test]
fn chat_hash_is_sha256_of_ordered_pair() {
    let a = key(5, 1);
    let b = key(3, 200);
    let mut buf = Vec::new();
    buf.extend_from_slice(&b);
    buf.extend_from_slice(&a);
    let want: [u8; 32] = Sha256::digest(&buf).into();
    assert_eq!(get_chat_hash(&a, &b), want);
    assert_eq!(chat_buffer(&a, &b).to_vec(), buf);
}

#[test]
fn chat_hash_of_equal_keys_hashes_zeros() {
    let a = key(4, 4);
    let want: [u8; 32] = Sha256::digest([0u8; 64]).into();
    assert_eq!(chat_buffer(&a, &a), [0u8; 64]);
    assert_eq!(get_chat_hash(&a, &a), want);
}

#[test]
fn invite_sets_both_sides() {
    let a = key(1, 1);
    let b = key(2, 2);
    let mut da = owned(a);
    let mut db = WalletDescriptor { owner: [0u8; 32], peers: vec![] };
    let mut conv = empty_conversation();
    let h = get_chat_hash(&a, &b);
    assert_eq!(invite(&mut da, &mut db, &mut conv, &a, &b, &h, 77), Ok(()));
    assert_eq!(state(&da, &b), Some(PeerState::Invited));
    assert_eq!(state(&db, &a), Some(PeerState::Requested));
    assert_eq!(db.owner, b);
    assert_eq!(conv.participants, [a, b]);
    assert_eq!(conv.created_at, 77);
}

#[test]
fn invite_claims_unowned_record_keeping_its_entries() {
    let a = key(1, 1);
    let b = key(2, 2);
    let other = key(9, 9);
    let mut da = owned(a);
    let mut db = WalletDescriptor {
        owner: [0u8; 32],
        peers: vec![Peer { wallet: other, state: PeerState::Requested }],
    };
    let mut conv = empty_conversation();
    let h = get_chat_hash(&a, &b);
    invite(&mut da, &mut db, &mut conv, &a, &b, &h, 1).unwrap();
    assert_eq!(db.owner, b);
    assert_eq!(
        db.peers,
        vec![Peer { wallet: other, state: PeerState::Requested }, Peer { wallet: a, state: PeerState::Requested }]
    );
}

#[test]
fn unclaimed_record_entries_still_refuse_invite() {
    let a = key(1, 1);
    let b = key(2, 2);
    let mut conv = empty_conversation();
    let h = get_chat_hash(&a, &b);
    for held in [PeerState::Blocked, PeerState::Invited, PeerState::Requested, PeerState::Accepted] {
        let mut da = owned(a);
        let unclaimed = WalletDescriptor { owner: [0u8; 32], peers: vec![Peer { wallet: a, state: held }] };
        let mut db = unclaimed.clone();
        assert_eq!(invite(&mut da, &mut db, &mut conv, &a, &b, &h, 3), Err(ErrorCode::AlreadyInvited));
        assert_eq!(da, owned(a));
        assert_eq!(db, unclaimed);
    }
    assert_eq!(conv, empty_conversation());
}

#[test]
fn block_on_the_all_zero_key_survives_other_invites() {
    let a = key(1, 1);
    let b = key(2, 2);
    let z = [0u8; 32];
    let mut da = owned(a);
    let mut db = owned(b);
    let mut dz = WalletDescriptor { owner: [0u8; 32], peers: vec![] };
    let mut conv = empty_conversation();
    invite(&mut da, &mut dz, &mut conv, &a, &z, &get_chat_hash(&a, &z), 1).unwrap();
    block(&mut da, &mut dz, &a, &z).unwrap();
    invite(&mut db, &mut dz, &mut conv, &b, &z, &get_chat_hash(&b, &z), 2).unwrap();
    assert_eq!(state(&dz, &a), Some(PeerState::Blocked));
    assert_eq!(state(&dz, &b), Some(PeerState::Requested));
    assert_eq!(unblock(&mut da, &mut dz, &a, &z), Ok(()));
    assert_eq!(state(&da, &z), Some(PeerState::Rejected));
}

#[test]
fn invite_with_wrong_hash_fails_and_changes_nothing() {
    let a = key(1, 1);
    let b = key(2, 2);
    let mut da = owned(a);
    let mut db = owned(b);
    let mut conv = empty_conversation();
    let h = get_chat_hash(&a, &key(3, 3));
    assert_eq!(invite(&mut da, &mut db, &mut conv, &a, &b, &h, 5), Err(ErrorCode::InvalidHash));
    assert_eq!(da, owned(a));
    assert_eq!(db, owned(b));
    assert_eq!(conv, empty_conversation());
}

#[test]
fn invite_with_expected_compares_hashes() {
    let a = key(1, 1);
    let b = key(2, 2);
    let mut da = owned(a);
    let mut db = owned(b);
    let mut conv = empty_conversation();
    let r = invite_with_expected(&mut da, &mut db, &mut conv, &a, &b, &[1u8; 32], &[2u8; 32], 5);
    assert_eq!(r, Err(ErrorCode::InvalidHash));
    let r = invite_with_expected(&mut da, &mut db, &mut conv, &a, &b, &[1u8; 32], &[1u8; 32], 5);
    assert_eq!(r, Ok(()));
    assert_eq!(state(&da, &b), Some(PeerState::Invited));
}

#[test]
fn reinvite_pending_or_accepted_fails() {
    let a = key(1, 1);
    let b = key(2, 2);
    let mut da = owned(a);
    let mut db = owned(b);
    let mut conv = empty_conversation();
    let h = get_chat_hash(&a, &b);
    invite(&mut da, &mut db, &mut conv, &a, &b, &h, 1).unwrap();
    let before = (da.clone(), db.clone());
    assert_eq!(invite(&mut da, &mut db, &mut conv, &a, &b, &h, 2), Err(ErrorCode::AlreadyInvited));
    assert_eq!(invite(&mut db, &mut da, &mut conv, &b, &a, &h, 2), Err(ErrorCode::AlreadyInvited));
    assert_eq!((da.clone(), db.clone()), before);
    accept(&mut db, &mut da, &b, &a).unwrap();
    assert_eq!(invite(&mut da, &mut db, &mut conv, &a, &b, &h, 3), Err(ErrorCode::AlreadyInvited));
}

#[test]
fn reinvite_blocked_fails_from_either_side() {
    let a = key(1, 1);
    let b = key(2, 2);
    let (mut da, mut db) = befriended(a, b);
    block(&mut db, &mut da, &b, &a).unwrap();
    let mut conv = empty_conversation();
    let h = get_chat_hash(&a, &b);
    assert_eq!(invite(&mut da, &mut db, &mut conv, &a, &b, &h, 2), Err(ErrorCode::AlreadyInvited));
    assert_eq!(invite(&mut db, &mut da, &mut conv, &b, &a, &h, 2), Err(ErrorCode::AlreadyInvited));
    // a block held on one side only still refuses
    let mut one_sided = owned(b);
    assert_eq!(
        invite(&mut da, &mut one_sided, &mut conv, &a, &b, &h, 2),
        Err(ErrorCode::AlreadyInvited)
    );
    assert_eq!(conv, empty_conversation());
}

#[test]
fn reinvite_after_reject_succeeds_and_refreshes_conversation() {
    let a = key(1, 1);
    let b = key(2, 2);
    let mut da = owned(a);
    let mut db = owned(b);
    let mut conv = empty_conversation();
    let h = get_chat_hash(&a, &b);
    invite(&mut da, &mut db, &mut conv, &a, &b, &h, 1).unwrap();
    reject(&mut db, &mut da, &b, &a).unwrap();
    assert_eq!(state(&da, &b), Some(PeerState::Rejected));
    assert_eq!(invite(&mut db, &mut da, &mut conv, &b, &a, &h, 9), Ok(()));
    assert_eq!(state(&db, &a), Some(PeerState::Invited));
    assert_eq!(state(&da, &b), Some(PeerState::Requested));
    assert_eq!(da.peers.len(), 1);
    assert_eq!(conv.participants, [b, a]);
    assert_eq!(conv.created_at, 9);
}

#[test]
fn accept_needs_requested_and_invited() {
    let a = key(1, 1);
    let b = key(2, 2);
    let mut da = owned(a);
    let mut db = owned(b);
    assert_eq!(accept(&mut db, &mut da, &b, &a), Err(ErrorCode::NotRequested));
    let mut conv = empty_conversation();
    let h = get_chat_hash(&a, &b);
    invite(&mut da, &mut db, &mut conv, &a, &b, &h, 1).unwrap();
    // the inviter cannot accept its own invitation
    assert_eq!(accept(&mut da, &mut db, &a, &b), Err(ErrorCode::NotRequested));
    // the invitee side is right but the inviter's record is not the one invited
    let mut other = owned(key(3, 3));
    assert_eq!(accept(&mut db, &mut other, &b, &a), Err(ErrorCode::NotInvited));
    assert_eq!(accept(&mut db, &mut da, &b, &a), Ok(()));
    assert_eq!(state(&da, &b), Some(PeerState::Accepted));
    assert_eq!(state(&db, &a), Some(PeerState::Accepted));
    // an accepted pair cannot be accepted again
    assert_eq!(accept(&mut db, &mut da, &b, &a), Err(ErrorCode::NotRequested));
}

#[test]
fn reject_pending_and_accepted() {
    let a = key(1, 1);
    let b = key(2, 2);
    let (mut da, mut db) = befriended(a, b);
    assert_eq!(reject(&mut da, &mut db, &a, &b), Ok(()));
    assert_eq!(state(&da, &b), Some(PeerState::Rejected));
    assert_eq!(state(&db, &a), Some(PeerState::Rejected));
    assert_eq!(reject(&mut da, &mut db, &a, &b), Err(ErrorCode::NotRequested));
}

#[test]
fn reject_errors() {
    let a = key(1, 1);
    let b = key(2, 2);
    let mut da = owned(a);
    let mut db = owned(b);
    let mut conv = empty_conversation();
    let h = get_chat_hash(&a, &b);
    invite(&mut da, &mut db, &mut conv, &a, &b, &h, 1).unwrap();
    // the inviter holds Invited, not Requested
    assert_eq!(reject(&mut da, &mut db, &a, &b), Err(ErrorCode::NotRequested));
    let mut other = owned(key(3, 3));
    assert_eq!(reject(&mut db, &mut other, &b, &a), Err(ErrorCode::NotInvited));
    assert_eq!(state(&db, &a), Some(PeerState::Requested));
}

#[test]
fn block_then_unblock_lands_in_rejected() {
    let a = key(1, 1);
    let b = key(2, 2);
    let (mut da, mut db) = befriended(a, b);
    assert_eq!(block(&mut da, &mut db, &a, &b), Ok(()));
    assert_eq!(state(&da, &b), Some(PeerState::Blocked));
    assert_eq!(state(&db, &a), Some(PeerState::Blocked));
    assert_eq!(unblock(&mut db, &mut da, &b, &a), Ok(()));
    assert_eq!(state(&da, &b), Some(PeerState::Rejected));
    assert_eq!(state(&db, &a), Some(PeerState::Rejected));
    assert_eq!(unblock(&mut db, &mut da, &b, &a), Err(ErrorCode::NotInvited));
}

#[test]
fn block_needs_entries_on_both_sides() {
    let a = key(1, 1);
    let b = key(2, 2);
    let mut da = owned(a);
    let mut db = owned(b);
    assert_eq!(block(&mut da, &mut db, &a, &b), Err(ErrorCode::NotInvited));
    da.peers.push(Peer { wallet: b, state: PeerState::Invited });
    assert_eq!(block(&mut da, &mut db, &a, &b), Err(ErrorCode::NotInvited));
    assert_eq!(state(&da, &b), Some(PeerState::Invited));
}

#[test]
fn unblock_needs_block_on_both_sides() {
    let a = key(1, 1);
    let b = key(2, 2);
    let (mut da, mut db) = befriended(a, b);
    assert_eq!(unblock(&mut da, &mut db, &a, &b), Err(ErrorCode::NotInvited));
    assert_eq!(state(&da, &b), Some(PeerState::Accepted));
}

#[test]
fn operations_keep_other_entries() {
    let a = key(1, 1);
    let b = key(2, 2);
    let c = key(3, 3);
    let (mut da, mut db) = befriended(a, b);
    da.peers.insert(0, Peer { wallet: c, state: PeerState::Requested });
    block(&mut da, &mut db, &a, &b).unwrap();
    assert_eq!(state(&da, &c), Some(PeerState::Requested));
    assert_eq!(da.peers[1], Peer { wallet: b, state: PeerState::Blocked });
}

#[test]
fn error_messages() {
    assert_eq!(ErrorCode::GroupFull.message(), "Group is full");
    assert_eq!(ErrorCode::InvalidTokenAccount.message(), "Token account does not belong to user");
}
