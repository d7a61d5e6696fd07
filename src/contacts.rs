use vstd::prelude::*;
use crate::chat::{chat_digest, get_chat_hash};
use crate::error::ErrorCode;
use crate::keys::{is_default, is_default_key, keys_equal, Pubkey};

verus! {

broadcast use vstd::array::group_array_axioms;

/// What one user holds about another.
#[derive(Debug, Clone, Copy, PartialEq, Eq, Structural)]
pub enum PeerState {
    /// This user sent an invitation that the other has not answered.
    Invited,
    /// The other user sent this one an invitation.
    Requested,
    Accepted,
    Rejected,
    Blocked,
}

/// One entry of a user's contact list.
#[derive(Debug, Clone, Copy, PartialEq, Eq)]
pub struct Peer {
    pub wallet: Pubkey,
    pub state: PeerState,
}

/// A user's record of contacts. A peer's entry is the first one that names
/// it; a well-formed list names each peer at most once.
#[derive(Debug, Clone, PartialEq, Eq)]
pub struct WalletDescriptor {
    pub owner: Pubkey,
    pub peers: Vec<Peer>,
}

/// The record of a conversation between two users, keyed by their chat hash.
#[derive(Debug, Clone, Copy, PartialEq, Eq)]
pub struct Conversation {
    pub participants: [Pubkey; 2],
    pub created_at: i64,
}

/// The index, at `i` or later, of the first entry for `w`; -1 when none is.
pub open spec fn find_index(peers: Seq<Peer>, w: Pubkey, i: int) -> int
    decreases peers.len() - i,
{
    if i < 0 || i >= peers.len() {
        -1
    } else if peers[i].wallet == w {
        i
    } else {
        find_index(peers, w, i + 1)
    }
}

/// The state that a contact list holds for the peer `w`, if it has an entry for it.
pub open spec fn state_of(peers: Seq<Peer>, w: Pubkey) -> Option<PeerState> {
    let k = find_index(peers, w, 0);
    if k < 0 {
        None
    } else {
        Some(peers[k].state)
    }
}

/// The list with the entry for `w` set to `s`; unchanged where there is no entry.
pub open spec fn with_state(peers: Seq<Peer>, w: Pubkey, s: PeerState) -> Seq<Peer> {
    let k = find_index(peers, w, 0);
    if k < 0 {
        peers
    } else {
        peers.update(k, Peer { wallet: w, state: s })
    }
}

/// The list with the entry for `w` set to `s`, or with a new entry at its end.
pub open spec fn upsert(peers: Seq<Peer>, w: Pubkey, s: PeerState) -> Seq<Peer> {
    if find_index(peers, w, 0) < 0 {
        peers.push(Peer { wallet: w, state: s })
    } else {
        with_state(peers, w, s)
    }
}

/// No peer has two entries.
pub open spec fn peers_unique(peers: Seq<Peer>) -> bool {
    forall|i: int, j: int|
        0 <= i < peers.len() && 0 <= j < peers.len() && i != j ==> peers[i].wallet
            != peers[j].wallet
}

impl WalletDescriptor {
    /// Each peer has at most one entry.
    pub open spec fn wf(&self) -> bool {
        peers_unique(self.peers@)
    }

    /// The state this user holds for `w`.
    pub open spec fn state_for(&self, w: Pubkey) -> Option<PeerState> {
        state_of(self.peers@, w)
    }
}

/// The contact list that a record holds once its user registers: a record
/// that no one owns yet starts empty.
pub open spec fn claimed_peers(d: WalletDescriptor) -> Seq<Peer> {
    if is_default_key(d.owner) {
        Seq::empty()
    } else {
        d.peers@
    }
}

/// The owner that a record has once an invitation to `w` claims it, if no one
/// owned it; its entries are kept.
pub open spec fn claimed_owner(d: WalletDescriptor, w: Pubkey) -> Pubkey {
    if is_default_key(d.owner) {
        w
    } else {
        d.owner
    }
}

/// Whether a side of a pair may be invited: it has no entry or a rejected one.
pub open spec fn may_invite(s: Option<PeerState>) -> bool {
    s is None || s == Some(PeerState::Rejected)
}

/// The outcome of an invitation from `inviter` to `invitee`, given both
/// contact lists (the invitee's as claimed), the chat hash of the pair and the
/// hash the inviter supplied.
pub open spec fn invite_verdict(
    inviter_peers: Seq<Peer>,
    invitee_peers: Seq<Peer>,
    inviter: Pubkey,
    invitee: Pubkey,
    expected: Seq<u8>,
    hash: Seq<u8>,
) -> Result<(), ErrorCode> {
    if hash != expected {
        Err(ErrorCode::InvalidHash)
    } else if !may_invite(state_of(inviter_peers, invitee)) || !may_invite(
        state_of(invitee_peers, inviter),
    ) {
        Err(ErrorCode::AlreadyInvited)
    } else {
        Ok(())
    }
}

/// `find_index` gives the first entry for `w` at `i` or later, or -1 when there is none.
pub proof fn lemma_find_index(peers: Seq<Peer>, w: Pubkey, i: int)
    requires
        0 <= i,
    ensures
        ({
            let r = find_index(peers, w, i);
            (r == -1 && forall|j: int| i <= j < peers.len() ==> peers[j].wallet != w) || (i <= r
                < peers.len() && peers[r].wallet == w && forall|j: int|
                i <= j < r ==> peers[j].wallet != w)
        }),
    decreases peers.len() - i,
{
    if i < peers.len() && peers[i].wallet != w {
        lemma_find_index(peers, w, i + 1);
    }
}

/// The first entry for `w` is at `k` when `k` names `w` and no earlier entry does.
pub proof fn lemma_find_index_at(peers: Seq<Peer>, w: Pubkey, k: int)
    requires
        0 <= k < peers.len(),
        peers[k].wallet == w,
        forall|j: int| 0 <= j < k ==> peers[j].wallet != w,
    ensures
        find_index(peers, w, 0) == k,
{
    lemma_find_index(peers, w, 0);
}

/// Setting the entry for `w` keeps every other peer's state, and the list's well-formedness.
pub proof fn lemma_with_state(peers: Seq<Peer>, w: Pubkey, s: PeerState)
    ensures
        state_of(peers, w) is Some ==> state_of(with_state(peers, w, s), w) == Some(s),
        state_of(peers, w) is None ==> with_state(peers, w, s) == peers,
        forall|v: Pubkey| v != w ==> state_of(with_state(peers, w, s), v) == state_of(peers, v),
        peers_unique(peers) ==> peers_unique(with_state(peers, w, s)),
        with_state(peers, w, s).len() == peers.len(),
{
    lemma_find_index(peers, w, 0);
    let k = find_index(peers, w, 0);
    if k >= 0 {
        let q = with_state(peers, w, s);
        lemma_find_index_at(q, w, k);
        assert forall|v: Pubkey| v != w implies state_of(q, v) == state_of(peers, v) by {
            lemma_find_index(peers, v, 0);
            lemma_find_index(q, v, 0);
            let kv = find_index(peers, v, 0);
            let kq = find_index(q, v, 0);
            if kv >= 0 {
                lemma_find_index_at(q, v, kv);
            } else if kq >= 0 {
                assert(peers[kq].wallet == v);
            }
        }
    }
}

/// Inserting or setting the entry for `w` leaves it at `s` and keeps every other
/// peer's state, and the list's well-formedness.
pub proof fn lemma_upsert(peers: Seq<Peer>, w: Pubkey, s: PeerState)
    ensures
        state_of(upsert(peers, w, s), w) == Some(s),
        forall|v: Pubkey| v != w ==> state_of(upsert(peers, w, s), v) == state_of(peers, v),
        peers_unique(peers) ==> peers_unique(upsert(peers, w, s)),
        upsert(peers, w, s).len() == peers.len() + if state_of(peers, w) is None {
            1int
        } else {
            0int
        },
{
    lemma_with_state(peers, w, s);
    lemma_find_index(peers, w, 0);
    if find_index(peers, w, 0) < 0 {
        let q = upsert(peers, w, s);
        lemma_find_index_at(q, w, peers.len() as int);
        assert forall|v: Pubkey| v != w implies state_of(q, v) == state_of(peers, v) by {
            lemma_find_index(peers, v, 0);
            lemma_find_index(q, v, 0);
            let kv = find_index(peers, v, 0);
            if kv >= 0 {
                lemma_find_index_at(q, v, kv);
            }
        }
    }
}

/// The index of the entry for `w`, as `find_index` gives it.
fn position(peers: &Vec<Peer>, w: &Pubkey) -> (r: Option<usize>)
    ensures
        match r {
            None => find_index(peers@, *w, 0) == -1,
            Some(k) => k as int == find_index(peers@, *w, 0) && k < peers@.len(),
        },
{
    let mut i: usize = 0;
    while i < peers.len()
        invariant
            0 <= i <= peers@.len(),
            forall|j: int| 0 <= j < i ==> peers@[j].wallet != *w,
        decreases peers@.len() - i,
    {
        if keys_equal(&peers[i].wallet, w) {
            proof {
                lemma_find_index_at(peers@, *w, i as int);
            }
            return Some(i);
        }
        i = i + 1;
    }
    proof {
        lemma_find_index(peers@, *w, 0);
    }
    None
}

/// The state held for `w`, if any.
pub fn lookup_state(peers: &Vec<Peer>, w: &Pubkey) -> (r: Option<PeerState>)
    ensures
        r == state_of(peers@, *w),
{
    match position(peers, w) {
        Some(k) => Some(peers[k].state),
        None => None,
    }
}

fn set_state(peers: &mut Vec<Peer>, w: &Pubkey, s: PeerState)
    ensures
        final(peers)@ == with_state(old(peers)@, *w, s),
{
    match position(peers, w) {
        Some(k) => {
            peers.set(k, Peer { wallet: *w, state: s });
        },
        None => {},
    }
}

fn upsert_state(peers: &mut Vec<Peer>, w: &Pubkey, s: PeerState)
    ensures
        final(peers)@ == upsert(old(peers)@, *w, s),
{
    match position(peers, w) {
        Some(k) => {
            peers.set(k, Peer { wallet: *w, state: s });
        },
        None => {
            peers.push(Peer { wallet: *w, state: s });
        },
    }
}

/// The record `new` is `old` with the entry for `w` set to `s`, owner kept.
pub open spec fn transitioned(old: WalletDescriptor, new: WalletDescriptor, w: Pubkey, s: PeerState) -> bool {
    new.owner == old.owner && new.peers@ == with_state(old.peers@, w, s)
}

/// The outcome of `me` accepting the invitation of `peer`.
pub open spec fn accept_verdict(me_peers: Seq<Peer>, peer_peers: Seq<Peer>, me: Pubkey, peer: Pubkey) -> Result<(), ErrorCode> {
    if state_of(me_peers, peer) != Some(PeerState::Requested) {
        Err(ErrorCode::NotRequested)
    } else if state_of(peer_peers, me) != Some(PeerState::Invited) {
        Err(ErrorCode::NotInvited)
    } else {
        Ok(())
    }
}

/// The outcome of `me` turning down the invitation of `peer`, or dropping `peer` as a contact.
pub open spec fn reject_verdict(me_peers: Seq<Peer>, peer_peers: Seq<Peer>, me: Pubkey, peer: Pubkey) -> Result<(), ErrorCode> {
    if !(state_of(me_peers, peer) == Some(PeerState::Requested) || state_of(me_peers, peer) == Some(PeerState::Accepted)) {
        Err(ErrorCode::NotRequested)
    } else if !(state_of(peer_peers, me) == Some(PeerState::Invited) || state_of(peer_peers, me) == Some(PeerState::Accepted)) {
        Err(ErrorCode::NotInvited)
    } else {
        Ok(())
    }
}

/// The outcome of `me` blocking `peer`: both sides must have an entry.
pub open spec fn block_verdict(me_peers: Seq<Peer>, peer_peers: Seq<Peer>, me: Pubkey, peer: Pubkey) -> Result<(), ErrorCode> {
    if state_of(me_peers, peer) is None || state_of(peer_peers, me) is None {
        Err(ErrorCode::NotInvited)
    } else {
        Ok(())
    }
}

/// The outcome of `me` unblocking `peer`: both sides must be blocked.
pub open spec fn unblock_verdict(me_peers: Seq<Peer>, peer_peers: Seq<Peer>, me: Pubkey, peer: Pubkey) -> Result<(), ErrorCode> {
    if state_of(me_peers, peer) != Some(PeerState::Blocked) || state_of(peer_peers, me) != Some(PeerState::Blocked) {
        Err(ErrorCode::NotInvited)
    } else {
        Ok(())
    }
}

fn may_invite_now(s: Option<PeerState>) -> (r: bool)
    ensures
        r == may_invite(s),
{
    match s {
        None => true,
        Some(PeerState::Rejected) => true,
        Some(_) => false,
    }
}

/// Sets both sides of a pair to `s`.
fn set_pair(
    me_descriptor: &mut WalletDescriptor,
    peer_descriptor: &mut WalletDescriptor,
    me: &Pubkey,
    peer: &Pubkey,
    s: PeerState,
)
    ensures
        transitioned(*old(me_descriptor), *final(me_descriptor), *peer, s),
        transitioned(*old(peer_descriptor), *final(peer_descriptor), *me, s),
        old(me_descriptor).wf() ==> final(me_descriptor).wf(),
        old(peer_descriptor).wf() ==> final(peer_descriptor).wf(),
        state_of(old(me_descriptor).peers@, *peer) is Some ==> final(me_descriptor).state_for(*peer) == Some(s),
        state_of(old(peer_descriptor).peers@, *me) is Some ==> final(peer_descriptor).state_for(*me) == Some(s),
{
    proof {
        lemma_with_state(me_descriptor.peers@, *peer, s);
        lemma_with_state(peer_descriptor.peers@, *me, s);
    }
    set_state(&mut me_descriptor.peers, peer, s);
    set_state(&mut peer_descriptor.peers, me, s);
}

/// What an invitation from `inviter` to `invitee` did to the three records it
/// was handed, given its outcome `r`: nothing on a refusal; on success the
/// inviter's entry set or added as `Invited`, the invitee's record claimed
/// (its entries kept) and its entry set or added as `Requested`, and the
/// conversation rewritten. Every other entry of both records is kept.
pub open spec fn invite_effect(
    old_payer: WalletDescriptor,
    new_payer: WalletDescriptor,
    old_invitee: WalletDescriptor,
    new_invitee: WalletDescriptor,
    old_conversation: Conversation,
    new_conversation: Conversation,
    inviter: Pubkey,
    invitee: Pubkey,
    now: i64,
    r: Result<(), ErrorCode>,
) -> bool {
    &&& r is Err ==> new_payer == old_payer && new_invitee == old_invitee && new_conversation
        == old_conversation
    &&& r is Ok ==> {
        &&& new_payer.owner == old_payer.owner
        &&& new_payer.peers@ == upsert(old_payer.peers@, invitee, PeerState::Invited)
        &&& new_invitee.owner == claimed_owner(old_invitee, invitee)
        &&& new_invitee.peers@ == upsert(old_invitee.peers@, inviter, PeerState::Requested)
        &&& new_conversation.participants[0] == inviter
        &&& new_conversation.participants[1] == invitee
        &&& new_conversation.created_at == now
    }
}

/// An invitation checked against `expected`, the chat hash of the pair, which
/// the caller computed; `hash` is the one the inviter supplied. See `invite`.
pub fn invite_with_expected(
    payer_descriptor: &mut WalletDescriptor,
    invitee_descriptor: &mut WalletDescriptor,
    conversation: &mut Conversation,
    inviter: &Pubkey,
    invitee: &Pubkey,
    expected: &[u8; 32],
    hash: &[u8; 32],
    now: i64,
) -> (r: Result<(), ErrorCode>)
    ensures
        r == invite_verdict(
            old(payer_descriptor).peers@,
            old(invitee_descriptor).peers@,
            *inviter,
            *invitee,
            expected@,
            hash@,
        ),
        invite_effect(
            *old(payer_descriptor),
            *final(payer_descriptor),
            *old(invitee_descriptor),
            *final(invitee_descriptor),
            *old(conversation),
            *final(conversation),
            *inviter,
            *invitee,
            now,
            r,
        ),
        r is Ok ==> final(payer_descriptor).state_for(*invitee) == Some(PeerState::Invited)
            && final(invitee_descriptor).state_for(*inviter) == Some(PeerState::Requested),
        r is Ok ==> (forall|k: Pubkey| k != *invitee ==> #[trigger] final(payer_descriptor).state_for(k)
            == old(payer_descriptor).state_for(k)) && (forall|k: Pubkey| k != *inviter
            ==> #[trigger] final(invitee_descriptor).state_for(k) == old(invitee_descriptor).state_for(k)),
        r is Ok ==> final(payer_descriptor).peers@.len() == old(payer_descriptor).peers@.len() + (if old(
            payer_descriptor,
        ).state_for(*invitee) is None { 1int } else { 0int }) && final(invitee_descriptor).peers@.len()
            == old(invitee_descriptor).peers@.len() + (if old(invitee_descriptor).state_for(*inviter) is None {
            1int
        } else {
            0int
        }),
        old(payer_descriptor).wf() ==> final(payer_descriptor).wf(),
        old(invitee_descriptor).wf() ==> final(invitee_descriptor).wf(),
{
    if !keys_equal(expected, hash) {
        proof {
            if expected@ == hash@ {
                assert(*expected =~= *hash);
            }
        }
        return Err(ErrorCode::InvalidHash);
    }
    let inviter_side = lookup_state(&payer_descriptor.peers, invitee);
    let invitee_side = lookup_state(&invitee_descriptor.peers, inviter);
    if !may_invite_now(inviter_side) || !may_invite_now(invitee_side) {
        return Err(ErrorCode::AlreadyInvited);
    }
    proof {
        lemma_upsert(payer_descriptor.peers@, *invitee, PeerState::Invited);
        lemma_upsert(invitee_descriptor.peers@, *inviter, PeerState::Requested);
    }
    upsert_state(&mut payer_descriptor.peers, invitee, PeerState::Invited);
    if is_default(&invitee_descriptor.owner) {
        invitee_descriptor.owner = *invitee;
    }
    upsert_state(&mut invitee_descriptor.peers, inviter, PeerState::Requested);
    conversation.participants = [*inviter, *invitee];
    conversation.created_at = now;
    Ok(())
}

/// `inviter` invites `invitee`. `hash` is the chat hash the caller computed for
/// the pair; it must match. Each side must have no entry for the other or a
/// rejected one; a block on either side refuses the invitation. On success the
/// inviter holds `Invited`, the invitee holds `Requested` (its record is
/// claimed first if no one owned it, keeping its entries), every other entry
/// of both records is kept, and the conversation record is rewritten
/// with the pair and `now`.
pub fn invite(
    payer_descriptor: &mut WalletDescriptor,
    invitee_descriptor: &mut WalletDescriptor,
    conversation: &mut Conversation,
    inviter: &Pubkey,
    invitee: &Pubkey,
    hash: &[u8; 32],
    now: i64,
) -> (r: Result<(), ErrorCode>)
    ensures
        r == invite_verdict(
            old(payer_descriptor).peers@,
            old(invitee_descriptor).peers@,
            *inviter,
            *invitee,
            chat_digest(*inviter, *invitee),
            hash@,
        ),
        invite_effect(
            *old(payer_descriptor),
            *final(payer_descriptor),
            *old(invitee_descriptor),
            *final(invitee_descriptor),
            *old(conversation),
            *final(conversation),
            *inviter,
            *invitee,
            now,
            r,
        ),
        r is Ok ==> final(payer_descriptor).state_for(*invitee) == Some(PeerState::Invited)
            && final(invitee_descriptor).state_for(*inviter) == Some(PeerState::Requested),
        hash@ == chat_digest(*inviter, *invitee) && (old(payer_descriptor).state_for(*invitee)
            == Some(PeerState::Blocked) || state_of(old(invitee_descriptor).peers@, *inviter)
            == Some(PeerState::Blocked)) ==> r == Err::<(), ErrorCode>(ErrorCode::AlreadyInvited),
        r is Ok ==> (forall|k: Pubkey| k != *invitee ==> #[trigger] final(payer_descriptor).state_for(k)
            == old(payer_descriptor).state_for(k)) && (forall|k: Pubkey| k != *inviter
            ==> #[trigger] final(invitee_descriptor).state_for(k) == old(invitee_descriptor).state_for(k)),
        r is Ok ==> final(payer_descriptor).peers@.len() == old(payer_descriptor).peers@.len() + (if old(
            payer_descriptor,
        ).state_for(*invitee) is None { 1int } else { 0int }) && final(invitee_descriptor).peers@.len()
            == old(invitee_descriptor).peers@.len() + (if old(invitee_descriptor).state_for(*inviter) is None {
            1int
        } else {
            0int
        }),
        old(payer_descriptor).wf() ==> final(payer_descriptor).wf(),
        old(invitee_descriptor).wf() ==> final(invitee_descriptor).wf(),
{
    let expected = get_chat_hash(inviter, invitee);
    invite_with_expected(
        payer_descriptor,
        invitee_descriptor,
        conversation,
        inviter,
        invitee,
        &expected,
        hash,
        now,
    )
}

/// `me` accepts the invitation of `peer`: `me` must hold `Requested` and `peer`
/// must hold `Invited`; both then hold `Accepted`.
pub fn accept(
    me_descriptor: &mut WalletDescriptor,
    peer_descriptor: &mut WalletDescriptor,
    me: &Pubkey,
    peer: &Pubkey,
) -> (r: Result<(), ErrorCode>)
    ensures
        r == accept_verdict(old(me_descriptor).peers@, old(peer_descriptor).peers@, *me, *peer),
        r is Err ==> *final(me_descriptor) == *old(me_descriptor) && *final(peer_descriptor) == *old(peer_descriptor),
        r is Ok ==> transitioned(*old(me_descriptor), *final(me_descriptor), *peer, PeerState::Accepted)
            && transitioned(*old(peer_descriptor), *final(peer_descriptor), *me, PeerState::Accepted),
        r is Ok <==> old(me_descriptor).state_for(*peer) == Some(PeerState::Requested)
            && old(peer_descriptor).state_for(*me) == Some(PeerState::Invited),
        r is Ok ==> final(me_descriptor).state_for(*peer) == Some(PeerState::Accepted)
            && final(peer_descriptor).state_for(*me) == Some(PeerState::Accepted),
        old(me_descriptor).wf() ==> final(me_descriptor).wf(),
        old(peer_descriptor).wf() ==> final(peer_descriptor).wf(),
{
    if lookup_state(&me_descriptor.peers, peer) != Some(PeerState::Requested) {
        return Err(ErrorCode::NotRequested);
    }
    if lookup_state(&peer_descriptor.peers, me) != Some(PeerState::Invited) {
        return Err(ErrorCode::NotInvited);
    }
    set_pair(me_descriptor, peer_descriptor, me, peer, PeerState::Accepted);
    Ok(())
}

/// `me` turns down the invitation of `peer`, or drops `peer` as a contact:
/// `me` must hold `Requested` or `Accepted`, and `peer` must hold `Invited` or
/// `Accepted`. Both then hold `Rejected`.
pub fn reject(
    me_descriptor: &mut WalletDescriptor,
    peer_descriptor: &mut WalletDescriptor,
    me: &Pubkey,
    peer: &Pubkey,
) -> (r: Result<(), ErrorCode>)
    ensures
        r == reject_verdict(old(me_descriptor).peers@, old(peer_descriptor).peers@, *me, *peer),
        r is Err ==> *final(me_descriptor) == *old(me_descriptor) && *final(peer_descriptor) == *old(peer_descriptor),
        r is Ok ==> transitioned(*old(me_descriptor), *final(me_descriptor), *peer, PeerState::Rejected)
            && transitioned(*old(peer_descriptor), *final(peer_descriptor), *me, PeerState::Rejected),
        r is Ok ==> final(me_descriptor).state_for(*peer) == Some(PeerState::Rejected)
            && final(peer_descriptor).state_for(*me) == Some(PeerState::Rejected),
        old(me_descriptor).wf() ==> final(me_descriptor).wf(),
        old(peer_descriptor).wf() ==> final(peer_descriptor).wf(),
{
    let me_side = lookup_state(&me_descriptor.peers, peer);
    let peer_side = lookup_state(&peer_descriptor.peers, me);
    if !(me_side == Some(PeerState::Requested) || me_side == Some(PeerState::Accepted)) {
        return Err(ErrorCode::NotRequested);
    }
    if !(peer_side == Some(PeerState::Invited) || peer_side == Some(PeerState::Accepted)) {
        return Err(ErrorCode::NotInvited);
    }
    set_pair(me_descriptor, peer_descriptor, me, peer, PeerState::Rejected);
    Ok(())
}

/// `me` blocks `peer`: both must have an entry for the other, in any state.
/// Both then hold `Blocked`.
pub fn block(
    me_descriptor: &mut WalletDescriptor,
    peer_descriptor: &mut WalletDescriptor,
    me: &Pubkey,
    peer: &Pubkey,
) -> (r: Result<(), ErrorCode>)
    ensures
        r == block_verdict(old(me_descriptor).peers@, old(peer_descriptor).peers@, *me, *peer),
        r is Err ==> *final(me_descriptor) == *old(me_descriptor) && *final(peer_descriptor) == *old(peer_descriptor),
        r is Ok ==> transitioned(*old(me_descriptor), *final(me_descriptor), *peer, PeerState::Blocked)
            && transitioned(*old(peer_descriptor), *final(peer_descriptor), *me, PeerState::Blocked),
        r is Ok ==> final(me_descriptor).state_for(*peer) == Some(PeerState::Blocked)
            && final(peer_descriptor).state_for(*me) == Some(PeerState::Blocked),
        old(me_descriptor).wf() ==> final(me_descriptor).wf(),
        old(peer_descriptor).wf() ==> final(peer_descriptor).wf(),
{
    let me_side = lookup_state(&me_descriptor.peers, peer);
    let peer_side = lookup_state(&peer_descriptor.peers, me);
    if me_side.is_none() || peer_side.is_none() {
        return Err(ErrorCode::NotInvited);
    }
    set_pair(me_descriptor, peer_descriptor, me, peer, PeerState::Blocked);
    Ok(())
}

/// `me` lifts a block on `peer`: both must hold `Blocked`. Both then hold
/// `Rejected`, so that only a fresh invitation restores the contact.
pub fn unblock(
    me_descriptor: &mut WalletDescriptor,
    peer_descriptor: &mut WalletDescriptor,
    me: &Pubkey,
    peer: &Pubkey,
) -> (r: Result<(), ErrorCode>)
    ensures
        r == unblock_verdict(old(me_descriptor).peers@, old(peer_descriptor).peers@, *me, *peer),
        r is Err ==> *final(me_descriptor) == *old(me_descriptor) && *final(peer_descriptor) == *old(peer_descriptor),
        r is Ok ==> transitioned(*old(me_descriptor), *final(me_descriptor), *peer, PeerState::Rejected)
            && transitioned(*old(peer_descriptor), *final(peer_descriptor), *me, PeerState::Rejected),
        r is Ok ==> final(me_descriptor).state_for(*peer) == Some(PeerState::Rejected)
            && final(peer_descriptor).state_for(*me) == Some(PeerState::Rejected),
        old(me_descriptor).wf() ==> final(me_descriptor).wf(),
        old(peer_descriptor).wf() ==> final(peer_descriptor).wf(),
{
    let me_side = lookup_state(&me_descriptor.peers, peer);
    let peer_side = lookup_state(&peer_descriptor.peers, me);
    if me_side != Some(PeerState::Blocked) || peer_side != Some(PeerState::Blocked) {
        return Err(ErrorCode::NotInvited);
    }
    set_pair(me_descriptor, peer_descriptor, me, peer, PeerState::Rejected);
    Ok(())
}

/// A block followed by an unblock, by either side, leaves both sides
/// `Rejected`, whatever they held before the block.
pub proof fn block_then_unblock(me_peers: Seq<Peer>, peer_peers: Seq<Peer>, me: Pubkey, peer: Pubkey)
    requires
        block_verdict(me_peers, peer_peers, me, peer) is Ok,
    ensures
        ({
            let me_blocked = with_state(me_peers, peer, PeerState::Blocked);
            let peer_blocked = with_state(peer_peers, me, PeerState::Blocked);
            &&& unblock_verdict(me_blocked, peer_blocked, me, peer) is Ok
            &&& unblock_verdict(peer_blocked, me_blocked, peer, me) is Ok
            &&& state_of(with_state(me_blocked, peer, PeerState::Rejected), peer) == Some(PeerState::Rejected)
            &&& state_of(with_state(peer_blocked, me, PeerState::Rejected), me) == Some(PeerState::Rejected)
        }),
{
    let me_blocked = with_state(me_peers, peer, PeerState::Blocked);
    let peer_blocked = with_state(peer_peers, me, PeerState::Blocked);
    lemma_with_state(me_peers, peer, PeerState::Blocked);
    lemma_with_state(peer_peers, me, PeerState::Blocked);
    lemma_with_state(me_blocked, peer, PeerState::Rejected);
    lemma_with_state(peer_blocked, me, PeerState::Rejected);
}

} // verus!
