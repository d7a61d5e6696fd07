use vstd::prelude::*;
use crate::error::ErrorCode;
use crate::keys::{keys_equal, Pubkey};
use crate::text::{byte_len, byte_length};

verus! {

/// The most members a group can have.
pub const MAX_GROUP_MEMBERS: usize = 30;

/// The longest group name, in bytes.
pub const MAX_GROUP_NAME_LEN: usize = 64;

/// A condition on joining a group: holding at least `min_balance` of a token.
#[derive(Debug, Clone, Copy, PartialEq, Eq)]
pub struct TokenGate {
    pub token_mint: Pubkey,
    pub min_balance: u64,
}

/// A caller's claim of a token balance, which an outside ledger attests.
#[derive(Debug, Clone, Copy, PartialEq, Eq)]
pub struct TokenAccount {
    pub owner: Pubkey,
    pub mint: Pubkey,
    pub amount: u64,
}

/// A group chat: its creator, members and optional gate.
#[derive(Debug, Clone)]
pub struct Group {
    pub group_id: [u8; 32],
    pub creator: Pubkey,
    pub name: String,
    pub created_at: i64,
    pub members: Vec<Pubkey>,
    pub encryption_pubkey: [u8; 32],
    pub token_gate: Option<TokenGate>,
}

#[derive(Debug, Clone, Copy, PartialEq, Eq, Structural)]
pub enum GroupInviteStatus {
    Pending,
    Accepted,
    Rejected,
}

/// An invitation into a group; one per group and invitee.
#[derive(Debug, Clone, Copy, PartialEq, Eq)]
pub struct GroupInvite {
    pub group_id: [u8; 32],
    pub inviter: Pubkey,
    pub invitee: Pubkey,
    pub status: GroupInviteStatus,
    pub created_at: i64,
}

impl Group {
    /// A group has at most thirty members, and its creator is one of them.
    pub open spec fn wf(&self) -> bool {
        self.members@.len() <= MAX_GROUP_MEMBERS && self.members@.contains(self.creator)
    }

    /// Everything but the member list is as in `other`.
    pub open spec fn same_but_members(&self, other: &Group) -> bool {
        &&& self.group_id == other.group_id
        &&& self.creator == other.creator
        &&& self.name@ == other.name@
        &&& self.created_at == other.created_at
        &&& self.encryption_pubkey == other.encryption_pubkey
        &&& self.token_gate == other.token_gate
    }
}

/// The member list without `k`.
pub open spec fn without(members: Seq<Pubkey>, k: Pubkey) -> Seq<Pubkey> {
    members.filter(|m: Pubkey| m != k)
}

/// Whether `k` is in the list.
pub fn has_member(members: &Vec<Pubkey>, k: &Pubkey) -> (r: bool)
    ensures
        r == members@.contains(*k),
{
    let mut i: usize = 0;
    while i < members.len()
        invariant
            0 <= i <= members@.len(),
            forall|j: int| 0 <= j < i ==> members@[j] != *k,
        decreases members@.len() - i,
    {
        if keys_equal(&members[i], k) {
            return true;
        }
        i = i + 1;
    }
    false
}

/// Removing `k` drops it, keeps every other member, and does not lengthen the list.
pub proof fn lemma_without(members: Seq<Pubkey>, k: Pubkey)
    ensures
        !without(members, k).contains(k),
        forall|m: Pubkey| m != k && members.contains(m) ==> without(members, k).contains(m),
        forall|m: Pubkey| #[trigger] without(members, k).contains(m) ==> members.contains(m),
        without(members, k).len() <= members.len(),
        members.contains(k) ==> without(members, k).len() < members.len(),
    decreases members.len(),
{
    reveal(Seq::filter);
    if members.len() > 0 {
        let rest = members.drop_last();
        lemma_without(rest, k);
        assert forall|m: Pubkey| m != k && members.contains(m) implies without(members, k).contains(m) by {
            let i = choose|i: int| 0 <= i < members.len() && members[i] == m;
            if i < members.len() - 1 {
                assert(rest[i] == m);
            } else {
                assert(without(members, k).last() == m);
            }
        }
        assert forall|m: Pubkey| #[trigger] without(members, k).contains(m) implies members.contains(m) by {
            if without(rest, k).contains(m) {
                let i = choose|i: int| 0 <= i < rest.len() && rest[i] == m;
                assert(members[i] == m);
            } else {
                assert(members.last() == m);
            }
        }
        if members.contains(k) && !rest.contains(k) {
            assert(members.last() == k) by {
                let i = choose|i: int| 0 <= i < members.len() && members[i] == k;
                if i < members.len() - 1 {
                    assert(rest[i] == k);
                }
            }
        }
    }
}

/// Removes every occurrence of `k`.
fn remove_member(members: &mut Vec<Pubkey>, k: &Pubkey)
    ensures
        final(members)@ == without(old(members)@, *k),
{
    let mut kept: Vec<Pubkey> = Vec::new();
    let mut i: usize = 0;
    while i < members.len()
        invariant
            0 <= i <= members@.len(),
            kept@ == without(members@.subrange(0, i as int), *k),
        decreases members@.len() - i,
    {
        proof {
            reveal(Seq::filter);
            assert(members@.subrange(0, i + 1).drop_last() =~= members@.subrange(0, i as int));
        }
        if !keys_equal(&members[i], k) {
            kept.push(members[i]);
        }
        i = i + 1;
    }
    proof {
        assert(members@.subrange(0, members@.len() as int) =~= members@);
    }
    *members = kept;
}

/// The outcome of `payer` accepting `invite` into `group`, with the balance
/// claim it presents, if any.
pub open spec fn accept_invite_verdict(
    group: Group,
    invite: GroupInvite,
    payer: Pubkey,
    token_account: Option<TokenAccount>,
) -> Result<(), ErrorCode> {
    if invite.status != GroupInviteStatus::Pending || invite.invitee != payer {
        Err(ErrorCode::NotInvited)
    } else if group.token_gate is Some && token_account is None {
        Err(ErrorCode::TokenAccountRequired)
    } else if group.token_gate is Some && token_account.unwrap().owner != payer {
        Err(ErrorCode::InvalidTokenAccount)
    } else if group.token_gate is Some && (token_account.unwrap().mint
        != group.token_gate.unwrap().token_mint || token_account.unwrap().amount
        < group.token_gate.unwrap().min_balance) {
        Err(ErrorCode::InsufficientTokenBalance)
    } else if group.members@.len() >= MAX_GROUP_MEMBERS {
        Err(ErrorCode::GroupFull)
    } else {
        Ok(())
    }
}

/// `payer` creates a group whose only member is itself. The name may take at
/// most 64 bytes.
pub fn create_group(
    payer: &Pubkey,
    group_id: [u8; 32],
    name: String,
    encryption_pubkey: [u8; 32],
    token_gate: Option<TokenGate>,
    now: i64,
) -> (r: Result<Group, ErrorCode>)
    ensures
        r is Err <==> byte_len(name@) > MAX_GROUP_NAME_LEN,
        r is Err ==> r == Err::<Group, ErrorCode>(ErrorCode::GroupNameTooLong),
        r matches Ok(g) ==> {
            &&& g.group_id == group_id
            &&& g.creator == *payer
            &&& g.name@ == name@
            &&& g.created_at == now
            &&& g.members@ == seq![*payer]
            &&& g.encryption_pubkey == encryption_pubkey
            &&& g.token_gate == token_gate
            &&& g.wf()
        },
{
    if byte_length(&name) > MAX_GROUP_NAME_LEN {
        return Err(ErrorCode::GroupNameTooLong);
    }
    let members = vec![*payer];
    let g = Group {
        group_id,
        creator: *payer,
        name,
        created_at: now,
        members,
        encryption_pubkey,
        token_gate,
    };
    proof {
        assert(g.members@[0] == *payer);
    }
    Ok(g)
}

/// The creator renames the group or sets a new gate. A gate can be replaced
/// but never taken away.
pub fn update_group(
    group: &mut Group,
    payer: &Pubkey,
    name: Option<String>,
    token_gate: Option<TokenGate>,
) -> (r: Result<(), ErrorCode>)
    ensures
        old(group).creator != *payer ==> r == Err::<(), ErrorCode>(ErrorCode::NotGroupAdmin),
        old(group).creator == *payer && name is Some && byte_len(name.unwrap()@) > MAX_GROUP_NAME_LEN
            ==> r == Err::<(), ErrorCode>(ErrorCode::GroupNameTooLong),
        r is Ok <==> old(group).creator == *payer && !(name is Some && byte_len(name.unwrap()@)
            > MAX_GROUP_NAME_LEN),
        r is Err ==> *final(group) == *old(group),
        r is Ok ==> {
            &&& final(group).group_id == old(group).group_id
            &&& final(group).creator == old(group).creator
            &&& final(group).created_at == old(group).created_at
            &&& final(group).members == old(group).members
            &&& final(group).encryption_pubkey == old(group).encryption_pubkey
            &&& final(group).name@ == (match name {
                Some(n) => n@,
                None => old(group).name@,
            })
            &&& final(group).token_gate == (match token_gate {
                Some(t) => Some(t),
                None => old(group).token_gate,
            })
        },
        old(group).token_gate is Some ==> final(group).token_gate is Some,
        old(group).wf() ==> final(group).wf(),
{
    if !keys_equal(&group.creator, payer) {
        return Err(ErrorCode::NotGroupAdmin);
    }
    match name {
        Some(new_name) => {
            if byte_length(&new_name) > MAX_GROUP_NAME_LEN {
                return Err(ErrorCode::GroupNameTooLong);
            }
            group.name = new_name;
        },
        None => {},
    }
    match token_gate {
        Some(new_gate) => {
            group.token_gate = Some(new_gate);
        },
        None => {},
    }
    Ok(())
}

/// A member of the group invites `invitee`, who must not be a member yet, while
/// the group has room. Any earlier invitation of `invitee` is overwritten.
pub fn invite_to_group(
    group: &Group,
    invite: &mut GroupInvite,
    payer: &Pubkey,
    invitee: &Pubkey,
    now: i64,
) -> (r: Result<(), ErrorCode>)
    ensures
        r == (if !group.members@.contains(*payer) {
            Err(ErrorCode::NotGroupMember)
        } else if group.members@.len() >= MAX_GROUP_MEMBERS {
            Err(ErrorCode::GroupFull)
        } else if group.members@.contains(*invitee) {
            Err(ErrorCode::AlreadyInvited)
        } else {
            Ok(())
        }),
        r is Err ==> *final(invite) == *old(invite),
        r is Ok ==> *final(invite) == (GroupInvite {
            group_id: group.group_id,
            inviter: *payer,
            invitee: *invitee,
            status: GroupInviteStatus::Pending,
            created_at: now,
        }),
{
    if !has_member(&group.members, payer) {
        return Err(ErrorCode::NotGroupMember);
    }
    if group.members.len() >= MAX_GROUP_MEMBERS {
        return Err(ErrorCode::GroupFull);
    }
    if has_member(&group.members, invitee) {
        return Err(ErrorCode::AlreadyInvited);
    }
    *invite = GroupInvite {
        group_id: group.group_id,
        inviter: *payer,
        invitee: *invitee,
        status: GroupInviteStatus::Pending,
        created_at: now,
    };
    Ok(())
}

/// `payer` accepts a pending invitation addressed to it. Where the group has
/// a gate, `payer` must show a balance that belongs to it, in the required
/// mint, no lower than the required minimum. The group must have room; `payer`
/// joins at the end of the member list and the invitation becomes `Accepted`.
pub fn accept_group_invite(
    group: &mut Group,
    invite: &mut GroupInvite,
    payer: &Pubkey,
    user_token_account: Option<TokenAccount>,
) -> (r: Result<(), ErrorCode>)
    ensures
        r == accept_invite_verdict(*old(group), *old(invite), *payer, user_token_account),
        r is Err ==> *final(group) == *old(group) && *final(invite) == *old(invite),
        r is Ok ==> final(group).same_but_members(old(group)) && final(group).members@ == old(
            group,
        ).members@.push(*payer),
        r is Ok ==> *final(invite) == (GroupInvite { status: GroupInviteStatus::Accepted, ..*old(invite) }),
        old(invite).status == GroupInviteStatus::Pending && old(invite).invitee == *payer
            && old(group).token_gate is Some && user_token_account is Some
            && user_token_account.unwrap().owner == *payer && user_token_account.unwrap().amount
            < old(group).token_gate.unwrap().min_balance ==> r == Err::<(), ErrorCode>(
            ErrorCode::InsufficientTokenBalance,
        ) && final(group).members == old(group).members,
        old(group).wf() ==> final(group).wf(),
{
    if invite.status != GroupInviteStatus::Pending {
        return Err(ErrorCode::NotInvited);
    }
    if !keys_equal(&invite.invitee, payer) {
        return Err(ErrorCode::NotInvited);
    }
    match &group.token_gate {
        Some(gate) => {
            let account = match &user_token_account {
                Some(a) => a,
                None => {
                    return Err(ErrorCode::TokenAccountRequired);
                },
            };
            if !keys_equal(&account.owner, payer) {
                return Err(ErrorCode::InvalidTokenAccount);
            }
            if !keys_equal(&account.mint, &gate.token_mint) {
                return Err(ErrorCode::InsufficientTokenBalance);
            }
            if account.amount < gate.min_balance {
                return Err(ErrorCode::InsufficientTokenBalance);
            }
        },
        None => {},
    }
    if group.members.len() >= MAX_GROUP_MEMBERS {
        return Err(ErrorCode::GroupFull);
    }
    let ghost prev = group.members@;
    group.members.push(*payer);
    proof {
        if prev.contains(group.creator) {
            let i = choose|i: int| 0 <= i < prev.len() && prev[i] == group.creator;
            assert(group.members@[i] == group.creator);
        }
    }
    invite.status = GroupInviteStatus::Accepted;
    Ok(())
}

/// `payer` turns down a pending invitation addressed to it.
pub fn reject_group_invite(invite: &mut GroupInvite, payer: &Pubkey) -> (r: Result<(), ErrorCode>)
    ensures
        r is Ok <==> old(invite).status == GroupInviteStatus::Pending && old(invite).invitee == *payer,
        r is Err ==> r == Err::<(), ErrorCode>(ErrorCode::NotInvited) && *final(invite) == *old(invite),
        r is Ok ==> *final(invite) == (GroupInvite { status: GroupInviteStatus::Rejected, ..*old(invite) }),
{
    if invite.status != GroupInviteStatus::Pending {
        return Err(ErrorCode::NotInvited);
    }
    if !keys_equal(&invite.invitee, payer) {
        return Err(ErrorCode::NotInvited);
    }
    invite.status = GroupInviteStatus::Rejected;
    Ok(())
}

/// A member other than the creator leaves the group.
pub fn leave_group(group: &mut Group, payer: &Pubkey) -> (r: Result<(), ErrorCode>)
    ensures
        r == (if old(group).creator == *payer {
            Err(ErrorCode::CannotRemoveCreator)
        } else if !old(group).members@.contains(*payer) {
            Err(ErrorCode::NotGroupMember)
        } else {
            Ok(())
        }),
        r is Err ==> *final(group) == *old(group),
        r is Ok ==> final(group).same_but_members(old(group)) && final(group).members@ == without(
            old(group).members@,
            *payer,
        ),
        final(group).members@.contains(old(group).creator) == old(group).members@.contains(old(group).creator),
        old(group).wf() ==> final(group).wf(),
{
    if keys_equal(&group.creator, payer) {
        return Err(ErrorCode::CannotRemoveCreator);
    }
    if !has_member(&group.members, payer) {
        return Err(ErrorCode::NotGroupMember);
    }
    proof {
        lemma_without(group.members@, *payer);
    }
    remove_member(&mut group.members, payer);
    Ok(())
}

/// The creator removes a member other than itself.
pub fn kick_member(group: &mut Group, payer: &Pubkey, member: &Pubkey) -> (r: Result<(), ErrorCode>)
    ensures
        r == (if old(group).creator != *payer {
            Err(ErrorCode::NotGroupAdmin)
        } else if *member == old(group).creator {
            Err(ErrorCode::CannotRemoveCreator)
        } else if !old(group).members@.contains(*member) {
            Err(ErrorCode::NotGroupMember)
        } else {
            Ok(())
        }),
        r is Err ==> *final(group) == *old(group),
        r is Ok ==> final(group).same_but_members(old(group)) && final(group).members@ == without(
            old(group).members@,
            *member,
        ),
        final(group).members@.contains(old(group).creator) == old(group).members@.contains(old(group).creator),
        old(group).wf() ==> final(group).wf(),
{
    if !keys_equal(&group.creator, payer) {
        return Err(ErrorCode::NotGroupAdmin);
    }
    if keys_equal(member, &group.creator) {
        return Err(ErrorCode::CannotRemoveCreator);
    }
    if !has_member(&group.members, member) {
        return Err(ErrorCode::NotGroupMember);
    }
    proof {
        lemma_without(group.members@, *member);
    }
    remove_member(&mut group.members, member);
    Ok(())
}

/// Only the creator may close a group; the record store then destroys it.
pub fn close_group(group: &Group, payer: &Pubkey) -> (r: Result<(), ErrorCode>)
    ensures
        r is Ok <==> group.creator == *payer,
        r is Err ==> r == Err::<(), ErrorCode>(ErrorCode::NotGroupAdmin),
{
    if !keys_equal(&group.creator, payer) {
        return Err(ErrorCode::NotGroupAdmin);
    }
    Ok(())
}

} // verus!
