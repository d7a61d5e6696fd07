use vstd::prelude::*;
use crate::error::ErrorCode;
use crate::group::{has_member, Group};
use crate::keys::{keys_equal, Pubkey};

verus! {

/// A member's copy of the group key, encrypted to that member. Its contents
/// are never read here.
#[derive(Debug, Clone)]
pub struct GroupKeyShare {
    pub group_id: [u8; 32],
    pub member: Pubkey,
    pub encrypted_key: Vec<u8>,
    pub nonce: [u8; 24],
}

/// A member of `group` stores its own key share, replacing any earlier one.
pub fn store_group_key(
    key_share: &mut GroupKeyShare,
    group: &Group,
    payer: &Pubkey,
    encrypted_key: Vec<u8>,
    nonce: [u8; 24],
) -> (r: Result<(), ErrorCode>)
    ensures
        r is Ok <==> group.members@.contains(*payer),
        r is Err ==> r == Err::<(), ErrorCode>(ErrorCode::NotGroupMember) && *final(key_share)
            == *old(key_share),
        r is Ok ==> {
            &&& final(key_share).group_id == group.group_id
            &&& final(key_share).member == *payer
            &&& final(key_share).encrypted_key@ == encrypted_key@
            &&& final(key_share).nonce == nonce
        },
{
    if !has_member(&group.members, payer) {
        return Err(ErrorCode::NotGroupMember);
    }
    key_share.group_id = group.group_id;
    key_share.member = *payer;
    key_share.encrypted_key = encrypted_key;
    key_share.nonce = nonce;
    Ok(())
}

/// Only the member that owns a key share may close it.
pub fn close_group_key(key_share: &GroupKeyShare, payer: &Pubkey) -> (r: Result<(), ErrorCode>)
    ensures
        r is Ok <==> key_share.member == *payer,
        r is Err ==> r == Err::<(), ErrorCode>(ErrorCode::Unauthorized),
{
    if !keys_equal(&key_share.member, payer) {
        return Err(ErrorCode::Unauthorized);
    }
    Ok(())
}

} // verus!
