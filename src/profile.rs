use vstd::prelude::*;
use crate::contacts::{claimed_peers, WalletDescriptor};
use crate::error::ErrorCode;
use crate::keys::{is_default, keys_equal, Pubkey};
use crate::text::{byte_len, byte_length};

verus! {

/// The longest display name, in bytes.
pub const MAX_DISPLAY_NAME_LEN: usize = 32;

#[derive(Debug, Clone, Copy, PartialEq, Eq, Structural)]
pub enum AvatarType {
    Emoji,
    Nft,
}

#[derive(Debug, Clone)]
pub struct UserProfile {
    pub owner: Pubkey,
    pub display_name: String,
    pub avatar_type: AvatarType,
    pub avatar_data: String,
    pub encryption_public_key: [u8; 32],
}

/// `payer` registers: it claims its contact record and gets a profile with an
/// emoji avatar. A record that invitations created before registration keeps
/// its entries; one that no one owned starts empty. The display name may take
/// at most 32 bytes.
pub fn register(
    wallet_descriptor: &mut WalletDescriptor,
    payer: &Pubkey,
    display_name: String,
    avatar_data: String,
    encryption_public_key: [u8; 32],
) -> (r: Result<UserProfile, ErrorCode>)
    ensures
        r is Err <==> byte_len(display_name@) > MAX_DISPLAY_NAME_LEN,
        r is Err ==> r == Err::<UserProfile, ErrorCode>(ErrorCode::DisplayNameTooLong)
            && *final(wallet_descriptor) == *old(wallet_descriptor),
        r is Ok ==> final(wallet_descriptor).owner == *payer && final(wallet_descriptor).peers@
            == claimed_peers(*old(wallet_descriptor)),
        r matches Ok(p) ==> {
            &&& p.owner == *payer
            &&& p.display_name@ == display_name@
            &&& p.avatar_type == AvatarType::Emoji
            &&& p.avatar_data@ == avatar_data@
            &&& p.encryption_public_key == encryption_public_key
        },
        old(wallet_descriptor).wf() ==> final(wallet_descriptor).wf(),
{
    if byte_length(&display_name) > MAX_DISPLAY_NAME_LEN {
        return Err(ErrorCode::DisplayNameTooLong);
    }
    if is_default(&wallet_descriptor.owner) {
        wallet_descriptor.peers = Vec::new();
    }
    wallet_descriptor.owner = *payer;
    proof {
        assert(wallet_descriptor.peers@ =~= claimed_peers(*old(wallet_descriptor)));
    }
    Ok(
        UserProfile {
            owner: *payer,
            display_name,
            avatar_type: AvatarType::Emoji,
            avatar_data,
            encryption_public_key,
        },
    )
}

/// The owner changes the fields it passes; a new display name may take at
/// most 32 bytes, else nothing changes.
pub fn update_profile(
    user_profile: &mut UserProfile,
    display_name: Option<String>,
    avatar_type: Option<AvatarType>,
    avatar_data: Option<String>,
    encryption_public_key: Option<[u8; 32]>,
) -> (r: Result<(), ErrorCode>)
    ensures
        r is Err <==> display_name is Some && byte_len(display_name.unwrap()@) > MAX_DISPLAY_NAME_LEN,
        r is Err ==> r == Err::<(), ErrorCode>(ErrorCode::DisplayNameTooLong) && *final(user_profile)
            == *old(user_profile),
        r is Ok ==> {
            &&& final(user_profile).owner == old(user_profile).owner
            &&& final(user_profile).display_name@ == (match display_name {
                Some(n) => n@,
                None => old(user_profile).display_name@,
            })
            &&& final(user_profile).avatar_type == (match avatar_type {
                Some(t) => t,
                None => old(user_profile).avatar_type,
            })
            &&& final(user_profile).avatar_data@ == (match avatar_data {
                Some(d) => d@,
                None => old(user_profile).avatar_data@,
            })
            &&& final(user_profile).encryption_public_key == (match encryption_public_key {
                Some(k) => k,
                None => old(user_profile).encryption_public_key,
            })
        },
{
    match display_name {
        Some(name) => {
            if byte_length(&name) > MAX_DISPLAY_NAME_LEN {
                return Err(ErrorCode::DisplayNameTooLong);
            }
            user_profile.display_name = name;
        },
        None => {},
    }
    match avatar_type {
        Some(t) => {
            user_profile.avatar_type = t;
        },
        None => {},
    }
    match avatar_data {
        Some(d) => {
            user_profile.avatar_data = d;
        },
        None => {},
    }
    match encryption_public_key {
        Some(k) => {
            user_profile.encryption_public_key = k;
        },
        None => {},
    }
    Ok(())
}

/// Closing a profile needs the two records at the addresses that belong to
/// the caller: its profile first, then its contact record. The record store
/// derives the expected addresses and reclaims the records.
pub fn close_profile(
    user_profile: &Pubkey,
    expected_profile: &Pubkey,
    wallet_descriptor: &Pubkey,
    expected_descriptor: &Pubkey,
) -> (r: Result<(), ErrorCode>)
    ensures
        r is Ok <==> *user_profile == *expected_profile && *wallet_descriptor == *expected_descriptor,
        r is Err ==> r == Err::<(), ErrorCode>(ErrorCode::InvalidHash),
{
    if !keys_equal(user_profile, expected_profile) {
        return Err(ErrorCode::InvalidHash);
    }
    if !keys_equal(wallet_descriptor, expected_descriptor) {
        return Err(ErrorCode::InvalidHash);
    }
    Ok(())
}

} // verus!
