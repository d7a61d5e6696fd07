use mukon_messenger::contacts::{Peer, PeerState, WalletDescriptor};
use mukon_messenger::error::ErrorCode;
use mukon_messenger::profile::{close_profile, register, update_profile, AvatarType};

#[test]
fn register_new_user() {
    let me = [3u8; 32];
    let mut d = WalletDescriptor { owner: [0u8; 32], peers: vec![] };
    let p = register(&mut d, &me, "alice".to_string(), "🙂".to_string(), [8u8; 32]).unwrap();
    assert_eq!(d.owner, me);
    assert!(d.peers.is_empty());
    assert_eq!(p.owner, me);
    assert_eq!(p.display_name, "alice");
    assert_eq!(p.avatar_type, AvatarType::Emoji);
    assert_eq!(p.avatar_data, "🙂");
    assert_eq!(p.encryption_public_key, [8u8; 32]);
}

#[test]
fn register_keeps_invitations_received_before() {
    let me = [3u8; 32];
    let entry = Peer { wallet: [4u8; 32], state: PeerState::Requested };
    let mut d = WalletDescriptor { owner: me, peers: vec![entry] };
    register(&mut d, &me, "alice".to_string(), String::new(), [0u8; 32]).unwrap();
    assert_eq!(d.peers, vec![entry]);
}

#[test]
fn register_display_name_limit() {
    let me = [3u8; 32];
    let mut d = WalletDescriptor { owner: [0u8; 32], peers: vec![] };
    assert!(register(&mut d, &me, "a".repeat(32), String::new(), [0u8; 32]).is_ok());
    let mut fresh = WalletDescriptor { owner: [0u8; 32], peers: vec![] };
    let r = register(&mut fresh, &me, "a".repeat(33), String::new(), [0u8; 32]);
    assert_eq!(r.err(), Some(ErrorCode::DisplayNameTooLong));
    assert_eq!(fresh.owner, [0u8; 32]);
}

#[test]
fn update_profile_fields() {
    let me = [3u8; 32];
    let mut d = WalletDescriptor { owner: [0u8; 32], peers: vec![] };
    let mut p = register(&mut d, &me, "alice".to_string(), "x".to_string(), [1u8; 32]).unwrap();
    assert_eq!(
        update_profile(&mut p, Some("b".repeat(33)), Some(AvatarType::Nft), None, Some([2u8; 32])),
        Err(ErrorCode::DisplayNameTooLong)
    );
    assert_eq!(p.avatar_type, AvatarType::Emoji);
    assert_eq!(p.encryption_public_key, [1u8; 32]);
    assert_eq!(update_profile(&mut p, None, Some(AvatarType::Nft), Some("nft".to_string()), None), Ok(()));
    assert_eq!(p.display_name, "alice");
    assert_eq!(p.avatar_type, AvatarType::Nft);
    assert_eq!(p.avatar_data, "nft");
    assert_eq!(update_profile(&mut p, Some("bob".to_string()), None, None, Some([2u8; 32])), Ok(()));
    assert_eq!(p.display_name, "bob");
    assert_eq!(p.encryption_public_key, [2u8; 32]);
}

#[test]
fn close_profile_checks_both_addresses() {
    let a = [1u8; 32];
    let b = [2u8; 32];
    assert_eq!(close_profile(&a, &a, &b, &b), Ok(()));
    assert_eq!(close_profile(&b, &a, &b, &b), Err(ErrorCode::InvalidHash));
    assert_eq!(close_profile(&a, &a, &a, &b), Err(ErrorCode::InvalidHash));
}
