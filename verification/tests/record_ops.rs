use collections::errors::CollectionError;
use collections::instruction::{
    AddMemberOfArgs, ArrangeMemberArgs, CollectionInstruction, FreezeCollectionArgs,
    RemoveMemberArgs,
};
use collections::ops::{
    add_authority, add_member, add_member_of, add_members, arrange_member, assert_authority,
    assert_owned_by, freeze_collection, remove_authority, remove_member,
};
use collections::state::{
    CollectionData, FLAG_ARRANGEABLE, FLAG_EXPANDABLE, FLAG_REMOVABLE,
};
use collections::types::Pubkey;

fn key(n: u8) -> Pubkey {
    Pubkey::new(vec![n; 32])
}

fn record(advanced: u8, max_size: u32, members: Vec<u8>) -> CollectionData {
    CollectionData {
        name: b"things".to_vec(),
        description: b"a registry of things".to_vec(),
        image: b"https://example.org/things.png".to_vec(),
        creator: key(1),
        authorities: vec![key(1)],
        advanced,
        max_size,
        members: members.into_iter().map(key).collect(),
        member_of: vec![],
    }
}

fn member_keys(c: &CollectionData) -> Vec<Vec<u8>> {
    c.members.iter().map(|k| k.bytes.clone()).collect()
}

#[test]
fn add_member_respects_capacity() {
    // A collection with max_size = 2, EXPANDABLE set, no initial members.
    let mut c = record(FLAG_EXPANDABLE, 2, vec![]);
    let auth = key(1);
    assert!(add_member(&mut c, &auth, true, &key(10)).is_ok());
    assert_eq!(member_keys(&c), vec![vec![10u8; 32]]);
    assert!(add_member(&mut c, &auth, true, &key(11)).is_ok());
    assert_eq!(member_keys(&c), vec![vec![10u8; 32], vec![11u8; 32]]);
    let r = add_member(&mut c, &auth, true, &key(12));
    assert!(matches!(r, Err(CollectionError::CapacityExceeded)));
    assert_eq!(member_keys(&c), vec![vec![10u8; 32], vec![11u8; 32]]);
}

#[test]
fn add_member_requires_expandable_flag() {
    let mut c = record(FLAG_REMOVABLE, 5, vec![2]);
    let r = add_member(&mut c, &key(1), true, &key(9));
    assert!(matches!(r, Err(CollectionError::NotExpandable)));
    assert_eq!(c.members.len(), 1);
}

#[test]
fn add_member_rejects_unknown_authority() {
    let mut c = record(FLAG_EXPANDABLE, 5, vec![2]);
    let r = add_member(&mut c, &key(7), true, &key(9));
    assert!(matches!(r, Err(CollectionError::InvalidAuthority)));
    assert_eq!(c.members.len(), 1);
}

#[test]
fn add_member_rejects_unsigned_authority() {
    let mut c = record(FLAG_EXPANDABLE, 5, vec![2]);
    let r = add_member(&mut c, &key(1), false, &key(9));
    assert!(matches!(r, Err(CollectionError::AuthorityIsNotSigner)));
    assert_eq!(c.members.len(), 1);
}

#[test]
fn add_members_appends_in_order() {
    let mut c = record(FLAG_EXPANDABLE, 4, vec![2]);
    let new = vec![key(3), key(4)];
    assert!(add_members(&mut c, &key(1), true, &new).is_ok());
    assert_eq!(member_keys(&c), vec![vec![2u8; 32], vec![3u8; 32], vec![4u8; 32]]);
}

#[test]
fn add_members_rejects_overflow_of_capacity() {
    let mut c = record(FLAG_EXPANDABLE, 2, vec![2]);
    let new = vec![key(3), key(4)];
    let r = add_members(&mut c, &key(1), true, &new);
    assert!(matches!(r, Err(CollectionError::CapacityExceeded)));
    assert_eq!(member_keys(&c), vec![vec![2u8; 32]]);
}

#[test]
fn remove_member_preserves_order_of_rest() {
    let mut c = record(FLAG_REMOVABLE, 4, vec![2, 3, 4]);
    let r = remove_member(&mut c, &key(1), true, &key(3), RemoveMemberArgs { index: 1 });
    assert!(r.is_ok());
    assert_eq!(member_keys(&c), vec![vec![2u8; 32], vec![4u8; 32]]);
}

#[test]
fn remove_member_requires_removable_flag() {
    let mut c = record(FLAG_EXPANDABLE, 4, vec![2, 3]);
    let r = remove_member(&mut c, &key(1), true, &key(2), RemoveMemberArgs { index: 0 });
    assert!(matches!(r, Err(CollectionError::NotRemovable)));
    assert_eq!(c.members.len(), 2);
}

#[test]
fn remove_member_rejects_identity_mismatch() {
    // The member stored at the index is not the supplied identity.
    let mut c = record(FLAG_REMOVABLE, 4, vec![2, 3]);
    let r = remove_member(&mut c, &key(1), true, &key(9), RemoveMemberArgs { index: 0 });
    assert!(matches!(r, Err(CollectionError::MemberAssetNotFound)));
    assert_eq!(member_keys(&c), vec![vec![2u8; 32], vec![3u8; 32]]);
}

#[test]
fn remove_member_rejects_out_of_bounds_index() {
    let mut c = record(FLAG_REMOVABLE, 4, vec![2]);
    let r = remove_member(&mut c, &key(1), true, &key(2), RemoveMemberArgs { index: 5 });
    assert!(matches!(r, Err(CollectionError::MemberAssetNotFound)));
}

#[test]
fn arrange_member_moves_and_keeps_relative_order() {
    let mut c = record(FLAG_ARRANGEABLE, 5, vec![2, 3, 4, 5]);
    let args = ArrangeMemberArgs { old_index: 1, new_index: 3 };
    assert!(arrange_member(&mut c, &key(1), true, args).is_ok());
    assert_eq!(
        member_keys(&c),
        vec![vec![2u8; 32], vec![4u8; 32], vec![5u8; 32], vec![3u8; 32]]
    );
    let args = ArrangeMemberArgs { old_index: 3, new_index: 0 };
    assert!(arrange_member(&mut c, &key(1), true, args).is_ok());
    assert_eq!(
        member_keys(&c),
        vec![vec![3u8; 32], vec![2u8; 32], vec![4u8; 32], vec![5u8; 32]]
    );
}

#[test]
fn arrange_member_same_index_always_succeeds() {
    // Even without the flag, without authorization and out of bounds:
    // moving a member onto its own index is a no-op success.
    let mut c = record(0, 4, vec![2, 3]);
    let args = ArrangeMemberArgs { old_index: 7, new_index: 7 };
    assert!(arrange_member(&mut c, &key(9), false, args).is_ok());
    assert_eq!(member_keys(&c), vec![vec![2u8; 32], vec![3u8; 32]]);
}

#[test]
fn arrange_member_requires_arrangeable_flag() {
    let mut c = record(FLAG_EXPANDABLE, 4, vec![2, 3]);
    let args = ArrangeMemberArgs { old_index: 0, new_index: 1 };
    let r = arrange_member(&mut c, &key(1), true, args);
    assert!(matches!(r, Err(CollectionError::NotArrangeable)));
}

#[test]
fn arrange_member_rejects_bad_indices() {
    let mut c = record(FLAG_ARRANGEABLE, 4, vec![2, 3]);
    let args = ArrangeMemberArgs { old_index: 2, new_index: 0 };
    let r = arrange_member(&mut c, &key(1), true, args);
    assert!(matches!(r, Err(CollectionError::InvalidOriginalArrangeIndex)));
    let args = ArrangeMemberArgs { old_index: 0, new_index: 2 };
    let r = arrange_member(&mut c, &key(1), true, args);
    assert!(matches!(r, Err(CollectionError::InvalidNewArrangeIndex)));
    assert_eq!(member_keys(&c), vec![vec![2u8; 32], vec![3u8; 32]]);
}

#[test]
fn add_member_of_appends_reference() {
    let mut c = record(0, 4, vec![2]);
    let args = AddMemberOfArgs { collection: key(20), signature: vec![7; 32] };
    assert!(add_member_of(&mut c, &key(1), true, &key(20), &args).is_ok());
    assert_eq!(c.member_of.len(), 1);
    assert_eq!(c.member_of[0].collection.bytes, vec![20u8; 32]);
    assert_eq!(c.member_of[0].signature, vec![7u8; 32]);
}

#[test]
fn add_authority_is_idempotent_on_duplicates() {
    let mut c = record(0, 4, vec![]);
    assert!(add_authority(&mut c, &key(1), true, &key(5)).is_ok());
    assert_eq!(c.authorities.len(), 2);
    // Adding an already-present authority succeeds and changes nothing.
    assert!(add_authority(&mut c, &key(1), true, &key(5)).is_ok());
    assert_eq!(c.authorities.len(), 2);
    assert!(add_authority(&mut c, &key(5), true, &key(1)).is_ok());
    assert_eq!(c.authorities.len(), 2);
}

#[test]
fn remove_authority_removes_present_authority() {
    let mut c = record(0, 4, vec![]);
    assert!(add_authority(&mut c, &key(1), true, &key(5)).is_ok());
    assert!(remove_authority(&mut c, &key(5), true, &key(1)).is_ok());
    assert_eq!(c.authorities.len(), 1);
    assert_eq!(c.authorities[0].bytes, vec![5u8; 32]);
}

#[test]
fn remove_authority_rejects_absent_target() {
    let mut c = record(0, 4, vec![]);
    assert!(add_authority(&mut c, &key(1), true, &key(5)).is_ok());
    let r = remove_authority(&mut c, &key(1), true, &key(9));
    assert!(matches!(r, Err(CollectionError::AuthorityNotFound)));
    assert_eq!(c.authorities.len(), 2);
}

#[test]
fn remove_authority_never_empties_the_set() {
    // Removing the sole remaining authority fails and changes nothing.
    let mut c = record(0, 4, vec![]);
    let r = remove_authority(&mut c, &key(1), true, &key(1));
    assert!(matches!(r, Err(CollectionError::CollectionMustHaveAuthority)));
    assert_eq!(c.authorities.len(), 1);
    assert_eq!(c.authorities[0].bytes, vec![1u8; 32]);
}

#[test]
fn freeze_disables_flag_gated_mutations() {
    // EXPANDABLE is set before the freeze; afterwards adding fails with
    // NotExpandable all the same.
    let mut c = record(FLAG_EXPANDABLE | FLAG_REMOVABLE | FLAG_ARRANGEABLE, 4, vec![2]);
    assert!(freeze_collection(&mut c, &key(1), true).is_ok());
    assert_eq!(c.advanced, 0);
    let r = add_member(&mut c, &key(1), true, &key(9));
    assert!(matches!(r, Err(CollectionError::NotExpandable)));
    let r = remove_member(&mut c, &key(1), true, &key(2), RemoveMemberArgs { index: 0 });
    assert!(matches!(r, Err(CollectionError::NotRemovable)));
}

#[test]
fn authorities_never_empty_after_operations() {
    let mut c = record(FLAG_EXPANDABLE, 4, vec![]);
    let auth = key(1);
    assert!(add_member(&mut c, &auth, true, &key(2)).is_ok());
    assert!(c.authorities.len() >= 1);
    assert!(add_authority(&mut c, &auth, true, &key(5)).is_ok());
    assert!(c.authorities.len() >= 1);
    assert!(remove_authority(&mut c, &auth, true, &key(5)).is_ok());
    assert!(c.authorities.len() >= 1);
    assert!(freeze_collection(&mut c, &auth, true).is_ok());
    assert!(c.authorities.len() >= 1);
}

#[test]
fn membership_stays_within_declared_capacity() {
    let mut c = record(FLAG_EXPANDABLE, 3, vec![2]);
    let auth = key(1);
    assert!(add_member(&mut c, &auth, true, &key(3)).is_ok());
    assert!(c.members.len() <= 3);
    assert!(add_members(&mut c, &auth, true, &vec![key(4)]).is_ok());
    assert!(c.members.len() <= 3);
    assert!(add_member(&mut c, &auth, true, &key(5)).is_err());
    assert!(c.members.len() <= 3);
}

#[test]
fn assert_authority_checks_membership_then_signature() {
    let authorities = vec![key(1), key(2)];
    assert!(assert_authority(&key(1), true, &authorities).is_ok());
    let r = assert_authority(&key(9), true, &authorities);
    assert!(matches!(r, Err(CollectionError::InvalidAuthority)));
    let r = assert_authority(&key(2), false, &authorities);
    assert!(matches!(r, Err(CollectionError::AuthorityIsNotSigner)));
}

#[test]
fn assert_owned_by_compares_owners() {
    assert!(assert_owned_by(&key(3), &key(3)).is_ok());
    let r = assert_owned_by(&key(3), &key(4));
    assert!(matches!(r, Err(CollectionError::IncorrectOwner)));
}

#[test]
fn instructions_route_to_their_operations() {
    // A dispatcher matches on the decoded instruction and hands each
    // operation its payload.
    let mut c = record(FLAG_REMOVABLE, 4, vec![2, 3]);
    let instructions = vec![
        CollectionInstruction::RemoveMember(RemoveMemberArgs { index: 0 }),
        CollectionInstruction::FreezeCollection(FreezeCollectionArgs {}),
    ];
    for instruction in instructions {
        match instruction {
            CollectionInstruction::RemoveMember(args) => {
                assert!(remove_member(&mut c, &key(1), true, &key(2), args).is_ok());
            }
            CollectionInstruction::FreezeCollection(_) => {
                assert!(freeze_collection(&mut c, &key(1), true).is_ok());
            }
            _ => unreachable!(),
        }
    }
    assert_eq!(member_keys(&c), vec![vec![3u8; 32]]);
    assert_eq!(c.advanced, 0);
}

#[test]
fn error_codes_are_stable() {
    assert_eq!(CollectionError::InvalidCollectionAccount.code(), 0);
    assert_eq!(CollectionError::IncorrectOwner.code(), 1);
    assert_eq!(CollectionError::DataTypeMismatch.code(), 2);
    assert_eq!(CollectionError::NotExpandable.code(), 3);
    assert_eq!(CollectionError::NotRemovable.code(), 4);
    assert_eq!(CollectionError::NotArrangeable.code(), 5);
    assert_eq!(CollectionError::CapacityExceeded.code(), 6);
    assert_eq!(CollectionError::PermanentlyEmptyCollection.code(), 7);
    assert_eq!(CollectionError::MemberAssetNotFound.code(), 8);
    assert_eq!(CollectionError::InvalidOriginalArrangeIndex.code(), 9);
    assert_eq!(CollectionError::InvalidNewArrangeIndex.code(), 10);
    assert_eq!(CollectionError::InvalidAuthority.code(), 11);
    assert_eq!(CollectionError::AuthorityIsNotSigner.code(), 12);
    assert_eq!(CollectionError::AuthorityNotFound.code(), 13);
    assert_eq!(CollectionError::CollectionMustHaveAuthority.code(), 14);
    assert_eq!(CollectionError::CreatorIsNotSigner.code(), 15);
}
