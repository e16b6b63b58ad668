use collections::address::derive_collection_address;
use collections::errors::CollectionError;
use collections::instruction::CreateCollectionArgs;
use collections::ops::create_collection;
use collections::state::FLAG_EXPANDABLE;
use collections::types::Pubkey;

fn key(n: u8) -> Pubkey {
    Pubkey::new(vec![n; 32])
}

fn args(name: &[u8], advanced: u8, max_size: u32, members: Vec<Pubkey>) -> CreateCollectionArgs {
    CreateCollectionArgs {
        name: name.to_vec(),
        description: b"d".to_vec(),
        image: b"i".to_vec(),
        advanced,
        max_size,
        members,
        member_of: vec![],
    }
}

#[test]
fn derivation_is_deterministic_and_not_an_input() {
    let program_id = key(1);
    let creator = key(2);
    let name = b"things".to_vec();
    let (addr1, bump1) = derive_collection_address(&program_id, &creator, &name)
        .expect("a bump exists for these seeds");
    let (addr2, bump2) = derive_collection_address(&program_id, &creator, &name)
        .expect("a bump exists for these seeds");
    assert_eq!(addr1.bytes, addr2.bytes);
    assert_eq!(bump1, bump2);
    // The derived address is a hash, not any of the seeds.
    assert_ne!(addr1.bytes, program_id.bytes);
    assert_ne!(addr1.bytes, creator.bytes);
    // Another name yields another address.
    let (addr3, _) = derive_collection_address(&program_id, &creator, &b"other".to_vec())
        .expect("a bump exists for these seeds");
    assert_ne!(addr1.bytes, addr3.bytes);
}

#[test]
fn derivation_matches_the_ledger_scheme() {
    let program_id = key(1);
    let creator = key(2);
    let name = b"things".to_vec();
    let (addr, bump) = derive_collection_address(&program_id, &creator, &name)
        .expect("a bump exists for these seeds");
    let pid = solana_program::pubkey::Pubkey::try_from(&program_id.bytes[..]).unwrap();
    let (expected, expected_bump) = solana_program::pubkey::Pubkey::find_program_address(
        &[b"collection", pid.as_ref(), &creator.bytes, &name],
        &pid,
    );
    assert_eq!(addr.bytes, expected.to_bytes().to_vec());
    assert_eq!(bump, expected_bump);
}

#[test]
fn create_accepts_only_the_derived_address() {
    let program_id = key(1);
    let creator = key(2);
    let name = b"things";
    let (addr, bump) = derive_collection_address(&program_id, &creator, &name.to_vec())
        .expect("a bump exists for these seeds");
    let r = create_collection(&program_id, &addr, &creator, true, args(name, 0, 4, vec![key(3)]));
    let (record, size, out_bump) = r.expect("the derived address is accepted");
    assert_eq!(record.creator.bytes, creator.bytes);
    assert_eq!(record.authorities.len(), 1);
    assert_eq!(record.authorities[0].bytes, creator.bytes);
    assert_eq!(record.members.len(), 1);
    assert_eq!(size, 82 + 4 * 32);
    assert_eq!(out_bump, bump);

    // Any other target account is rejected.
    let r = create_collection(&program_id, &creator, &creator, true, args(name, 0, 4, vec![]));
    assert!(matches!(r, Err(CollectionError::InvalidCollectionAccount)));
}

#[test]
fn create_requires_the_creator_signature() {
    let program_id = key(1);
    let creator = key(2);
    let (addr, _) = derive_collection_address(&program_id, &creator, &b"things".to_vec())
        .expect("a bump exists for these seeds");
    let r = create_collection(&program_id, &addr, &creator, false, args(b"things", 0, 4, vec![]));
    assert!(matches!(r, Err(CollectionError::CreatorIsNotSigner)));
}

#[test]
fn create_enforces_capacity_on_initial_members() {
    let program_id = key(1);
    let creator = key(2);
    let (addr, _) = derive_collection_address(&program_id, &creator, &b"things".to_vec())
        .expect("a bump exists for these seeds");
    let r = create_collection(
        &program_id,
        &addr,
        &creator,
        true,
        args(b"things", 0, 1, vec![key(3), key(4)]),
    );
    assert!(matches!(r, Err(CollectionError::CapacityExceeded)));
}

#[test]
fn create_rejects_permanently_empty_collection() {
    let program_id = key(1);
    let creator = key(2);
    let (addr, _) = derive_collection_address(&program_id, &creator, &b"things".to_vec())
        .expect("a bump exists for these seeds");
    // EXPANDABLE with no declared capacity and no initial members: the
    // collection could never hold a member.
    let r = create_collection(
        &program_id,
        &addr,
        &creator,
        true,
        args(b"things", FLAG_EXPANDABLE, 0, vec![]),
    );
    assert!(matches!(r, Err(CollectionError::PermanentlyEmptyCollection)));
    // The same call with one initial member succeeds.
    let r = create_collection(
        &program_id,
        &addr,
        &creator,
        true,
        args(b"things", FLAG_EXPANDABLE, 0, vec![key(3)]),
    );
    let (record, size, _) = r.expect("one initial member makes the collection viable");
    assert_eq!(record.members.len(), 1);
    assert_eq!(size, 82 + 32);
}
