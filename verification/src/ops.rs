//! The authority-gated state transitions of a collection record.
//!
//! Every operation validates its guards in order and returns on the first
//! violation, leaving the record untouched; only a fully validated
//! operation mutates it. Each contract states exactly which error each
//! input produces and the exact record value a success leaves behind.

use vstd::prelude::*;

use crate::address::{collection_address_of, derive_collection_address};
use crate::errors::CollectionError;
use crate::instruction::{
    AddMemberOfArgs, ArrangeMemberArgs, CreateCollectionArgs, RemoveMemberArgs,
};
use crate::state::{
    arrangeable, create_account_size, expandable, keys_of, removable, sigs_of, CollectionData,
    CollectionView, BASE_COLLECTION_DATA_SIZE, FLAG_ARRANGEABLE, FLAG_EXPANDABLE, FLAG_REMOVABLE,
    MAX_DESCRIPTION_LENGTH, MAX_IMAGE_LENGTH, MAX_NAME_LENGTH, MEMBER_OF_SLOT_SIZE,
    MEMBER_SLOT_SIZE,
};
use crate::types::{CollectionSignature, Pubkey, SignatureView, SIGNATURE_LEN};

verus! {

/// The index of the first occurrence of `k` in `s`, or `-1` if `k` does
/// not occur.
pub open spec fn first_index(s: Seq<Seq<u8>>, k: Seq<u8>) -> int
    decreases s.len(),
{
    if s.len() == 0 {
        -1
    } else if s[0] == k {
        0
    } else if first_index(s.drop_first(), k) == -1 {
        -1
    } else {
        1 + first_index(s.drop_first(), k)
    }
}

/// An index that holds `k` and is preceded by no other occurrence of `k`
/// is the first occurrence.
pub proof fn lemma_first_index_found(s: Seq<Seq<u8>>, k: Seq<u8>, i: int)
    requires
        0 <= i < s.len(),
        s[i] == k,
        forall|j: int| 0 <= j < i ==> s[j] != k,
    ensures
        first_index(s, k) == i,
    decreases i,
{
    if i > 0 {
        lemma_first_index_found(s.drop_first(), k, i - 1);
    }
}

/// Whether `k` is one of the identities in `v`.
pub fn contains_key(v: &Vec<Pubkey>, k: &Pubkey) -> (r: bool)
    ensures
        r == keys_of(v@).contains(k@),
{
    let n = v.len();
    let mut i: usize = 0;
    while i < n
        invariant
            n == v@.len(),
            0 <= i <= n,
            forall|j: int| 0 <= j < i ==> keys_of(v@)[j] != k@,
        decreases n - i,
    {
        if v[i].eq_key(k) {
            proof {
                assert(keys_of(v@)[i as int] == k@);
            }
            return true;
        }
        i += 1;
    }
    proof {
        assert(forall|j: int| 0 <= j < keys_of(v@).len() ==> keys_of(v@)[j] != k@);
    }
    false
}

/// The index of the first occurrence of `k` among the identities in `v`.
pub fn find_key_index(v: &Vec<Pubkey>, k: &Pubkey) -> (r: Option<usize>)
    ensures
        match r {
            Some(i) => i < v@.len() && i as int == first_index(keys_of(v@), k@) && keys_of(v@)[i
                as int] == k@ && keys_of(v@).contains(k@),
            None => !keys_of(v@).contains(k@),
        },
{
    let n = v.len();
    let mut i: usize = 0;
    while i < n
        invariant
            n == v@.len(),
            0 <= i <= n,
            forall|j: int| 0 <= j < i ==> keys_of(v@)[j] != k@,
        decreases n - i,
    {
        if v[i].eq_key(k) {
            proof {
                assert(keys_of(v@)[i as int] == k@);
                lemma_first_index_found(keys_of(v@), k@, i as int);
            }
            return Some(i);
        }
        i += 1;
    }
    proof {
        assert(forall|j: int| 0 <= j < keys_of(v@).len() ==> keys_of(v@)[j] != k@);
    }
    None
}

/// The authorization check: the caller must be one of the record's
/// authorities and must have signed the call.
pub fn assert_authority(authority: &Pubkey, is_signer: bool, authorities: &Vec<Pubkey>) -> (r:
    Result<(), CollectionError>)
    ensures
        r == (if !keys_of(authorities@).contains(authority@) {
            Err::<(), CollectionError>(CollectionError::InvalidAuthority)
        } else if !is_signer {
            Err::<(), CollectionError>(CollectionError::AuthorityIsNotSigner)
        } else {
            Ok::<(), CollectionError>(())
        }),
{
    if !contains_key(authorities, authority) {
        return Err(CollectionError::InvalidAuthority);
    }
    if !is_signer {
        return Err(CollectionError::AuthorityIsNotSigner);
    }
    Ok(())
}

/// The ownership check: the account holding a record must be owned by this
/// program.
pub fn assert_owned_by(owner: &Pubkey, expected: &Pubkey) -> (r: Result<(), CollectionError>)
    ensures
        r == (if owner@ == expected@ {
            Ok::<(), CollectionError>(())
        } else {
            Err::<(), CollectionError>(CollectionError::IncorrectOwner)
        }),
{
    if owner.eq_key(expected) {
        Ok(())
    } else {
        Err(CollectionError::IncorrectOwner)
    }
}

/// Creates a collection record.
///
/// The creator must have signed the call, and the supplied target account
/// must be the address derived from the namespace tag, the program
/// identity, the creator and the record name. A positive declared
/// capacity must accommodate the initial members; a collection that could
/// never hold a member — empty, expandable, without declared capacity —
/// is rejected outright.
///
/// On success returns the new record (its sole authority is the
/// creator), the byte size of the account to allocate for it, and the
/// bump of the derived address.
pub fn create_collection(
    program_id: &Pubkey,
    collection_account: &Pubkey,
    creator: &Pubkey,
    creator_is_signer: bool,
    args: CreateCollectionArgs,
) -> (r: Result<(CollectionData, u64, u8), CollectionError>)
    requires
        program_id.wf(),
        creator.wf(),
        args.name@.len() <= MAX_NAME_LENGTH,
        args.description@.len() <= MAX_DESCRIPTION_LENGTH,
        args.image@.len() <= MAX_IMAGE_LENGTH,
        forall|i: int| 0 <= i < args.members@.len() ==> (#[trigger] args.members@[i]).wf(),
        forall|i: int| 0 <= i < args.member_of@.len() ==> (#[trigger] args.member_of@[i]).wf(),
        args.members@.len() <= u32::MAX,
        args.member_of@.len() <= u32::MAX,
    ensures
        ({
            let derived = collection_address_of(program_id@, creator@, args.name@);
            if !creator_is_signer {
                r == Err::<(CollectionData, u64, u8), CollectionError>(
                    CollectionError::CreatorIsNotSigner,
                )
            } else if derived is None || derived.unwrap().0 != collection_account@ {
                r == Err::<(CollectionData, u64, u8), CollectionError>(
                    CollectionError::InvalidCollectionAccount,
                )
            } else if args.max_size > 0 && args.members@.len() > args.max_size {
                r == Err::<(CollectionData, u64, u8), CollectionError>(
                    CollectionError::CapacityExceeded,
                )
            } else if args.max_size == 0 && expandable(args.advanced) && args.members@.len()
                == 0 {
                r == Err::<(CollectionData, u64, u8), CollectionError>(
                    CollectionError::PermanentlyEmptyCollection,
                )
            } else {
                &&& r matches Ok(out)
                &&& out.0@ == (CollectionView {
                    name: args.name@,
                    description: args.description@,
                    image: args.image@,
                    creator: creator@,
                    authorities: seq![creator@],
                    advanced: args.advanced,
                    max_size: args.max_size,
                    members: keys_of(args.members@),
                    member_of: sigs_of(args.member_of@),
                })
                &&& out.0.bytes_wf()
                &&& out.0.inv()
                &&& out.1 == create_account_size(
                    args.advanced,
                    args.max_size,
                    args.members@.len() as int,
                    args.member_of@.len() as int,
                )
                &&& out.2 == derived.unwrap().1
            }
        }),
{
    if !creator_is_signer {
        return Err(CollectionError::CreatorIsNotSigner);
    }
    let derived = derive_collection_address(program_id, creator, &args.name);
    let (collection_key, bump) = match derived {
        None => {
            return Err(CollectionError::InvalidCollectionAccount);
        },
        Some(p) => p,
    };
    if !collection_key.eq_key(collection_account) {
        return Err(CollectionError::InvalidCollectionAccount);
    }
    let mut account_size: u64 = BASE_COLLECTION_DATA_SIZE;
    if args.max_size > 0 {
        if args.members.len() as u64 > args.max_size as u64 {
            return Err(CollectionError::CapacityExceeded);
        }
        account_size = account_size + (args.max_size as u64) * MEMBER_SLOT_SIZE;
    } else if args.advanced & FLAG_EXPANDABLE != 0 {
        if args.members.len() == 0 {
            return Err(CollectionError::PermanentlyEmptyCollection);
        }
        account_size = account_size + (args.members.len() as u64) * MEMBER_SLOT_SIZE;
    }
    account_size = account_size + (args.member_of.len() as u64) * MEMBER_OF_SLOT_SIZE;
    let mut authorities: Vec<Pubkey> = Vec::new();
    authorities.push(creator.dup());
    let record = CollectionData {
        name: args.name,
        description: args.description,
        image: args.image,
        creator: creator.dup(),
        authorities,
        advanced: args.advanced,
        max_size: args.max_size,
        members: args.members,
        member_of: args.member_of,
    };
    proof {
        assert(record@ =~= (CollectionView {
            name: args.name@,
            description: args.description@,
            image: args.image@,
            creator: creator@,
            authorities: seq![creator@],
            advanced: args.advanced,
            max_size: args.max_size,
            members: keys_of(args.members@),
            member_of: sigs_of(args.member_of@),
        }));
    }
    Ok((record, account_size, bump))
}

/// Appends one member to the collection.
///
/// Requires the caller to be an authorized signer, the EXPANDABLE flag to
/// be set, and the membership to stay within the declared capacity.
pub fn add_member(
    c: &mut CollectionData,
    authority: &Pubkey,
    authority_is_signer: bool,
    new_member: &Pubkey,
) -> (r: Result<(), CollectionError>)
    requires
        old(c).bytes_wf(),
        new_member.wf(),
    ensures
        final(c).bytes_wf(),
        old(c).inv() ==> final(c).inv(),
        r == Ok::<(), CollectionError>(()) ==> final(c)@.members.len() <= final(c)@.max_size,
        ({
            let o = old(c)@;
            let f = final(c)@;
            if !o.authorities.contains(authority@) {
                r == Err::<(), CollectionError>(CollectionError::InvalidAuthority) && f == o
            } else if !authority_is_signer {
                r == Err::<(), CollectionError>(CollectionError::AuthorityIsNotSigner) && f == o
            } else if !expandable(o.advanced) {
                r == Err::<(), CollectionError>(CollectionError::NotExpandable) && f == o
            } else if o.members.len() + 1 > o.max_size {
                r == Err::<(), CollectionError>(CollectionError::CapacityExceeded) && f == o
            } else {
                r == Ok::<(), CollectionError>(()) && f == (CollectionView {
                    members: o.members.push(new_member@),
                    ..o
                })
            }
        }),
{
    assert_authority(authority, authority_is_signer, &c.authorities)?;
    if c.advanced & FLAG_EXPANDABLE == 0 {
        return Err(CollectionError::NotExpandable);
    }
    if c.members.len() as u64 >= c.max_size as u64 {
        return Err(CollectionError::CapacityExceeded);
    }
    c.members.push(new_member.dup());
    proof {
        assert(c@ =~= (CollectionView {
            members: old(c)@.members.push(new_member@),
            ..old(c)@
        }));
    }
    Ok(())
}

/// Appends many members to the collection, preserving their order.
///
/// Requires the caller to be an authorized signer, the EXPANDABLE flag to
/// be set, and the grown membership to stay within the declared capacity.
pub fn add_members(
    c: &mut CollectionData,
    authority: &Pubkey,
    authority_is_signer: bool,
    new_members: &Vec<Pubkey>,
) -> (r: Result<(), CollectionError>)
    requires
        old(c).bytes_wf(),
        forall|i: int| 0 <= i < new_members@.len() ==> (#[trigger] new_members@[i]).wf(),
        old(c)@.members.len() + new_members@.len() <= u32::MAX,
    ensures
        final(c).bytes_wf(),
        old(c).inv() ==> final(c).inv(),
        r == Ok::<(), CollectionError>(()) && final(c)@.max_size > 0 ==> final(c)@.members.len()
            <= final(c)@.max_size,
        ({
            let o = old(c)@;
            let f = final(c)@;
            if !o.authorities.contains(authority@) {
                r == Err::<(), CollectionError>(CollectionError::InvalidAuthority) && f == o
            } else if !authority_is_signer {
                r == Err::<(), CollectionError>(CollectionError::AuthorityIsNotSigner) && f == o
            } else if !expandable(o.advanced) {
                r == Err::<(), CollectionError>(CollectionError::NotExpandable) && f == o
            } else if o.members.len() + new_members@.len() > o.max_size {
                r == Err::<(), CollectionError>(CollectionError::CapacityExceeded) && f == o
            } else {
                r == Ok::<(), CollectionError>(()) && f == (CollectionView {
                    members: o.members + keys_of(new_members@),
                    ..o
                })
            }
        }),
{
    assert_authority(authority, authority_is_signer, &c.authorities)?;
    if c.advanced & FLAG_EXPANDABLE == 0 {
        return Err(CollectionError::NotExpandable);
    }
    if (c.max_size as u128) < c.members.len() as u128 + new_members.len() as u128 {
        return Err(CollectionError::CapacityExceeded);
    }
    let n = new_members.len();
    let mut i: usize = 0;
    while i < n
        invariant
            n == new_members@.len(),
            0 <= i <= n,
            keys_of(c.members@) == keys_of(old(c).members@) + keys_of(new_members@).subrange(
                0,
                i as int,
            ),
            c.name@ == old(c).name@,
            c.description@ == old(c).description@,
            c.image@ == old(c).image@,
            c.creator == old(c).creator,
            c.authorities == old(c).authorities,
            c.advanced == old(c).advanced,
            c.max_size == old(c).max_size,
            c.member_of == old(c).member_of,
        decreases n - i,
    {
        let m = new_members[i].dup();
        proof {
            assert(m@ == keys_of(new_members@)[i as int]);
        }
        let ghost pre = c.members@;
        c.members.push(m);
        proof {
            assert(c.members@ == pre.push(m));
            assert(keys_of(c.members@) =~= keys_of(pre).push(m@));
            assert(keys_of(c.members@) =~= keys_of(old(c).members@) + keys_of(
                new_members@,
            ).subrange(0, i + 1));
        }
        i += 1;
    }
    proof {
        assert(keys_of(new_members@).subrange(0, n as int) =~= keys_of(new_members@));
        assert(c@ =~= (CollectionView {
            members: old(c)@.members + keys_of(new_members@),
            ..old(c)@
        }));
    }
    Ok(())
}

/// Removes the member at the supplied index, preserving the order of the
/// remaining members.
///
/// Requires the caller to be an authorized signer, the REMOVABLE flag to
/// be set, and the member at the index to be the supplied identity.
pub fn remove_member(
    c: &mut CollectionData,
    authority: &Pubkey,
    authority_is_signer: bool,
    removed_member: &Pubkey,
    args: RemoveMemberArgs,
) -> (r: Result<(), CollectionError>)
    requires
        old(c).bytes_wf(),
    ensures
        final(c).bytes_wf(),
        old(c).inv() ==> final(c).inv(),
        ({
            let o = old(c)@;
            let f = final(c)@;
            if !o.authorities.contains(authority@) {
                r == Err::<(), CollectionError>(CollectionError::InvalidAuthority) && f == o
            } else if !authority_is_signer {
                r == Err::<(), CollectionError>(CollectionError::AuthorityIsNotSigner) && f == o
            } else if !removable(o.advanced) {
                r == Err::<(), CollectionError>(CollectionError::NotRemovable) && f == o
            } else if args.index >= o.members.len() || o.members[args.index as int]
                != removed_member@ {
                r == Err::<(), CollectionError>(CollectionError::MemberAssetNotFound) && f == o
            } else {
                r == Ok::<(), CollectionError>(()) && f == (CollectionView {
                    members: o.members.remove(args.index as int),
                    ..o
                })
            }
        }),
{
    assert_authority(authority, authority_is_signer, &c.authorities)?;
    if c.advanced & FLAG_REMOVABLE == 0 {
        return Err(CollectionError::NotRemovable);
    }
    if args.index >= c.members.len() || !c.members[args.index].eq_key(removed_member) {
        return Err(CollectionError::MemberAssetNotFound);
    }
    c.members.remove(args.index);
    proof {
        assert(keys_of(c.members@) =~= old(c)@.members.remove(args.index as int));
        assert(c@ =~= (CollectionView {
            members: old(c)@.members.remove(args.index as int),
            ..old(c)@
        }));
    }
    Ok(())
}

/// Moves the member at `old_index` to `new_index`, preserving the relative
/// order of the other members. Moving a member onto its own index is a
/// no-op that always succeeds.
///
/// Any other move requires the caller to be an authorized signer, the
/// ARRANGEABLE flag to be set, and both indices to be in bounds.
pub fn arrange_member(
    c: &mut CollectionData,
    authority: &Pubkey,
    authority_is_signer: bool,
    args: ArrangeMemberArgs,
) -> (r: Result<(), CollectionError>)
    requires
        old(c).bytes_wf(),
    ensures
        final(c).bytes_wf(),
        old(c).inv() ==> final(c).inv(),
        ({
            let o = old(c)@;
            let f = final(c)@;
            if args.old_index == args.new_index {
                r == Ok::<(), CollectionError>(()) && f == o
            } else if !o.authorities.contains(authority@) {
                r == Err::<(), CollectionError>(CollectionError::InvalidAuthority) && f == o
            } else if !authority_is_signer {
                r == Err::<(), CollectionError>(CollectionError::AuthorityIsNotSigner) && f == o
            } else if !arrangeable(o.advanced) {
                r == Err::<(), CollectionError>(CollectionError::NotArrangeable) && f == o
            } else if args.old_index >= o.members.len() {
                r == Err::<(), CollectionError>(CollectionError::InvalidOriginalArrangeIndex)
                    && f == o
            } else if args.new_index >= o.members.len() {
                r == Err::<(), CollectionError>(CollectionError::InvalidNewArrangeIndex) && f == o
            } else {
                r == Ok::<(), CollectionError>(()) && f == (CollectionView {
                    members: o.members.remove(args.old_index as int).insert(
                        args.new_index as int,
                        o.members[args.old_index as int],
                    ),
                    ..o
                })
            }
        }),
{
    if args.old_index == args.new_index {
        return Ok(());
    }
    assert_authority(authority, authority_is_signer, &c.authorities)?;
    if c.advanced & FLAG_ARRANGEABLE == 0 {
        return Err(CollectionError::NotArrangeable);
    }
    if args.old_index >= c.members.len() {
        return Err(CollectionError::InvalidOriginalArrangeIndex);
    }
    if args.new_index >= c.members.len() {
        return Err(CollectionError::InvalidNewArrangeIndex);
    }
    let moved = c.members.remove(args.old_index);
    c.members.insert(args.new_index, moved);
    proof {
        assert(keys_of(c.members@) =~= old(c)@.members.remove(args.old_index as int).insert(
            args.new_index as int,
            old(c)@.members[args.old_index as int],
        ));
        assert(c@ =~= (CollectionView {
            members: old(c)@.members.remove(args.old_index as int).insert(
                args.new_index as int,
                old(c)@.members[args.old_index as int],
            ),
            ..old(c)@
        }));
    }
    Ok(())
}

/// Appends a member-of reference: a signed claim that this record is a
/// member of the parent collection.
///
/// Requires the caller to be an authorized signer; member-of references
/// are not gated by the feature flags.
pub fn add_member_of(
    c: &mut CollectionData,
    authority: &Pubkey,
    authority_is_signer: bool,
    member_of_collection: &Pubkey,
    args: &AddMemberOfArgs,
) -> (r: Result<(), CollectionError>)
    requires
        old(c).bytes_wf(),
        member_of_collection.wf(),
        args.signature@.len() == SIGNATURE_LEN,
        old(c)@.member_of.len() + 1 <= u32::MAX,
    ensures
        final(c).bytes_wf(),
        old(c).inv() ==> final(c).inv(),
        ({
            let o = old(c)@;
            let f = final(c)@;
            if !o.authorities.contains(authority@) {
                r == Err::<(), CollectionError>(CollectionError::InvalidAuthority) && f == o
            } else if !authority_is_signer {
                r == Err::<(), CollectionError>(CollectionError::AuthorityIsNotSigner) && f == o
            } else {
                r == Ok::<(), CollectionError>(()) && f == (CollectionView {
                    member_of: o.member_of.push(
                        SignatureView {
                            collection: member_of_collection@,
                            signature: args.signature@,
                        },
                    ),
                    ..o
                })
            }
        }),
{
    assert_authority(authority, authority_is_signer, &c.authorities)?;
    let reference = CollectionSignature {
        collection: member_of_collection.dup(),
        signature: crate::types::copy_bytes(&args.signature),
    };
    c.member_of.push(reference);
    proof {
        assert(c@ =~= (CollectionView {
            member_of: old(c)@.member_of.push(
                SignatureView {
                    collection: member_of_collection@,
                    signature: args.signature@,
                },
            ),
            ..old(c)@
        }));
    }
    Ok(())
}

/// Appends a new authority, unless it is already present: adding an
/// existing authority is a silent no-op that still succeeds.
///
/// Requires the caller to be an authorized signer.
pub fn add_authority(
    c: &mut CollectionData,
    authority: &Pubkey,
    authority_is_signer: bool,
    added_authority: &Pubkey,
) -> (r: Result<(), CollectionError>)
    requires
        old(c).bytes_wf(),
        added_authority.wf(),
        old(c)@.authorities.len() + 1 <= u32::MAX,
    ensures
        final(c).bytes_wf(),
        old(c).inv() ==> final(c).inv(),
        ({
            let o = old(c)@;
            let f = final(c)@;
            if !o.authorities.contains(authority@) {
                r == Err::<(), CollectionError>(CollectionError::InvalidAuthority) && f == o
            } else if !authority_is_signer {
                r == Err::<(), CollectionError>(CollectionError::AuthorityIsNotSigner) && f == o
            } else if o.authorities.contains(added_authority@) {
                r == Ok::<(), CollectionError>(()) && f == o
            } else {
                r == Ok::<(), CollectionError>(()) && f == (CollectionView {
                    authorities: o.authorities.push(added_authority@),
                    ..o
                })
            }
        }),
{
    assert_authority(authority, authority_is_signer, &c.authorities)?;
    if !contains_key(&c.authorities, added_authority) {
        c.authorities.push(added_authority.dup());
        proof {
            assert(c@ =~= (CollectionView {
                authorities: old(c)@.authorities.push(added_authority@),
                ..old(c)@
            }));
        }
    }
    Ok(())
}

/// Removes an authority. The removal must not empty the authority set:
/// the sole remaining authority can never be removed. The order of the
/// remaining authorities is not preserved.
///
/// Requires the caller to be an authorized signer.
pub fn remove_authority(
    c: &mut CollectionData,
    authority: &Pubkey,
    authority_is_signer: bool,
    removed_authority: &Pubkey,
) -> (r: Result<(), CollectionError>)
    requires
        old(c).bytes_wf(),
    ensures
        final(c).bytes_wf(),
        old(c).inv() ==> final(c).inv(),
        r == Ok::<(), CollectionError>(()) ==> final(c)@.authorities.len() >= 1,
        ({
            let o = old(c)@;
            let f = final(c)@;
            if !o.authorities.contains(authority@) {
                r == Err::<(), CollectionError>(CollectionError::InvalidAuthority) && f == o
            } else if !authority_is_signer {
                r == Err::<(), CollectionError>(CollectionError::AuthorityIsNotSigner) && f == o
            } else if !o.authorities.contains(removed_authority@) {
                r == Err::<(), CollectionError>(CollectionError::AuthorityNotFound) && f == o
            } else if o.authorities.len() == 1 {
                r == Err::<(), CollectionError>(CollectionError::CollectionMustHaveAuthority)
                    && f == o
            } else {
                r == Ok::<(), CollectionError>(()) && f == (CollectionView {
                    authorities: o.authorities.update(
                        first_index(o.authorities, removed_authority@),
                        o.authorities.last(),
                    ).drop_last(),
                    ..o
                })
            }
        }),
{
    assert_authority(authority, authority_is_signer, &c.authorities)?;
    let found = find_key_index(&c.authorities, removed_authority);
    match found {
        None => Err(CollectionError::AuthorityNotFound),
        Some(authority_index) => {
            if c.authorities.len() == 1 {
                return Err(CollectionError::CollectionMustHaveAuthority);
            }
            c.authorities.swap_remove(authority_index);
            proof {
                assert(keys_of(c.authorities@) =~= old(c)@.authorities.update(
                    first_index(old(c)@.authorities, removed_authority@),
                    old(c)@.authorities.last(),
                ).drop_last());
                assert(c@ =~= (CollectionView {
                    authorities: old(c)@.authorities.update(
                        first_index(old(c)@.authorities, removed_authority@),
                        old(c)@.authorities.last(),
                    ).drop_last(),
                    ..old(c)@
                }));
            }
            Ok(())
        },
    }
}

/// Freezes the collection: clears every feature flag, permanently
/// disabling the flag-gated mutations. There is no unfreeze.
///
/// Requires the caller to be an authorized signer.
pub fn freeze_collection(
    c: &mut CollectionData,
    authority: &Pubkey,
    authority_is_signer: bool,
) -> (r: Result<(), CollectionError>)
    requires
        old(c).bytes_wf(),
    ensures
        final(c).bytes_wf(),
        old(c).inv() ==> final(c).inv(),
        ({
            let o = old(c)@;
            let f = final(c)@;
            if !o.authorities.contains(authority@) {
                r == Err::<(), CollectionError>(CollectionError::InvalidAuthority) && f == o
            } else if !authority_is_signer {
                r == Err::<(), CollectionError>(CollectionError::AuthorityIsNotSigner) && f == o
            } else {
                r == Ok::<(), CollectionError>(()) && f == (CollectionView {
                    advanced: 0,
                    ..o
                })
            }
        }),
{
    assert_authority(authority, authority_is_signer, &c.authorities)?;
    c.advanced = 0;
    proof {
        assert(c@ =~= (CollectionView { advanced: 0, ..old(c)@ }));
    }
    Ok(())
}

} // verus!
