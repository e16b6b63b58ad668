//! The instruction surface: the argument payload of each operation.

use vstd::prelude::*;

use crate::types::{CollectionSignature, Pubkey};

verus! {

/// Arguments of the create operation.
pub struct CreateCollectionArgs {
    /// The name of the collection, as UTF-8 bytes.
    pub name: Vec<u8>,
    /// A short description of the collection, as UTF-8 bytes.
    pub description: Vec<u8>,
    /// A URI for the collection to display, as UTF-8 bytes.
    pub image: Vec<u8>,
    /// The feature-flag bits: REMOVABLE, EXPANDABLE, ARRANGEABLE.
    pub advanced: u8,
    /// The maximum number of members the collection may ever hold;
    /// zero fixes the membership at its initial contents.
    pub max_size: u32,
    /// The initial member identities.
    pub members: Vec<Pubkey>,
    /// The initial member-of references.
    pub member_of: Vec<CollectionSignature>,
}

/// Arguments of the single-member add operation; the member itself is a
/// referenced account.
pub struct AddMemberArgs {}

/// Arguments of the many-member add operation; the members themselves are
/// referenced accounts.
pub struct AddMembersArgs {}

/// Arguments of the remove-member operation.
pub struct RemoveMemberArgs {
    /// The index of the member in the membership list.
    pub index: usize,
}

/// Arguments of the arrange-member operation.
pub struct ArrangeMemberArgs {
    /// The index the member currently stands at.
    pub old_index: usize,
    /// The index the member is moved to.
    pub new_index: usize,
}

/// Arguments of the add-member-of operation.
pub struct AddMemberOfArgs {
    /// The parent collection the record claims membership in.
    pub collection: Pubkey,
    /// The attached signature of the claim.
    pub signature: Vec<u8>,
}

/// Arguments of the freeze operation.
pub struct FreezeCollectionArgs {}

/// Arguments of the add-authority operation; the added identity is a
/// referenced account.
pub struct AddAuthorityArgs {}

/// Arguments of the remove-authority operation; the removed identity is a
/// referenced account.
pub struct RemoveAuthorityArgs {}

/// One decoded instruction: the operation a dispatcher routes to, with its
/// argument payload.
pub enum CollectionInstruction {
    CreateCollection(CreateCollectionArgs),
    AddMembers(AddMembersArgs),
    RemoveMember(RemoveMemberArgs),
    ArrangeMember(ArrangeMemberArgs),
    AddMemberOf(AddMemberOfArgs),
    FreezeCollection(FreezeCollectionArgs),
    AddAuthority(AddAuthorityArgs),
    RemoveAuthority(RemoveAuthorityArgs),
}

} // verus!
