//! Errors returned by the collection operations.
//!
//! Every failure is a terminal validation failure surfaced to the caller;
//! no operation recovers or retries internally.

use vstd::prelude::*;

verus! {

/// Errors that may be returned by the collection operations.
#[derive(Clone, Copy, Debug, PartialEq, Eq, Structural)]
pub enum CollectionError {
    /// The supplied collection account does not match the derived address.
    InvalidCollectionAccount,
    /// The collection account is not owned by this program.
    IncorrectOwner,
    /// The account data does not hold a whole number of identity slots
    /// beyond the fixed header, or does not decode as a record.
    DataTypeMismatch,
    /// The collection's EXPANDABLE flag is not set.
    NotExpandable,
    /// The collection's REMOVABLE flag is not set.
    NotRemovable,
    /// The collection's ARRANGEABLE flag is not set.
    NotArrangeable,
    /// The mutation would exceed the collection's declared capacity.
    CapacityExceeded,
    /// The collection could never hold a member: it starts empty and can
    /// never grow.
    PermanentlyEmptyCollection,
    /// The member at the supplied index is not the supplied identity.
    MemberAssetNotFound,
    /// The original index of an arrange operation is out of bounds.
    InvalidOriginalArrangeIndex,
    /// The new index of an arrange operation is out of bounds.
    InvalidNewArrangeIndex,
    /// The caller is not one of the collection's authorities.
    InvalidAuthority,
    /// The caller is an authority but did not sign the call.
    AuthorityIsNotSigner,
    /// The authority to remove is not present.
    AuthorityNotFound,
    /// Removing the authority would leave the collection without any.
    CollectionMustHaveAuthority,
    /// The creator of a new collection did not sign the call.
    CreatorIsNotSigner,
}

impl CollectionError {
    /// The numeric code under which the error is surfaced to the caller.
    pub fn code(&self) -> (r: u32)
        ensures
            r == self.code_spec(),
    {
        match self {
            CollectionError::InvalidCollectionAccount => 0,
            CollectionError::IncorrectOwner => 1,
            CollectionError::DataTypeMismatch => 2,
            CollectionError::NotExpandable => 3,
            CollectionError::NotRemovable => 4,
            CollectionError::NotArrangeable => 5,
            CollectionError::CapacityExceeded => 6,
            CollectionError::PermanentlyEmptyCollection => 7,
            CollectionError::MemberAssetNotFound => 8,
            CollectionError::InvalidOriginalArrangeIndex => 9,
            CollectionError::InvalidNewArrangeIndex => 10,
            CollectionError::InvalidAuthority => 11,
            CollectionError::AuthorityIsNotSigner => 12,
            CollectionError::AuthorityNotFound => 13,
            CollectionError::CollectionMustHaveAuthority => 14,
            CollectionError::CreatorIsNotSigner => 15,
        }
    }

    /// The numeric code of each error.
    pub open spec fn code_spec(&self) -> u32 {
        match self {
            CollectionError::InvalidCollectionAccount => 0,
            CollectionError::IncorrectOwner => 1,
            CollectionError::DataTypeMismatch => 2,
            CollectionError::NotExpandable => 3,
            CollectionError::NotRemovable => 4,
            CollectionError::NotArrangeable => 5,
            CollectionError::CapacityExceeded => 6,
            CollectionError::PermanentlyEmptyCollection => 7,
            CollectionError::MemberAssetNotFound => 8,
            CollectionError::InvalidOriginalArrangeIndex => 9,
            CollectionError::InvalidNewArrangeIndex => 10,
            CollectionError::InvalidAuthority => 11,
            CollectionError::AuthorityIsNotSigner => 12,
            CollectionError::AuthorityNotFound => 13,
            CollectionError::CollectionMustHaveAuthority => 14,
            CollectionError::CreatorIsNotSigner => 15,
        }
    }
}

} // verus!
