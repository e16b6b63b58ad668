//! The collection record: its fields, feature flags and invariants.

use vstd::prelude::*;

use crate::types::{CollectionSignature, Pubkey, SignatureView, PUBKEY_LEN};

verus! {

/// Flag bit: members may be removed from the collection.
pub const FLAG_REMOVABLE: u8 = 1;

/// Flag bit: members may be appended to the collection.
pub const FLAG_EXPANDABLE: u8 = 2;

/// Flag bit: the order of the members may be changed.
pub const FLAG_ARRANGEABLE: u8 = 4;

/// Byte cap of a record's name.
pub const MAX_NAME_LENGTH: usize = 64;

/// Byte cap of a record's description.
pub const MAX_DESCRIPTION_LENGTH: usize = 512;

/// Byte cap of a record's image URI.
pub const MAX_IMAGE_LENGTH: usize = 2048;

/// The fixed-width part of the record's persisted layout: the four
/// sequence-length prefixes, the creator identity, one reserved authority
/// slot, the flags byte and the declared capacity.
pub const BASE_COLLECTION_DATA_SIZE: u64 = 82;

/// Bytes of one member identity slot in the persisted layout.
pub const MEMBER_SLOT_SIZE: u64 = 32;

/// Bytes of one member-of reference slot in the persisted layout:
/// an identity and a 32-byte signature.
pub const MEMBER_OF_SLOT_SIZE: u64 = 64;

/// Whether the REMOVABLE flag is set.
pub open spec fn removable(flags: u8) -> bool {
    flags & FLAG_REMOVABLE != 0
}

/// Whether the EXPANDABLE flag is set.
pub open spec fn expandable(flags: u8) -> bool {
    flags & FLAG_EXPANDABLE != 0
}

/// Whether the ARRANGEABLE flag is set.
pub open spec fn arrangeable(flags: u8) -> bool {
    flags & FLAG_ARRANGEABLE != 0
}

/// The byte size of the account a create operation allocates: the fixed
/// header, one identity slot for each unit of the declared capacity (or,
/// for an expandable collection without a declared capacity, for each
/// initial member), and one reference slot for each member-of reference.
pub open spec fn create_account_size(
    advanced: u8,
    max_size: u32,
    n_members: int,
    n_member_of: int,
) -> int {
    BASE_COLLECTION_DATA_SIZE + (if max_size > 0 {
        max_size * MEMBER_SLOT_SIZE
    } else if expandable(advanced) {
        n_members * MEMBER_SLOT_SIZE
    } else {
        0
    }) + n_member_of * MEMBER_OF_SLOT_SIZE
}

/// The identities a sequence of keys holds.
pub open spec fn keys_of(v: Seq<Pubkey>) -> Seq<Seq<u8>> {
    v.map_values(|k: Pubkey| k@)
}

/// The values a sequence of member-of references holds.
pub open spec fn sigs_of(v: Seq<CollectionSignature>) -> Seq<SignatureView> {
    v.map_values(|s: CollectionSignature| s@)
}

/// One collection record.
pub struct CollectionData {
    /// The record's name, as UTF-8 bytes.
    pub name: Vec<u8>,
    /// A short description, as UTF-8 bytes.
    pub description: Vec<u8>,
    /// A URI for the collection to display, as UTF-8 bytes.
    pub image: Vec<u8>,
    /// The identity that created the record; immutable after creation.
    pub creator: Pubkey,
    /// The identities permitted to mutate the record; never empty.
    pub authorities: Vec<Pubkey>,
    /// The feature-flag bits; zero means frozen.
    pub advanced: u8,
    /// The declared capacity of `members`; zero means the membership is
    /// fixed at its creation-time contents.
    pub max_size: u32,
    /// The ordered member identities; the order is meaningful.
    pub members: Vec<Pubkey>,
    /// Signed claims of membership in other collections; append-only.
    pub member_of: Vec<CollectionSignature>,
}

/// The mathematical value of a collection record.
#[verifier::ext_equal]
pub ghost struct CollectionView {
    pub name: Seq<u8>,
    pub description: Seq<u8>,
    pub image: Seq<u8>,
    pub creator: Seq<u8>,
    pub authorities: Seq<Seq<u8>>,
    pub advanced: u8,
    pub max_size: u32,
    pub members: Seq<Seq<u8>>,
    pub member_of: Seq<SignatureView>,
}

impl View for CollectionData {
    type V = CollectionView;

    open spec fn view(&self) -> CollectionView {
        CollectionView {
            name: self.name@,
            description: self.description@,
            image: self.image@,
            creator: self.creator@,
            authorities: keys_of(self.authorities@),
            advanced: self.advanced,
            max_size: self.max_size,
            members: keys_of(self.members@),
            member_of: sigs_of(self.member_of@),
        }
    }
}

impl CollectionView {
    /// The shape every record value must have so that it fits the binary
    /// layout: 32-byte identities and signatures, and sequence lengths that
    /// fit the 32-bit length prefixes.
    pub open spec fn bytes_wf(&self) -> bool {
        &&& self.creator.len() == PUBKEY_LEN
        &&& forall|i: int|
            0 <= i < self.authorities.len() ==> (#[trigger] self.authorities[i]).len()
                == PUBKEY_LEN
        &&& forall|i: int|
            0 <= i < self.members.len() ==> (#[trigger] self.members[i]).len() == PUBKEY_LEN
        &&& forall|i: int|
            0 <= i < self.member_of.len() ==> (#[trigger] self.member_of[i]).collection.len()
                == PUBKEY_LEN && self.member_of[i].signature.len() == PUBKEY_LEN
        &&& self.name.len() <= u32::MAX
        &&& self.description.len() <= u32::MAX
        &&& self.image.len() <= u32::MAX
        &&& self.authorities.len() <= u32::MAX
        &&& self.members.len() <= u32::MAX
        &&& self.member_of.len() <= u32::MAX
    }

    /// The record invariant every operation preserves: at least one
    /// authority remains, and a positive declared capacity bounds the
    /// membership.
    pub open spec fn inv(&self) -> bool {
        &&& self.authorities.len() >= 1
        &&& self.max_size > 0 ==> self.members.len() <= self.max_size
    }
}

impl CollectionData {
    /// See [`CollectionView::bytes_wf`].
    pub open spec fn bytes_wf(&self) -> bool {
        self@.bytes_wf()
    }

    /// See [`CollectionView::inv`].
    pub open spec fn inv(&self) -> bool {
        self@.inv()
    }
}

} // verus!
