//! A page-based registry layout.
//!
//! A companion layout to the main record: here a collection carries a
//! single authority and a mutability flag, and its assets are recorded on
//! fixed-size pages of identity slots, with one mapping account per
//! asset. The embedding program enforces the account constraints — the
//! caller must be the collection's authority and must sign, and most
//! mutations require the collection to still be mutable — which
//! [`mutation_allowed`] states; the functions here are the decision logic
//! that runs once those constraints hold.

use vstd::pervasive::VecAdditionalExecFns;
use vstd::prelude::*;

use crate::types::Pubkey;

verus! {

/// The number of identity slots on one page.
pub const MAX_PAGE_SIZE: usize = 256;

/// The byte size of an account discriminator tag.
pub const DISCRIMINATOR_SIZE: u64 = 8;

/// Errors of the page-based layout.
#[derive(Clone, Copy, Debug, PartialEq, Eq, Structural)]
pub enum ErrorCode {
    /// No bump was supplied for the account being initialized.
    BumpNotInContext,
    /// The page has run out of slots.
    PageFull,
}

/// A collection of the page-based layout.
pub struct Collection {
    /// The identity that created the collection; immutable.
    pub creator: Pubkey,
    /// The single identity permitted to mutate the collection.
    pub authority: Pubkey,
    /// Whether the collection may still be mutated.
    pub mutable: bool,
    /// The collection's name, as UTF-8 bytes.
    pub name: Vec<u8>,
    /// The bump of the collection's derived address.
    pub bump: u8,
    /// Free-form metadata, as UTF-8 bytes.
    pub meta: Vec<u8>,
    /// The index of the most recently added page.
    pub latest_page_index: u32,
}

/// One fixed-size page of asset slots.
pub struct CollectionPage {
    /// The collection the page belongs to.
    pub collection: Pubkey,
    /// The page's index within its collection.
    pub index: u32,
    /// The bump of the page's derived address.
    pub bump: u8,
    /// The asset slots; a cleared slot holds nothing.
    pub assets: Vec<Option<Pubkey>>,
    /// The first never-written slot.
    pub current_index: u8,
}

/// One asset's membership mapping.
pub struct AssetMapping {
    /// The collection the asset belongs to.
    pub collection: Pubkey,
    /// The asset itself.
    pub asset: Pubkey,
    /// The bump of the mapping's derived address.
    pub bump: u8,
    /// Free-form metadata, as UTF-8 bytes.
    pub meta: Vec<u8>,
}

/// The identities the slots of a page hold.
pub open spec fn slots_of(v: Seq<Option<Pubkey>>) -> Seq<Option<Seq<u8>>> {
    v.map_values(
        |o: Option<Pubkey>|
            match o {
                Option::None => Option::<Seq<u8>>::None,
                Option::Some(k) => Option::Some(k@),
            },
    )
}

impl Collection {
    /// The byte size of a collection account: the discriminator, the two
    /// identities, the mutability flag, the two length-prefixed text
    /// fields and the page index and bump.
    pub fn space(name: &Vec<u8>, meta: &Vec<u8>) -> (r: u64)
        requires
            name@.len() <= u32::MAX,
            meta@.len() <= u32::MAX,
        ensures
            r == DISCRIMINATOR_SIZE + 32 + 32 + 1 + 4 + name@.len() + 1 + 4 + meta@.len(),
    {
        DISCRIMINATOR_SIZE + 32 + 32 + 1 + 4 + (name.len() as u64) + 1 + 4 + (meta.len() as u64)
    }
}

impl AssetMapping {
    /// The byte size of a mapping account: the discriminator, the two
    /// identities, the bump and the length-prefixed metadata.
    pub fn space(meta: &Vec<u8>) -> (r: u64)
        requires
            meta@.len() <= u32::MAX,
        ensures
            r == DISCRIMINATOR_SIZE + 32 + 32 + 1 + 4 + meta@.len(),
    {
        DISCRIMINATOR_SIZE + 32 + 32 + 1 + 4 + (meta.len() as u64)
    }
}

/// The account constraints every page-layout mutation runs under: the
/// caller is the collection's authority, has signed the call, and the
/// collection is still mutable.
pub fn mutation_allowed(collection: &Collection, authority: &Pubkey, is_signer: bool) -> (r: bool)
    ensures
        r == (collection.authority@ == authority@ && is_signer && collection.mutable),
{
    collection.authority.eq_key(authority) && is_signer && collection.mutable
}

/// Initializes a collection: the creator becomes its sole authority and
/// it starts mutable with no pages.
pub fn initialize_collection(creator: &Pubkey, name: Vec<u8>, meta: Vec<u8>, bump: Option<u8>) -> (r:
    Result<Collection, ErrorCode>)
    ensures
        match bump {
            Option::None => r == Err::<Collection, ErrorCode>(ErrorCode::BumpNotInContext),
            Option::Some(b) => {
                &&& r matches Ok(c)
                &&& c.creator@ == creator@
                &&& c.authority@ == creator@
                &&& c.mutable == true
                &&& c.name@ == name@
                &&& c.bump == b
                &&& c.meta@ == meta@
                &&& c.latest_page_index == 0
            },
        },
{
    let b = match bump {
        None => {
            return Err(ErrorCode::BumpNotInContext);
        },
        Some(b) => b,
    };
    Ok(
        Collection {
            creator: creator.dup(),
            authority: creator.dup(),
            mutable: true,
            name,
            bump: b,
            meta,
            latest_page_index: 0,
        },
    )
}

/// Adds a fresh page to a collection and records it as the latest.
/// Every slot of the fresh page is empty.
pub fn add_page(
    collection: &mut Collection,
    collection_key: &Pubkey,
    index: u32,
    bump: Option<u8>,
) -> (r: Result<CollectionPage, ErrorCode>)
    ensures
        match bump {
            Option::None => r == Err::<CollectionPage, ErrorCode>(ErrorCode::BumpNotInContext)
                && *final(collection) == *old(collection),
            Option::Some(b) => {
                &&& r matches Ok(p)
                &&& p.collection@ == collection_key@
                &&& p.index == index
                &&& p.bump == b
                &&& p.assets@.len() == MAX_PAGE_SIZE
                &&& forall|i: int| 0 <= i < p.assets@.len() ==> (#[trigger] p.assets@[i]) is None
                &&& p.current_index == 0
                &&& final(collection).latest_page_index == index
                &&& final(collection).creator == old(collection).creator
                &&& final(collection).authority == old(collection).authority
                &&& final(collection).mutable == old(collection).mutable
                &&& final(collection).name == old(collection).name
                &&& final(collection).bump == old(collection).bump
                &&& final(collection).meta == old(collection).meta
            },
        },
{
    let b = match bump {
        None => {
            return Err(ErrorCode::BumpNotInContext);
        },
        Some(b) => b,
    };
    let mut assets: Vec<Option<Pubkey>> = Vec::new();
    let mut i: usize = 0;
    while i < MAX_PAGE_SIZE
        invariant
            0 <= i <= MAX_PAGE_SIZE,
            assets@.len() == i,
            forall|j: int| 0 <= j < assets@.len() ==> (#[trigger] assets@[j]) is None,
        decreases MAX_PAGE_SIZE - i,
    {
        assets.push(None);
        i += 1;
    }
    let page = CollectionPage {
        collection: collection_key.dup(),
        index,
        bump: b,
        assets,
        current_index: 0,
    };
    collection.latest_page_index = index;
    Ok(page)
}

/// Records an asset on the collection's page and returns its mapping.
///
/// The slot the page's cursor points at receives the asset and the
/// cursor advances; a page whose cursor has reached the last slot is
/// full.
pub fn add_asset(
    collection_page: &mut CollectionPage,
    collection_key: &Pubkey,
    asset: &Pubkey,
    meta: Vec<u8>,
    bump: Option<u8>,
) -> (r: Result<AssetMapping, ErrorCode>)
    requires
        old(collection_page).assets@.len() == MAX_PAGE_SIZE,
    ensures
        final(collection_page).assets@.len() == MAX_PAGE_SIZE,
        ({
            if bump is None {
                r == Err::<AssetMapping, ErrorCode>(ErrorCode::BumpNotInContext)
                    && *final(collection_page) == *old(collection_page)
            } else if old(collection_page).current_index == 255 {
                r == Err::<AssetMapping, ErrorCode>(ErrorCode::PageFull) && *final(collection_page)
                    == *old(collection_page)
            } else {
                &&& r matches Ok(m)
                &&& m.collection@ == collection_key@
                &&& m.asset@ == asset@
                &&& m.bump == bump.unwrap()
                &&& m.meta@ == meta@
                &&& slots_of(final(collection_page).assets@) == slots_of(
                    old(collection_page).assets@,
                ).update(old(collection_page).current_index as int, Option::Some(asset@))
                &&& final(collection_page).current_index == old(collection_page).current_index
                    + 1
                &&& final(collection_page).collection == old(collection_page).collection
                &&& final(collection_page).index == old(collection_page).index
                &&& final(collection_page).bump == old(collection_page).bump
            }
        }),
{
    let b = match bump {
        None => {
            return Err(ErrorCode::BumpNotInContext);
        },
        Some(b) => b,
    };
    if collection_page.current_index == 255 {
        return Err(ErrorCode::PageFull);
    }
    let mapping = AssetMapping {
        collection: collection_key.dup(),
        asset: asset.dup(),
        bump: b,
        meta,
    };
    let slot = collection_page.current_index as usize;
    collection_page.assets.set(slot, Some(asset.dup()));
    collection_page.current_index = collection_page.current_index + 1;
    proof {
        assert(slots_of(collection_page.assets@) =~= slots_of(
            old(collection_page).assets@,
        ).update(old(collection_page).current_index as int, Option::Some(asset@)));
    }
    Ok(mapping)
}

/// Clears every slot of the page that holds the asset.
pub fn remove_asset(collection_page: &mut CollectionPage, asset: &Pubkey)
    ensures
        final(collection_page).assets@.len() == old(collection_page).assets@.len(),
        forall|i: int|
            0 <= i < final(collection_page).assets@.len() ==> slots_of(
                final(collection_page).assets@,
            )[i] == (if slots_of(old(collection_page).assets@)[i] == Option::Some(asset@) {
                Option::<Seq<u8>>::None
            } else {
                slots_of(old(collection_page).assets@)[i]
            }),
        final(collection_page).collection == old(collection_page).collection,
        final(collection_page).index == old(collection_page).index,
        final(collection_page).bump == old(collection_page).bump,
        final(collection_page).current_index == old(collection_page).current_index,
{
    let n = collection_page.assets.len();
    let mut i: usize = 0;
    while i < n
        invariant
            n == collection_page.assets@.len(),
            n == old(collection_page).assets@.len(),
            0 <= i <= n,
            forall|j: int|
                0 <= j < n ==> slots_of(collection_page.assets@)[j] == (if j < i && slots_of(
                    old(collection_page).assets@,
                )[j] == Option::Some(asset@) {
                    Option::<Seq<u8>>::None
                } else {
                    slots_of(old(collection_page).assets@)[j]
                }),
            collection_page.collection == old(collection_page).collection,
            collection_page.index == old(collection_page).index,
            collection_page.bump == old(collection_page).bump,
            collection_page.current_index == old(collection_page).current_index,
        decreases n - i,
    {
        let matches_asset = match &collection_page.assets[i] {
            None => false,
            Some(k) => k.eq_key(asset),
        };
        if matches_asset {
            collection_page.assets.set(i, None);
        }
        i += 1;
    }
}

/// Hands the collection to a new authority.
pub fn update_authority(collection: &mut Collection, new_authority: &Pubkey)
    ensures
        final(collection).authority@ == new_authority@,
        final(collection).creator == old(collection).creator,
        final(collection).mutable == old(collection).mutable,
        final(collection).name == old(collection).name,
        final(collection).bump == old(collection).bump,
        final(collection).meta == old(collection).meta,
        final(collection).latest_page_index == old(collection).latest_page_index,
{
    collection.authority = new_authority.dup();
}

/// Freezes the collection: it can never be mutated again.
pub fn freeze_collection(collection: &mut Collection)
    ensures
        final(collection).mutable == false,
        final(collection).creator == old(collection).creator,
        final(collection).authority == old(collection).authority,
        final(collection).name == old(collection).name,
        final(collection).bump == old(collection).bump,
        final(collection).meta == old(collection).meta,
        final(collection).latest_page_index == old(collection).latest_page_index,
{
    collection.mutable = false;
}

} // verus!
