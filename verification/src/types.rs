//! The identity and signature types that records are built from.
//!
//! An identity is a 32-byte public key; a member-of reference pairs the
//! parent collection's identity with a 32-byte attached signature.

use vstd::prelude::*;

verus! {

/// The number of bytes in an identity (public key).
pub const PUBKEY_LEN: usize = 32;

/// The number of bytes in an attached signature.
pub const SIGNATURE_LEN: usize = 32;

/// A 32-byte identity: a public key of the ledger the registry lives on.
pub struct Pubkey {
    pub bytes: Vec<u8>,
}

impl View for Pubkey {
    type V = Seq<u8>;

    open spec fn view(&self) -> Seq<u8> {
        self.bytes@
    }
}

impl Pubkey {
    /// A well-formed identity holds exactly 32 bytes.
    pub open spec fn wf(&self) -> bool {
        self.bytes@.len() == PUBKEY_LEN
    }

    /// Builds an identity from its 32 bytes.
    pub fn new(bytes: Vec<u8>) -> (r: Pubkey)
        requires
            bytes@.len() == PUBKEY_LEN,
        ensures
            r@ == bytes@,
            r.wf(),
    {
        Pubkey { bytes }
    }

    /// A deep copy of the identity.
    pub fn dup(&self) -> (r: Pubkey)
        ensures
            r@ == self@,
    {
        let bytes = copy_bytes(&self.bytes);
        Pubkey { bytes }
    }

    /// Whether two identities hold the same bytes.
    pub fn eq_key(&self, other: &Pubkey) -> (r: bool)
        ensures
            r == (self@ == other@),
    {
        bytes_eq(&self.bytes, &other.bytes)
    }
}

/// A deep copy of a byte vector.
pub fn copy_bytes(v: &Vec<u8>) -> (r: Vec<u8>)
    ensures
        r@ == v@,
{
    let r = v.clone();
    proof {
        assert(r@ =~= v@);
    }
    r
}

/// Whether two byte vectors hold the same bytes.
pub fn bytes_eq(a: &Vec<u8>, b: &Vec<u8>) -> (r: bool)
    ensures
        r == (a@ == b@),
{
    if a.len() != b.len() {
        return false;
    }
    let n = a.len();
    let mut i: usize = 0;
    while i < n
        invariant
            n == a@.len(),
            n == b@.len(),
            0 <= i <= n,
            forall|j: int| 0 <= j < i ==> a@[j] == b@[j],
        decreases n - i,
    {
        if a[i] != b[i] {
            return false;
        }
        i += 1;
    }
    proof {
        assert(a@ =~= b@);
    }
    true
}

/// A signed claim that this record is a member of another collection:
/// the parent collection's identity and the attached signature.
pub struct CollectionSignature {
    pub collection: Pubkey,
    pub signature: Vec<u8>,
}

/// The mathematical value of a member-of reference.
#[verifier::ext_equal]
pub ghost struct SignatureView {
    pub collection: Seq<u8>,
    pub signature: Seq<u8>,
}

impl View for CollectionSignature {
    type V = SignatureView;

    open spec fn view(&self) -> SignatureView {
        SignatureView { collection: self.collection@, signature: self.signature@ }
    }
}

impl CollectionSignature {
    /// A well-formed reference holds a 32-byte identity and a 32-byte
    /// signature.
    pub open spec fn wf(&self) -> bool {
        self.collection.wf() && self.signature@.len() == SIGNATURE_LEN
    }
}

} // verus!
