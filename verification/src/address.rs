//! Deterministic record addressing.
//!
//! A collection's storage address is derived from a constant namespace
//! tag, the program identity, the creator identity and the record name,
//! together with a disambiguation byte (the bump) chosen so that the
//! address is not a valid signing key. The derivation is pure: the same
//! inputs always yield the same address.

use vstd::prelude::*;

use crate::types::{Pubkey, PUBKEY_LEN};

verus! {

/// The namespace tag under which collection addresses are derived:
/// the ASCII bytes of `collection`.
pub open spec fn prefix_bytes() -> Seq<u8> {
    seq![0x63u8, 0x6fu8, 0x6cu8, 0x6cu8, 0x65u8, 0x63u8, 0x74u8, 0x69u8, 0x6fu8, 0x6eu8]
}

/// The namespace tag as bytes.
pub fn collection_prefix() -> (r: Vec<u8>)
    ensures
        r@ == prefix_bytes(),
{
    let mut v: Vec<u8> = Vec::new();
    v.push(0x63);
    v.push(0x6f);
    v.push(0x6c);
    v.push(0x6c);
    v.push(0x65);
    v.push(0x63);
    v.push(0x74);
    v.push(0x69);
    v.push(0x6f);
    v.push(0x6e);
    proof {
        assert(v@ =~= prefix_bytes());
    }
    v
}

/// The address and bump that the ledger's program-derived-address scheme
/// assigns to four seeds under a program identity, or `None` if no bump
/// yields a valid address.
pub uninterp spec fn pda_of(
    s1: Seq<u8>,
    s2: Seq<u8>,
    s3: Seq<u8>,
    s4: Seq<u8>,
    program_id: Seq<u8>,
) -> Option<(Seq<u8>, u8)>;

/// Relies on solana_program::pubkey::Pubkey::try_find_program_address:
/// the result is a pure function of the seeds and the program identity
/// alone, it never panics, and a returned address is 32 bytes.
#[verifier::external_body]
fn find_program_address4(
    s1: &Vec<u8>,
    s2: &Vec<u8>,
    s3: &Vec<u8>,
    s4: &Vec<u8>,
    program_id: &Vec<u8>,
) -> (r: Option<(Pubkey, u8)>)
    requires
        program_id@.len() == PUBKEY_LEN,
    ensures
        match r {
            Some(p) => pda_of(s1@, s2@, s3@, s4@, program_id@) == Some((p.0@, p.1)) && p.0.wf(),
            None => pda_of(s1@, s2@, s3@, s4@, program_id@) is None,
        },
{
    let pid = solana_program::pubkey::Pubkey::try_from(program_id.as_slice()).unwrap();
    let seeds: [&[u8]; 4] = [s1.as_slice(), s2.as_slice(), s3.as_slice(), s4.as_slice()];
    match solana_program::pubkey::Pubkey::try_find_program_address(&seeds, &pid) {
        Some((key, bump)) => Some((Pubkey { bytes: key.to_bytes().to_vec() }, bump)),
        None => None,
    }
}

/// The address and bump of the collection record a creator makes under a
/// given name, or `None` if no bump yields a valid address.
pub open spec fn collection_address_of(
    program_id: Seq<u8>,
    creator: Seq<u8>,
    name: Seq<u8>,
) -> Option<(Seq<u8>, u8)> {
    pda_of(prefix_bytes(), program_id, creator, name, program_id)
}

/// Derives the storage address of the collection record `creator` makes
/// under `name`, and its bump.
pub fn derive_collection_address(program_id: &Pubkey, creator: &Pubkey, name: &Vec<u8>) -> (r:
    Option<(Pubkey, u8)>)
    requires
        program_id.wf(),
    ensures
        match r {
            Some(p) => collection_address_of(program_id@, creator@, name@) == Some((p.0@, p.1))
                && p.0.wf(),
            None => collection_address_of(program_id@, creator@, name@) is None,
        },
{
    let prefix = collection_prefix();
    find_program_address4(&prefix, &program_id.bytes, &creator.bytes, name, &program_id.bytes)
}

} // verus!
