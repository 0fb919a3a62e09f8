use vstd::prelude::*;
use anchor_lang::solana_program::pubkey::Pubkey;
use crate::error::ProgramError;
use crate::identity::Identity;

verus! {

/// The canonical program address, with its nonce, for `seeds` under
/// `program`; `None` where no nonce in the scanned range gives one, or where
/// a seed is longer than 32 bytes.
pub uninterp spec fn program_address_of(seeds: Seq<Seq<u8>>, program: Seq<u8>) -> Option<(Seq<u8>, u8)>;

/// The seeds of a record's address: its schema's namespace tag, then its owner.
pub open spec fn seeds_for(tag: Seq<u8>, owner: Seq<u8>) -> Seq<Seq<u8>> {
    seq![tag, owner]
}

/// Relies on `Pubkey::try_find_program_address`: it returns the canonical
/// address and nonce for the seeds under the program, or `None` where no
/// nonce gives an address off the ed25519 curve or a seed is longer than 32
/// bytes. It hashes its arguments and nothing else, so the result is a
/// function of them.
#[verifier::external_body]
fn find_program_address(tag: &[u8], owner: &Identity, program: &Identity) -> (r: Option<(Identity, u8)>)
    ensures
        match r {
            Some((a, n)) => program_address_of(seeds_for(tag@, owner@), program@) == Some((a@, n)),
            None => program_address_of(seeds_for(tag@, owner@), program@) is None,
        },
{
    let seeds: [&[u8]; 2] = [tag, &owner.bytes];
    Pubkey::try_find_program_address(&seeds, &Pubkey::new_from_array(program.bytes)).map(
        |(k, n)| (Identity { bytes: k.to_bytes() }, n),
    )
}

/// Derives the program-controlled address, and its canonical nonce, of the
/// record that `owner` holds under the namespace `tag` of `program`. Fails
/// with `DerivationFailure` where no nonce gives an address, or where `tag`
/// is longer than 32 bytes.
pub fn derive_address(tag: &[u8], owner: &Identity, program: &Identity) -> (r: Result<(Identity, u8), ProgramError>)
    ensures
        match program_address_of(seeds_for(tag@, owner@), program@) {
            Some((a, n)) => r matches Ok((ra, rn)) && ra@ == a && rn == n,
            None => r == Err::<(Identity, u8), ProgramError>(ProgramError::DerivationFailure),
        },
{
    match find_program_address(tag, owner, program) {
        Some(found) => Ok(found),
        None => Err(ProgramError::DerivationFailure),
    }
}

/// Two different owners under one namespace tag give the derivation different
/// seeds, and different bytes once the seeds are hashed one after the other.
pub proof fn lemma_distinct_owners_distinct_seeds(tag: Seq<u8>, owner1: Seq<u8>, owner2: Seq<u8>)
    requires
        owner1 != owner2,
    ensures
        seeds_for(tag, owner1) != seeds_for(tag, owner2),
        tag + owner1 != tag + owner2,
{
    if tag + owner1 == tag + owner2 {
        assert((tag + owner1).subrange(tag.len() as int, (tag + owner1).len() as int) =~= owner1);
        assert((tag + owner2).subrange(tag.len() as int, (tag + owner2).len() as int) =~= owner2);
    }
    assert(seeds_for(tag, owner1)[1] == owner1);
}

} // verus!
