use vstd::prelude::*;
use crate::codec::{check_discriminator, has_discriminator, le64, lemma_le64_round_trip, overwrite_prefix, push_u64, read_le64, read_u64, write_prefix};
use crate::error::ProgramError;
use crate::identity::Identity;
use crate::lifecycle::{obtain_or_create, obtain_outcome, obtained, AccountRef, AccountView, Freshness};

verus! {

/// Discriminator of a stored `DataStore`.
pub const DATA_STORE_DISCRIMINATOR: u64 = 0x4543205bdfc66292;

/// Bytes reserved for a `DataStore` account: the discriminator and the value.
pub const DATA_STORE_SPACE: usize = 16;

/// A single stored number.
#[derive(Debug, Clone, Copy, PartialEq, Eq, Structural)]
pub struct DataStore {
    pub data: u64,
}

/// The stored bytes of a `DataStore` holding `data`.
pub open spec fn encode_data_store(data: u64) -> Seq<u8> {
    le64(DATA_STORE_DISCRIMINATOR) + le64(data)
}

/// The `DataStore` stored in `b`, or why `b` holds none.
pub open spec fn decode_data_store(b: Seq<u8>) -> Result<DataStore, ProgramError> {
    if !has_discriminator(b, DATA_STORE_DISCRIMINATOR) {
        Err(ProgramError::DiscriminatorMismatch)
    } else if b.len() < 16 {
        Err(ProgramError::BufferTooShort)
    } else {
        Ok(DataStore { data: read_le64(b, 8) })
    }
}

/// A `DataStore` reads back as written, whatever bytes follow it.
pub proof fn lemma_data_store_round_trip(data: u64, rest: Seq<u8>)
    ensures
        decode_data_store(encode_data_store(data) + rest) == Ok::<DataStore, ProgramError>(
            DataStore { data },
        ),
{
    let b = encode_data_store(data) + rest;
    assert(b.subrange(0, 8) =~= le64(DATA_STORE_DISCRIMINATOR));
    lemma_le64_round_trip(data, rest, le64(DATA_STORE_DISCRIMINATOR));
    assert(le64(DATA_STORE_DISCRIMINATOR) + le64(data) + rest =~= b);
}

impl DataStore {
    /// The record's stored bytes: discriminator, then the value.
    pub fn encode(&self) -> (r: Vec<u8>)
        ensures
            r@ == encode_data_store(self.data),
    {
        let mut r: Vec<u8> = Vec::new();
        push_u64(&mut r, DATA_STORE_DISCRIMINATOR);
        push_u64(&mut r, self.data);
        assert(r@ =~= encode_data_store(self.data));
        r
    }

    /// Reads a `DataStore` back from its stored bytes.
    pub fn decode(b: &[u8]) -> (r: Result<DataStore, ProgramError>)
        ensures
            r == decode_data_store(b@),
    {
        check_discriminator(b, DATA_STORE_DISCRIMINATOR)?;
        if b.len() < DATA_STORE_SPACE {
            return Err(ProgramError::BufferTooShort);
        }
        Ok(DataStore { data: read_u64(b, 8) })
    }
}

/// The accounts of `initialize`: the fresh account to create, which signs
/// for its own address, and the signer who pays for it.
pub struct Initialize {
    pub new_account: AccountRef,
    pub signer: AccountRef,
}

/// The new account and the signer after `initialize`, or why it fails.
pub open spec fn initialize_effect(
    program: Seq<u8>,
    new_account: AccountView,
    signer: AccountView,
    data: u64,
) -> Result<(AccountView, AccountView), ProgramError> {
    if !signer.is_signer || !new_account.is_signer {
        Err(ProgramError::Unauthorized)
    } else {
        match obtain_outcome(new_account, signer, program, new_account.key, DATA_STORE_DISCRIMINATOR, 16) {
            Err(e) => Err(e),
            Ok(Freshness::Reused) => Err(ProgramError::AccountInUse),
            Ok(Freshness::Created) => {
                let (a, s) = obtained(
                    new_account,
                    signer,
                    program,
                    new_account.key,
                    DATA_STORE_DISCRIMINATOR,
                    16,
                    encode_data_store(0),
                );
                Ok((AccountView { data: overwrite_prefix(a.data, encode_data_store(data)), ..a }, s))
            },
        }
    }
}

/// Creates a new account holding `data`, paid for by the signer. The account
/// must not exist yet.
pub fn initialize(program_id: &Identity, ctx: &mut Initialize, data: u64) -> (r: Result<(), ProgramError>)
    ensures
        match initialize_effect(program_id@, old(ctx).new_account@, old(ctx).signer@, data) {
            Ok((a, s)) => r is Ok && final(ctx).new_account@ == a && final(ctx).signer@ == s,
            Err(e) => r == Err::<(), ProgramError>(e) && final(ctx).new_account@
                == old(ctx).new_account@ && final(ctx).signer@ == old(ctx).signer@,
        },
        !old(ctx).signer.is_signer ==> r == Err::<(), ProgramError>(ProgramError::Unauthorized)
            && final(ctx).new_account@ == old(ctx).new_account@,
{
    if !ctx.signer.is_signer || !ctx.new_account.is_signer {
        return Err(ProgramError::Unauthorized);
    }
    let address = ctx.new_account.key;
    let default_record = DataStore { data: 0 }.encode();
    let freshness = obtain_or_create(
        &mut ctx.new_account,
        &mut ctx.signer,
        program_id,
        &address,
        DATA_STORE_DISCRIMINATOR,
        DATA_STORE_SPACE,
        default_record.as_slice(),
    )?;
    match freshness {
        Freshness::Reused => Err(ProgramError::AccountInUse),
        Freshness::Created => {
            let bytes = DataStore { data }.encode();
            write_prefix(&mut ctx.new_account.data, bytes.as_slice());
            Ok(())
        },
    }
}

} // verus!
