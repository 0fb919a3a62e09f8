use vstd::prelude::*;
use crate::codec::{
    has_discriminator, le64, lemma_le64_round_trip, overwrite_prefix, push_u64, read_le64, read_u64,
    check_discriminator, write_prefix,
};
use crate::derivation::{derive_address, program_address_of, seeds_for};
use crate::error::ProgramError;
use crate::identity::{system_program_id, Identity};
use crate::lifecycle::{obtain_or_create, obtain_outcome, obtained, AccountRef, AccountView};

verus! {

/// Discriminator of a stored `Counter`.
pub const COUNTER_DISCRIMINATOR: u64 = 0x197cfdbcf504b0ff;

/// Bytes reserved for a `Counter` account: the discriminator and the count.
pub const COUNTER_SPACE: usize = 16;

/// The namespace tag of counter addresses: the ASCII bytes of `counter`.
pub open spec fn counter_seed() -> Seq<u8> {
    seq![99u8, 111u8, 117u8, 110u8, 116u8, 101u8, 114u8]
}

/// The namespace tag of counter addresses.
pub fn counter_seed_bytes() -> (r: Vec<u8>)
    ensures
        r@ == counter_seed(),
{
    let r: Vec<u8> = vec![99u8, 111u8, 117u8, 110u8, 116u8, 101u8, 114u8];
    assert(r@ =~= counter_seed());
    r
}

/// A per-owner counter.
#[derive(Debug, Clone, Copy, PartialEq, Eq, Structural)]
pub struct Counter {
    pub count: u64,
}

/// The stored bytes of a counter holding `count`.
pub open spec fn encode_counter(count: u64) -> Seq<u8> {
    le64(COUNTER_DISCRIMINATOR) + le64(count)
}

/// The counter stored in `b`, or why `b` holds none.
pub open spec fn decode_counter(b: Seq<u8>) -> Result<Counter, ProgramError> {
    if !has_discriminator(b, COUNTER_DISCRIMINATOR) {
        Err(ProgramError::DiscriminatorMismatch)
    } else if b.len() < 16 {
        Err(ProgramError::BufferTooShort)
    } else {
        Ok(Counter { count: read_le64(b, 8) })
    }
}

/// A counter reads back as written, whatever bytes follow it.
pub proof fn lemma_counter_round_trip(count: u64, rest: Seq<u8>)
    ensures
        decode_counter(encode_counter(count) + rest) == Ok::<Counter, ProgramError>(
            Counter { count },
        ),
{
    let b = encode_counter(count) + rest;
    assert(b.subrange(0, 8) =~= le64(COUNTER_DISCRIMINATOR));
    lemma_le64_round_trip(count, rest, le64(COUNTER_DISCRIMINATOR));
    assert(le64(COUNTER_DISCRIMINATOR) + le64(count) + rest =~= b);
}

impl Counter {
    /// The record's stored bytes: discriminator, then the count.
    pub fn encode(&self) -> (r: Vec<u8>)
        ensures
            r@ == encode_counter(self.count),
    {
        let mut r: Vec<u8> = Vec::new();
        push_u64(&mut r, COUNTER_DISCRIMINATOR);
        push_u64(&mut r, self.count);
        assert(r@ =~= encode_counter(self.count));
        r
    }

    /// Reads a counter back from its stored bytes.
    pub fn decode(data: &[u8]) -> (r: Result<Counter, ProgramError>)
        ensures
            r == decode_counter(data@),
    {
        check_discriminator(data, COUNTER_DISCRIMINATOR)?;
        if data.len() < COUNTER_SPACE {
            return Err(ProgramError::BufferTooShort);
        }
        Ok(Counter { count: read_u64(data, 8) })
    }
}

/// The accounts of the counter instructions: the owner, who signs and pays,
/// and the owner's counter record.
pub struct Increment {
    pub user: AccountRef,
    pub counter: AccountRef,
}

/// The address and nonce of `user`'s counter under `program`.
pub open spec fn counter_address(user: AccountView, program: Seq<u8>) -> Option<(Seq<u8>, u8)> {
    program_address_of(seeds_for(counter_seed(), user.key), program)
}

/// The owner and counter after `initialize`, or why it fails.
pub open spec fn initialize_effect(program: Seq<u8>, user: AccountView, counter: AccountView) -> Result<
    (AccountView, AccountView),
    ProgramError,
> {
    if !user.is_signer {
        Err(ProgramError::Unauthorized)
    } else {
        match counter_address(user, program) {
            None => Err(ProgramError::DerivationFailure),
            Some((address, _)) => match obtain_outcome(
                counter,
                user,
                program,
                address,
                COUNTER_DISCRIMINATOR,
                16,
            ) {
                Err(e) => Err(e),
                Ok(_) => {
                    let (c, u) = obtained(
                        counter,
                        user,
                        program,
                        address,
                        COUNTER_DISCRIMINATOR,
                        16,
                        encode_counter(0),
                    );
                    Ok((u, c))
                },
            },
        }
    }
}

/// The owner and counter after `increment`, or why it fails.
pub open spec fn increment_effect(program: Seq<u8>, user: AccountView, counter: AccountView) -> Result<
    (AccountView, AccountView),
    ProgramError,
> {
    match initialize_effect(program, user, counter) {
        Err(e) => Err(e),
        Ok((u, c)) => match decode_counter(c.data) {
            Err(e) => Err(e),
            Ok(current) => if current.count == u64::MAX {
                Err(ProgramError::ArithmeticOverflow)
            } else {
                Ok((u, AccountView { data: overwrite_prefix(c.data, encode_counter((current.count + 1) as u64)), ..c }))
            },
        },
    }
}

/// Creates the caller's counter at its derived address with a count of zero,
/// charging the caller; where the counter already exists it is left as it is
/// and nothing is charged.
pub fn initialize(program_id: &Identity, ctx: &mut Increment) -> (r: Result<(), ProgramError>)
    ensures
        match initialize_effect(program_id@, old(ctx).user@, old(ctx).counter@) {
            Ok((u, c)) => r is Ok && final(ctx).user@ == u && final(ctx).counter@ == c,
            Err(e) => r == Err::<(), ProgramError>(e) && final(ctx).user@ == old(ctx).user@
                && final(ctx).counter@ == old(ctx).counter@,
        },
        !old(ctx).user.is_signer ==> r == Err::<(), ProgramError>(ProgramError::Unauthorized)
            && final(ctx).counter@ == old(ctx).counter@,
        forall|a: Seq<u8>, n: u8|
            counter_address(old(ctx).user@, program_id@) == Some((a, n)) && old(ctx).counter@.key
                != a ==> r == Err::<(), ProgramError>(ProgramError::Unauthorized)
                && final(ctx).counter@ == old(ctx).counter@,
{
    if !ctx.user.is_signer {
        return Err(ProgramError::Unauthorized);
    }
    let seed = counter_seed_bytes();
    let (address, _nonce) = derive_address(seed.as_slice(), &ctx.user.key, program_id)?;
    let default_record = Counter { count: 0 }.encode();
    obtain_or_create(
        &mut ctx.counter,
        &mut ctx.user,
        program_id,
        &address,
        COUNTER_DISCRIMINATOR,
        COUNTER_SPACE,
        default_record.as_slice(),
    )?;
    Ok(())
}

/// Adds one to the caller's counter, creating it first where it does not
/// exist yet.
pub fn increment(program_id: &Identity, ctx: &mut Increment) -> (r: Result<(), ProgramError>)
    ensures
        match increment_effect(program_id@, old(ctx).user@, old(ctx).counter@) {
            Ok((u, c)) => r is Ok && final(ctx).user@ == u && final(ctx).counter@ == c,
            Err(e) => r == Err::<(), ProgramError>(e) && final(ctx).user@ == old(ctx).user@
                && final(ctx).counter@ == old(ctx).counter@,
        },
        !old(ctx).user.is_signer ==> r == Err::<(), ProgramError>(ProgramError::Unauthorized)
            && final(ctx).counter@ == old(ctx).counter@,
        forall|a: Seq<u8>, n: u8|
            counter_address(old(ctx).user@, program_id@) == Some((a, n)) && old(ctx).counter@.key
                != a ==> r == Err::<(), ProgramError>(ProgramError::Unauthorized)
                && final(ctx).counter@ == old(ctx).counter@,
{
    initialize(program_id, ctx)?;
    proof {
        lemma_counter_round_trip(0, Seq::new(0, |i: int| 0u8));
        assert(encode_counter(0) + Seq::new(0, |i: int| 0u8) =~= encode_counter(0));
    }
    let current = Counter::decode(ctx.counter.data.as_slice())?;
    if current.count == u64::MAX {
        return Err(ProgramError::ArithmeticOverflow);
    }
    let next = Counter { count: current.count + 1 }.encode();
    write_prefix(&mut ctx.counter.data, next.as_slice());
    Ok(())
}

/// Initializing twice is initializing once: the second call succeeds, keeps
/// the record's fields and charges the payer nothing.
pub proof fn lemma_initialize_idempotent(program: Seq<u8>, user: AccountView, counter: AccountView)
    requires
        program != system_program_id(),
        initialize_effect(program, user, counter) is Ok,
    ensures
        match initialize_effect(program, user, counter) {
            Ok((u, c)) => initialize_effect(program, u, c) == Ok::<
                (AccountView, AccountView),
                ProgramError,
            >((u, c)),
            Err(_) => true,
        },
{
    match initialize_effect(program, user, counter) {
        Ok((u, c)) => {
            lemma_counter_round_trip(0, Seq::new(0, |i: int| 0u8));
            assert(encode_counter(0) + Seq::new(0, |i: int| 0u8) =~= encode_counter(0));
            assert(encode_counter(0).subrange(0, 8) =~= le64(COUNTER_DISCRIMINATOR));
        },
        Err(_) => {},
    }
}

} // verus!
