use vstd::prelude::*;
use anchor_lang::solana_program::rent::Rent;
use crate::codec::{check_discriminator, has_discriminator};
use crate::error::ProgramError;
use crate::identity::{system_program_id, Identity};

verus! {

/// Largest data size, in bytes, that an account may be given (10 MiB).
pub const MAX_ACCOUNT_SPACE: usize = 10485760;

/// An account as the host hands it to an instruction.
#[derive(Debug)]
pub struct AccountRef {
    /// The account's address.
    pub key: Identity,
    /// The program that owns the account; the system program while unallocated.
    pub owner: Identity,
    /// The account's balance.
    pub lamports: u64,
    /// The account's data buffer.
    pub data: Vec<u8>,
    /// Whether the account's key signed the call.
    pub is_signer: bool,
    /// Whether the call may write the account.
    pub is_writable: bool,
}

/// The plain value of an account.
pub struct AccountView {
    pub key: Seq<u8>,
    pub owner: Seq<u8>,
    pub lamports: u64,
    pub data: Seq<u8>,
    pub is_signer: bool,
    pub is_writable: bool,
}

impl View for AccountRef {
    type V = AccountView;

    open spec fn view(&self) -> AccountView {
        AccountView {
            key: self.key@,
            owner: self.owner@,
            lamports: self.lamports,
            data: self.data@,
            is_signer: self.is_signer,
            is_writable: self.is_writable,
        }
    }
}

/// How a record was obtained.
#[derive(Debug, Clone, Copy, PartialEq, Eq, Structural)]
pub enum Freshness {
    /// Allocated and initialized by this call.
    Created,
    /// Already present, validated and left as it was.
    Reused,
}

/// The balance that keeps an account of `space` data bytes rent-exempt.
pub open spec fn rent_exempt_minimum_of(space: nat) -> nat {
    (128 + space) * 6960
}

/// Relies on `Rent::minimum_balance` under `Rent::default()`: 3480 lamports
/// per byte-year over an exemption threshold of two years, for the data plus
/// 128 bytes of overhead. The float product is exact at these sizes.
#[verifier::external_body]
fn rent_exempt_minimum(space: usize) -> (r: u64)
    requires
        space <= MAX_ACCOUNT_SPACE,
    ensures
        r == rent_exempt_minimum_of(space as nat),
{
    Rent::default().minimum_balance(space)
}

/// What the payer is charged to make `account` a rent-exempt allocation of
/// `space` bytes: what its balance lacks, if anything.
pub open spec fn allocation_charge(account: AccountView, space: nat) -> nat {
    if account.lamports >= rent_exempt_minimum_of(space) {
        0
    } else {
        (rent_exempt_minimum_of(space) - account.lamports) as nat
    }
}

/// The account holds nothing yet.
pub open spec fn is_unallocated(account: AccountView) -> bool {
    account.owner == system_program_id() && account.data.len() == 0
}

/// Whether obtaining the record at `address` creates it, reuses it, or fails.
pub open spec fn obtain_outcome(
    account: AccountView,
    payer: AccountView,
    program: Seq<u8>,
    address: Seq<u8>,
    tag: u64,
    space: nat,
) -> Result<Freshness, ProgramError> {
    if !payer.is_signer || account.key != address {
        Err(ProgramError::Unauthorized)
    } else if !payer.is_writable || !account.is_writable {
        Err(ProgramError::NotWritable)
    } else if account.owner == system_program_id() {
        if account.data.len() != 0 {
            Err(ProgramError::AccountInUse)
        } else if payer.lamports < allocation_charge(account, space) {
            Err(ProgramError::InsufficientPayerBalance)
        } else {
            Ok(Freshness::Created)
        }
    } else if account.owner != program || account.data.len() != space || !has_discriminator(
        account.data,
        tag,
    ) {
        Err(ProgramError::SchemaMismatch)
    } else {
        Ok(Freshness::Reused)
    }
}

/// The record account once created: owned by `program`, funded to the
/// rent-exempt minimum, and holding `default` followed by zero bytes.
pub open spec fn created_account(account: AccountView, program: Seq<u8>, space: nat, default: Seq<u8>) -> AccountView {
    AccountView {
        owner: program,
        lamports: (account.lamports + allocation_charge(account, space)) as u64,
        data: default + Seq::new((space - default.len()) as nat, |i: int| 0u8),
        ..account
    }
}

/// The payer once charged for creating `account`.
pub open spec fn charged_payer(payer: AccountView, account: AccountView, space: nat) -> AccountView {
    AccountView { lamports: (payer.lamports - allocation_charge(account, space)) as u64, ..payer }
}

/// The accounts after obtaining the record: created, or left as they were.
pub open spec fn obtained(
    account: AccountView,
    payer: AccountView,
    program: Seq<u8>,
    address: Seq<u8>,
    tag: u64,
    space: nat,
    default: Seq<u8>,
) -> (AccountView, AccountView) {
    if obtain_outcome(account, payer, program, address, tag, space) == Ok::<
        Freshness,
        ProgramError,
    >(Freshness::Created) {
        (created_account(account, program, space, default), charged_payer(payer, account, space))
    } else {
        (account, payer)
    }
}

/// Checks the capabilities that a call on the record at `address` needs:
/// the payer signed and the record is the one at `address` (else
/// `Unauthorized`), and both accounts are writable (else `NotWritable`).
pub fn check_capabilities(account: &AccountRef, payer: &AccountRef, address: &Identity) -> (r: Result<
    (),
    ProgramError,
>)
    ensures
        r == (if !payer.is_signer || account.key@ != address@ {
            Err(ProgramError::Unauthorized)
        } else if !payer.is_writable || !account.is_writable {
            Err(ProgramError::NotWritable)
        } else {
            Ok(())
        }),
{
    if !payer.is_signer || !account.key.same_as(address) {
        Err(ProgramError::Unauthorized)
    } else if !payer.is_writable || !account.is_writable {
        Err(ProgramError::NotWritable)
    } else {
        Ok(())
    }
}

/// A buffer of `space` bytes that opens with `prefix` and is zero after it.
fn zero_padded(prefix: &[u8], space: usize) -> (r: Vec<u8>)
    requires
        prefix@.len() <= space,
    ensures
        r@ == prefix@ + Seq::new((space - prefix@.len()) as nat, |i: int| 0u8),
{
    let mut r: Vec<u8> = Vec::new();
    let mut i: usize = 0;
    while i < space
        invariant
            i <= space,
            prefix@.len() <= space,
            r@.len() == i,
            forall|j: int| 0 <= j < i ==> r@[j] == (if j < prefix@.len() { prefix@[j] } else { 0u8 }),
        decreases space - i,
    {
        if i < prefix.len() {
            r.push(prefix[i]);
        } else {
            r.push(0u8);
        }
        i = i + 1;
    }
    assert(r@ =~= prefix@ + Seq::new((space - prefix@.len()) as nat, |i: int| 0u8));
    r
}

/// Obtains the record at `address`: creates it from `default_record` at the
/// payer's expense when nothing is allocated there, or validates and reuses
/// the record already there, charging nothing and changing nothing. Fails,
/// leaving both accounts as they were, on a missing signature or a record
/// that is not at `address` (both `Unauthorized`), a read-only account,
/// foreign or differently typed data, or a payer who cannot cover the
/// allocation.
pub fn obtain_or_create(
    account: &mut AccountRef,
    payer: &mut AccountRef,
    program: &Identity,
    address: &Identity,
    tag: u64,
    space: usize,
    default_record: &[u8],
) -> (r: Result<Freshness, ProgramError>)
    requires
        space <= MAX_ACCOUNT_SPACE,
        default_record@.len() <= space,
    ensures
        r == obtain_outcome(old(account)@, old(payer)@, program@, address@, tag, space as nat),
        (final(account)@, final(payer)@) == obtained(
            old(account)@,
            old(payer)@,
            program@,
            address@,
            tag,
            space as nat,
            default_record@,
        ),
{
    check_capabilities(account, payer, address)?;
    let system = Identity::system_program();
    if account.owner.same_as(&system) {
        if account.data.len() != 0 {
            return Err(ProgramError::AccountInUse);
        }
        let minimum = rent_exempt_minimum(space);
        let charge: u64 = if account.lamports >= minimum {
            0
        } else {
            minimum - account.lamports
        };
        if payer.lamports < charge {
            return Err(ProgramError::InsufficientPayerBalance);
        }
        payer.lamports = payer.lamports - charge;
        account.lamports = account.lamports + charge;
        account.owner = *program;
        account.data = zero_padded(default_record, space);
        Ok(Freshness::Created)
    } else {
        if !account.owner.same_as(program) || account.data.len() != space {
            return Err(ProgramError::SchemaMismatch);
        }
        match check_discriminator(account.data.as_slice(), tag) {
            Ok(()) => Ok(Freshness::Reused),
            Err(_) => Err(ProgramError::SchemaMismatch),
        }
    }
}

} // verus!
