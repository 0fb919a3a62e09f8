use vstd::prelude::*;

verus! {

/// Why an instruction was rejected. Every failure aborts the whole call.
#[derive(Debug, Clone, Copy, PartialEq, Eq, Structural)]
pub enum ProgramError {
    /// No canonical nonce yields an off-curve address for the seeds.
    DerivationFailure,
    /// A buffer does not start with the discriminator of the schema read.
    DiscriminatorMismatch,
    /// The allocation at the address belongs to another program or schema.
    SchemaMismatch,
    /// A variable-length field is longer than its declared maximum, or than
    /// the bytes that remain in the buffer.
    LengthOverflow,
    /// A buffer ends before a fixed-width field does.
    BufferTooShort,
    /// A text field does not hold well-formed UTF-8.
    InvalidText,
    /// A required signer did not sign, or the record handed in is not the
    /// signer's own: it is not at the address derived from the signer.
    Unauthorized,
    /// An account that the call writes was not passed as writable.
    NotWritable,
    /// The payer cannot cover the allocation.
    InsufficientPayerBalance,
    /// The account to create is already allocated.
    AccountInUse,
    /// An integer result does not fit its field.
    ArithmeticOverflow,
}

} // verus!
