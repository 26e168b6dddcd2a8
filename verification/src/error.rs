//! Error kinds reported by the registry.

use vstd::prelude::*;

verus! {

/// Why an instruction was rejected. Every rejection aborts the whole
/// instruction: nothing is written when one of these is returned.
#[derive(Clone, Copy, Debug, PartialEq, Eq, Structural)]
pub enum RegistryError {
    /// The wrong number or shape of accounts was supplied.
    InvalidAccountsError,
    /// The account supplied for the new record is not the derived address.
    InvalidRequestData,
    /// The instruction payload is malformed or too short for what it announces.
    InvalidInstructionData,
    /// The credential account does not hold the credential that is referred to.
    InvalidCredential,
    /// The schema account does not hold a usable schema of the credential.
    InvalidSchema,
    /// The target address is already allocated.
    AlreadyExists,
    /// A required signer did not sign, or is not allowed to sign.
    Unauthorized,
    /// No bump seed yields an address for these seeds.
    AddressDerivationExhausted,
}

/// Why a stored record could not be decoded.
#[derive(Clone, Copy, Debug, PartialEq, Eq, Structural)]
pub enum DecodeError {
    /// The buffer is shorter than the fixed-size footprint of the record kind.
    TooShort,
    /// The leading discriminator byte names another record kind.
    WrongDiscriminator,
    /// A length prefix announces more bytes than the buffer still holds.
    LengthOverrun,
    /// Bytes are left over after the last field.
    TrailingBytes,
    /// A boolean field holds a byte other than 0 or 1.
    InvalidFlag,
    /// The field names are no list of as many texts as the layout has tags.
    InvalidFieldNames,
}

} // verus!
