//! Error taxonomy: the program's own errors and the host-level error
//! channel they are reported through.

use vstd::prelude::*;

verus! {

/// Errors the mint-registry program itself defines.
///
/// The numeric codes (see [`RegistryError::code`]) are a published
/// compatibility surface: the order of variants is append-only.
#[derive(Clone, Copy, Debug, PartialEq, Eq)]
pub enum RegistryError {
    /// The instruction bytes are empty, carry an unknown tag, are too
    /// short for their declared payload, or hold non-UTF-8 text.
    InvalidInstruction,
    /// A supplied symbol or name is 16 bytes or longer.
    SymbolTooLong,
    /// The signing authority does not match the asset's mint authority.
    NoAuthority,
    /// The asset record carries no mint authority at all, so no request
    /// can ever be authorized.
    NoMintAuthority,
    /// A balance addition would wrap.
    Overflow,
    /// Modify was attempted on an uninitialized extension record.
    NoRegistry,
    /// Register was attempted on an already-initialized extension record.
    AlreadyRegistered,
}

impl RegistryError {
    /// The stable numeric code of each error.
    pub open spec fn spec_code(self) -> u32 {
        match self {
            RegistryError::InvalidInstruction => 0,
            RegistryError::SymbolTooLong => 1,
            RegistryError::NoAuthority => 2,
            RegistryError::NoMintAuthority => 3,
            RegistryError::Overflow => 4,
            RegistryError::NoRegistry => 5,
            RegistryError::AlreadyRegistered => 6,
        }
    }

    /// Returns the stable numeric code the host reports for this error.
    #[verifier::when_used_as_spec(spec_code)]
    pub fn code(self) -> (r: u32)
        ensures
            r == self.spec_code(),
    {
        match self {
            RegistryError::InvalidInstruction => 0,
            RegistryError::SymbolTooLong => 1,
            RegistryError::NoAuthority => 2,
            RegistryError::NoMintAuthority => 3,
            RegistryError::Overflow => 4,
            RegistryError::NoRegistry => 5,
            RegistryError::AlreadyRegistered => 6,
        }
    }

    /// A human-readable description of the error.
    pub fn message(self) -> (r: &'static str)
        ensures
            self == RegistryError::InvalidInstruction ==> r@ == "Invalid instruction"@,
            self == RegistryError::SymbolTooLong ==> r@ == "Symbol or Name is too long (<16)"@,
            self == RegistryError::NoAuthority ==> r@ == "Must have authority to create mint"@,
            self == RegistryError::NoMintAuthority ==> r@ == "No mint_authority for mint"@,
            self == RegistryError::Overflow ==> r@ == "Operation overflowed"@,
            self == RegistryError::NoRegistry ==> r@ == "Mint Extension has not been registered"@,
            self == RegistryError::AlreadyRegistered ==> r@
                == "Mint Extension has already been registered"@,
    {
        match self {
            RegistryError::InvalidInstruction => "Invalid instruction",
            RegistryError::SymbolTooLong => "Symbol or Name is too long (<16)",
            RegistryError::NoAuthority => "Must have authority to create mint",
            RegistryError::NoMintAuthority => "No mint_authority for mint",
            RegistryError::Overflow => "Operation overflowed",
            RegistryError::NoRegistry => "Mint Extension has not been registered",
            RegistryError::AlreadyRegistered => "Mint Extension has already been registered",
        }
    }
}

/// The host-level error channel: the host's error kinds that this
/// program can surface. A [`RegistryError`] travels as `Custom` with
/// its numeric code.
#[derive(Clone, Copy, Debug, PartialEq, Eq)]
pub enum ProgramError {
    /// A program-defined error, carrying a [`RegistryError`] code.
    Custom(u32),
    /// A record's bytes do not parse as the expected fixed layout.
    InvalidAccountData,
    /// An account that must sign the request has not signed it.
    MissingRequiredSignature,
    /// The instruction was handed fewer accounts than it needs.
    NotEnoughAccountKeys,
}

impl From<RegistryError> for ProgramError {
    fn from(e: RegistryError) -> (r: Self) {
        ProgramError::Custom(e.code())
    }
}

impl vstd::std_specs::convert::FromSpecImpl<RegistryError> for ProgramError {
    open spec fn obeys_from_spec() -> bool {
        true
    }

    open spec fn from_spec(e: RegistryError) -> Self {
        ProgramError::Custom(e.spec_code())
    }
}

} // verus!
