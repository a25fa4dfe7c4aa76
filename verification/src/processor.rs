//! The state-transition processor: validates a request against the
//! supplied accounts and applies it through the record codec.

use vstd::prelude::*;
use vstd::utf8::encode_utf8;

use crate::error::{ProgramError, RegistryError};
use crate::instruction::{spec_decode_instruction, InstructionModel, RegistryInstruction};
use crate::pubkey::Pubkey;
use crate::state::{ext_bytes_ok, mint_bytes_ok, spec_coption_key, Mint, MintExtension};

verus! {

broadcast use vstd::array::group_array_axioms;

/// One account the host hands the processor: its identifier, whether
/// it signed the request, its fee balance, and its stored bytes.
#[derive(Clone, Debug, PartialEq)]
pub struct AccountState {
    /// The account's identifier.
    pub key: Pubkey,
    /// Whether the host verified this account's signature for the
    /// present request.
    pub is_signer: bool,
    /// The account's fee balance.
    pub lamports: u64,
    /// The account's stored bytes.
    pub data: Vec<u8>,
}

/// The mathematical content of an account.
pub ghost struct AccountModel {
    /// The identifier's bytes.
    pub key: Seq<u8>,
    /// Whether the account signed the request.
    pub is_signer: bool,
    /// The fee balance.
    pub lamports: u64,
    /// The stored bytes.
    pub data: Seq<u8>,
}

impl View for AccountState {
    type V = AccountModel;

    open spec fn view(&self) -> AccountModel {
        AccountModel {
            key: self.key@,
            is_signer: self.is_signer,
            lamports: self.lamports,
            data: self.data@,
        }
    }
}

/// The models of a sequence of accounts.
pub open spec fn views(accounts: Seq<AccountState>) -> Seq<AccountModel> {
    accounts.map_values(|a: AccountState| a@)
}

/// The authority identifier an asset record's bytes hold, if any.
pub open spec fn spec_mint_authority(b: Seq<u8>) -> Option<Seq<u8>> {
    spec_coption_key(b.subrange(0, 36))
}

/// The bytes of an extension record freshly registered over
/// `old_data`: initialized, bound to `mint`, holding `sym` and `nm`;
/// buffer bytes past each text keep their old, stale values.
pub open spec fn spec_registered_data(
    old_data: Seq<u8>,
    mint: Seq<u8>,
    sym: Seq<u8>,
    nm: Seq<u8>,
) -> Seq<u8> {
    Seq::new(
        67,
        |i: int|
            if i == 0 {
                1u8
            } else if i < 33 {
                mint[i - 1]
            } else if i == 33 {
                sym.len() as u8
            } else if i < 50 {
                if i - 34 < sym.len() {
                    sym[i - 34]
                } else {
                    old_data[i]
                }
            } else if i == 50 {
                nm.len() as u8
            } else {
                if i - 51 < nm.len() {
                    nm[i - 51]
                } else {
                    old_data[i]
                }
            },
    )
}

/// The bytes of an extension record whose texts were replaced by `sym`
/// and `nm`: the flag and mint bytes keep their old values.
pub open spec fn spec_modified_data(old_data: Seq<u8>, sym: Seq<u8>, nm: Seq<u8>) -> Seq<u8> {
    Seq::new(
        67,
        |i: int|
            if i < 33 {
                old_data[i]
            } else if i == 33 {
                sym.len() as u8
            } else if i < 50 {
                if i - 34 < sym.len() {
                    sym[i - 34]
                } else {
                    old_data[i]
                }
            } else if i == 50 {
                nm.len() as u8
            } else {
                if i - 51 < nm.len() {
                    nm[i - 51]
                } else {
                    old_data[i]
                }
            },
    )
}

/// The bytes of a closed extension record: uninitialized, all other
/// bytes as they were.
pub open spec fn spec_closed_data(old_data: Seq<u8>) -> Seq<u8> {
    Seq::new(
        67,
        |i: int|
            if i == 0 {
                0u8
            } else {
                old_data[i]
            },
    )
}

/// The outcome of `RegisterMint` on the given accounts: the accounts
/// after the call and the result. `sym` and `nm` are the texts' UTF-8
/// bytes. Accounts, in order: asset record, authority, extension
/// target. On any failure the accounts are unchanged.
pub open spec fn spec_register(
    a: Seq<AccountModel>,
    mint: Seq<u8>,
    sym: Seq<u8>,
    nm: Seq<u8>,
) -> (Seq<AccountModel>, Result<(), ProgramError>) {
    if sym.len() >= 16 || nm.len() >= 16 {
        (a, Err(ProgramError::Custom(RegistryError::SymbolTooLong.spec_code())))
    } else if a.len() < 1 {
        (a, Err(ProgramError::NotEnoughAccountKeys))
    } else if !mint_bytes_ok(a[0].data) {
        (a, Err(ProgramError::InvalidAccountData))
    } else if a.len() < 3 {
        (a, Err(ProgramError::NotEnoughAccountKeys))
    } else if spec_mint_authority(a[0].data) is None {
        (a, Err(ProgramError::Custom(RegistryError::NoMintAuthority.spec_code())))
    } else if spec_mint_authority(a[0].data) != Option::Some(a[1].key) {
        (a, Err(ProgramError::Custom(RegistryError::NoAuthority.spec_code())))
    } else if !a[1].is_signer || !a[2].is_signer {
        (a, Err(ProgramError::MissingRequiredSignature))
    } else if !ext_bytes_ok(a[2].data) {
        (a, Err(ProgramError::InvalidAccountData))
    } else if a[2].data[0] == 1 {
        (a, Err(ProgramError::Custom(RegistryError::AlreadyRegistered.spec_code())))
    } else {
        (
            a.update(
                2,
                AccountModel { data: spec_registered_data(a[2].data, mint, sym, nm), ..a[2] },
            ),
            Ok(()),
        )
    }
}

/// The outcome of `ModifyMint` on the given accounts. Accounts as for
/// `spec_register`, but only the authority must sign.
pub open spec fn spec_modify(a: Seq<AccountModel>, sym: Seq<u8>, nm: Seq<u8>) -> (
    Seq<AccountModel>,
    Result<(), ProgramError>,
) {
    if sym.len() >= 16 || nm.len() >= 16 {
        (a, Err(ProgramError::Custom(RegistryError::SymbolTooLong.spec_code())))
    } else if a.len() < 1 {
        (a, Err(ProgramError::NotEnoughAccountKeys))
    } else if !mint_bytes_ok(a[0].data) {
        (a, Err(ProgramError::InvalidAccountData))
    } else if a.len() < 3 {
        (a, Err(ProgramError::NotEnoughAccountKeys))
    } else if spec_mint_authority(a[0].data) is None {
        (a, Err(ProgramError::Custom(RegistryError::NoMintAuthority.spec_code())))
    } else if spec_mint_authority(a[0].data) != Option::Some(a[1].key) {
        (a, Err(ProgramError::Custom(RegistryError::NoAuthority.spec_code())))
    } else if !a[1].is_signer {
        (a, Err(ProgramError::MissingRequiredSignature))
    } else if !ext_bytes_ok(a[2].data) {
        (a, Err(ProgramError::InvalidAccountData))
    } else if a[2].data[0] != 1 {
        (a, Err(ProgramError::Custom(RegistryError::NoRegistry.spec_code())))
    } else {
        (
            a.update(2, AccountModel { data: spec_modified_data(a[2].data, sym, nm), ..a[2] }),
            Ok(()),
        )
    }
}

/// The outcome of `CloseMint` on the given accounts. Accounts, in
/// order: source extension record, destination authority, asset
/// record. On success the source's balance moves to the destination
/// and the source record becomes uninitialized.
pub open spec fn spec_close(a: Seq<AccountModel>) -> (Seq<AccountModel>, Result<(), ProgramError>) {
    if a.len() < 3 {
        (a, Err(ProgramError::NotEnoughAccountKeys))
    } else if !mint_bytes_ok(a[2].data) {
        (a, Err(ProgramError::InvalidAccountData))
    } else if !ext_bytes_ok(a[0].data) {
        (a, Err(ProgramError::InvalidAccountData))
    } else if !a[1].is_signer {
        (a, Err(ProgramError::MissingRequiredSignature))
    } else if spec_mint_authority(a[2].data) is None {
        (a, Err(ProgramError::Custom(RegistryError::NoMintAuthority.spec_code())))
    } else if spec_mint_authority(a[2].data) != Option::Some(a[1].key) {
        (a, Err(ProgramError::Custom(RegistryError::NoAuthority.spec_code())))
    } else if a[1].lamports + a[0].lamports > u64::MAX {
        (a, Err(ProgramError::Custom(RegistryError::Overflow.spec_code())))
    } else {
        (
            a.update(
                1,
                AccountModel { lamports: (a[1].lamports + a[0].lamports) as u64, ..a[1] },
            ).update(0, AccountModel { lamports: 0u64, data: spec_closed_data(a[0].data), ..a[0] }),
            Ok(()),
        )
    }
}

/// The outcome of one invocation: decode the instruction bytes, then
/// apply the decoded operation to the accounts.
pub open spec fn spec_process(a: Seq<AccountModel>, input: Seq<u8>) -> (
    Seq<AccountModel>,
    Result<(), ProgramError>,
) {
    match spec_decode_instruction(input) {
        Option::None => (
            a,
            Err(ProgramError::Custom(RegistryError::InvalidInstruction.spec_code())),
        ),
        Option::Some(m) => match m {
            InstructionModel::RegisterMint { mint, symbol, name } => spec_register(
                a,
                mint,
                encode_utf8(symbol),
                encode_utf8(name),
            ),
            InstructionModel::CloseMint => spec_close(a),
            InstructionModel::ModifyMint { symbol, name } => spec_modify(
                a,
                encode_utf8(symbol),
                encode_utf8(name),
            ),
        },
    }
}

/// Program state handler.
pub struct Processor {}

impl Processor {
    /// Processes one invocation: decodes `input` and applies the
    /// operation to `accounts`, as `spec_process` says.
    pub fn process(_program_id: &Pubkey, accounts: &mut Vec<AccountState>, input: &[u8]) -> (r:
        Result<(), ProgramError>)
        ensures
            ({
                let o = spec_process(views(old(accounts)@), input@);
                views(final(accounts)@) == o.0 && r == o.1
            }),
    {
        let instruction = match RegistryInstruction::unpack(input) {
            Ok(i) => i,
            Err(e) => { return Err(e) },
        };
        match instruction {
            RegistryInstruction::RegisterMint { mint, symbol, name } => {
                Self::process_register_mint(accounts, mint, symbol, name)
            },
            RegistryInstruction::CloseMint => Self::process_close_mint(accounts),
            RegistryInstruction::ModifyMint { symbol, name } => {
                Self::process_modify_mint(accounts, symbol, name)
            },
        }
    }

    /// Applies `RegisterMint`, as `spec_register` says.
    fn process_register_mint(
        accounts: &mut Vec<AccountState>,
        mint: Pubkey,
        symbol: String,
        name: String,
    ) -> (r: Result<(), ProgramError>)
        ensures
            ({
                let o = spec_register(
                    views(old(accounts)@),
                    mint@,
                    encode_utf8(symbol@),
                    encode_utf8(name@),
                );
                views(final(accounts)@) == o.0 && r == o.1
            }),
    {
        let sb = symbol.as_str().as_bytes();
        let nb = name.as_str().as_bytes();
        if sb.len() >= 16 || nb.len() >= 16 {
            return Err(ProgramError::from(RegistryError::SymbolTooLong));
        }
        if accounts.len() < 1 {
            return Err(ProgramError::NotEnoughAccountKeys);
        }
        let mint_account = match Mint::unpack_unchecked(accounts[0].data.as_slice()) {
            Ok(m) => m,
            Err(e) => { return Err(e) },
        };
        if accounts.len() < 3 {
            return Err(ProgramError::NotEnoughAccountKeys);
        }
        let authority = match mint_account.mint_authority {
            Option::Some(k) => k,
            Option::None => { return Err(ProgramError::from(RegistryError::NoMintAuthority)) },
        };
        if !(authority == accounts[1].key) {
            return Err(ProgramError::from(RegistryError::NoAuthority));
        }
        if !accounts[1].is_signer || !accounts[2].is_signer {
            return Err(ProgramError::MissingRequiredSignature);
        }
        let mut ext = match MintExtension::unpack_unchecked(accounts[2].data.as_slice()) {
            Ok(e) => e,
            Err(e) => { return Err(e) },
        };
        if ext.is_initialized {
            return Err(ProgramError::from(RegistryError::AlreadyRegistered));
        }
        ext.is_initialized = true;
        ext.mint = mint;
        write_text(&mut ext.symbol, &mut ext.symbol_len, sb);
        write_text(&mut ext.name, &mut ext.name_len, nb);
        let ghost old_data = accounts@[2].data@;
        match MintExtension::pack(ext, &mut accounts[2].data) {
            Ok(u) => u,
            Err(e) => { return Err(e) },
        };
        proof {
            assert(accounts@[2].data@ =~= spec_registered_data(
                old_data,
                mint@,
                encode_utf8(symbol@),
                encode_utf8(name@),
            ));
            assert(views(accounts@) =~= spec_register(
                views(old(accounts)@),
                mint@,
                encode_utf8(symbol@),
                encode_utf8(name@),
            ).0);
        }
        Ok(())
    }

    /// Applies `ModifyMint`, as `spec_modify` says.
    fn process_modify_mint(accounts: &mut Vec<AccountState>, symbol: String, name: String) -> (r:
        Result<(), ProgramError>)
        ensures
            ({
                let o = spec_modify(views(old(accounts)@), encode_utf8(symbol@), encode_utf8(name@));
                views(final(accounts)@) == o.0 && r == o.1
            }),
    {
        let sb = symbol.as_str().as_bytes();
        let nb = name.as_str().as_bytes();
        if sb.len() >= 16 || nb.len() >= 16 {
            return Err(ProgramError::from(RegistryError::SymbolTooLong));
        }
        if accounts.len() < 1 {
            return Err(ProgramError::NotEnoughAccountKeys);
        }
        let mint_account = match Mint::unpack_unchecked(accounts[0].data.as_slice()) {
            Ok(m) => m,
            Err(e) => { return Err(e) },
        };
        if accounts.len() < 3 {
            return Err(ProgramError::NotEnoughAccountKeys);
        }
        let authority = match mint_account.mint_authority {
            Option::Some(k) => k,
            Option::None => { return Err(ProgramError::from(RegistryError::NoMintAuthority)) },
        };
        if !(authority == accounts[1].key) {
            return Err(ProgramError::from(RegistryError::NoAuthority));
        }
        if !accounts[1].is_signer {
            return Err(ProgramError::MissingRequiredSignature);
        }
        let mut ext = match MintExtension::unpack_unchecked(accounts[2].data.as_slice()) {
            Ok(e) => e,
            Err(e) => { return Err(e) },
        };
        if !ext.is_initialized {
            return Err(ProgramError::from(RegistryError::NoRegistry));
        }
        write_text(&mut ext.symbol, &mut ext.symbol_len, sb);
        write_text(&mut ext.name, &mut ext.name_len, nb);
        let ghost old_data = accounts@[2].data@;
        match MintExtension::pack(ext, &mut accounts[2].data) {
            Ok(u) => u,
            Err(e) => { return Err(e) },
        };
        proof {
            assert(accounts@[2].data@ =~= spec_modified_data(
                old_data,
                encode_utf8(symbol@),
                encode_utf8(name@),
            ));
            assert(views(accounts@) =~= spec_modify(
                views(old(accounts)@),
                encode_utf8(symbol@),
                encode_utf8(name@),
            ).0);
        }
        Ok(())
    }

    /// Applies `CloseMint`, as `spec_close` says.
    pub fn process_close_mint(accounts: &mut Vec<AccountState>) -> (r: Result<(), ProgramError>)
        ensures
            ({
                let o = spec_close(views(old(accounts)@));
                views(final(accounts)@) == o.0 && r == o.1
            }),
    {
        if accounts.len() < 3 {
            return Err(ProgramError::NotEnoughAccountKeys);
        }
        let mint_account = match Mint::unpack_unchecked(accounts[2].data.as_slice()) {
            Ok(m) => m,
            Err(e) => { return Err(e) },
        };
        let mut source_ext = match MintExtension::unpack_unchecked(accounts[0].data.as_slice()) {
            Ok(e) => e,
            Err(e) => { return Err(e) },
        };
        if !accounts[1].is_signer {
            return Err(ProgramError::MissingRequiredSignature);
        }
        let authority = match mint_account.mint_authority {
            Option::Some(k) => k,
            Option::None => { return Err(ProgramError::from(RegistryError::NoMintAuthority)) },
        };
        if !(authority == accounts[1].key) {
            return Err(ProgramError::from(RegistryError::NoAuthority));
        }
        let dest_starting_lamports = accounts[1].lamports;
        let source_lamports = accounts[0].lamports;
        let summed = match dest_starting_lamports.checked_add(source_lamports) {
            Option::Some(s) => s,
            Option::None => { return Err(ProgramError::from(RegistryError::Overflow)) },
        };
        accounts[1].lamports = summed;
        accounts[0].lamports = 0;
        source_ext.is_initialized = false;
        let ghost old_data = accounts@[0].data@;
        match MintExtension::pack(source_ext, &mut accounts[0].data) {
            Ok(u) => u,
            Err(e) => { return Err(e) },
        };
        proof {
            assert(accounts@[0].data@ =~= spec_closed_data(old_data));
            assert(views(accounts@) =~= spec_close(views(old(accounts)@)).0);
        }
        Ok(())
    }
}

/// Law: a Register whose symbol or name is 16 bytes or longer fails
/// with the symbol-too-long error and leaves every account unchanged.
pub proof fn lemma_register_symbol_too_long(
    a: Seq<AccountModel>,
    mint: Seq<u8>,
    sym: Seq<u8>,
    nm: Seq<u8>,
)
    requires
        sym.len() >= 16 || nm.len() >= 16,
    ensures
        spec_register(a, mint, sym, nm) == (
            a,
            Err::<(), ProgramError>(ProgramError::Custom(RegistryError::SymbolTooLong.spec_code())),
        ),
{
}

/// Law: a Register aimed at an already-initialized extension record
/// fails with the already-registered error and leaves every account
/// unchanged, however well-formed the rest of the request is.
pub proof fn lemma_register_already_registered(
    a: Seq<AccountModel>,
    mint: Seq<u8>,
    sym: Seq<u8>,
    nm: Seq<u8>,
)
    requires
        sym.len() < 16,
        nm.len() < 16,
        a.len() >= 3,
        mint_bytes_ok(a[0].data),
        a[1].is_signer,
        a[2].is_signer,
        spec_mint_authority(a[0].data) == Option::Some(a[1].key),
        ext_bytes_ok(a[2].data),
        a[2].data[0] == 1,
    ensures
        spec_register(a, mint, sym, nm) == (
            a,
            Err::<(), ProgramError>(
                ProgramError::Custom(RegistryError::AlreadyRegistered.spec_code()),
            ),
        ),
{
}

/// Law: when the asset record carries no mint authority, Register
/// fails with the no-mint-authority error; when it carries one that
/// differs from the supplied authority's key, with the no-authority
/// error. Accounts are unchanged either way, whether or not anyone
/// signed.
pub proof fn lemma_register_authority_errors(
    a: Seq<AccountModel>,
    mint: Seq<u8>,
    sym: Seq<u8>,
    nm: Seq<u8>,
)
    requires
        sym.len() < 16,
        nm.len() < 16,
        a.len() >= 3,
        mint_bytes_ok(a[0].data),
    ensures
        spec_mint_authority(a[0].data) is None ==> spec_register(a, mint, sym, nm) == (
            a,
            Err::<(), ProgramError>(
                ProgramError::Custom(RegistryError::NoMintAuthority.spec_code()),
            ),
        ),
        (spec_mint_authority(a[0].data) matches Option::Some(k) && k != a[1].key)
            ==> spec_register(a, mint, sym, nm) == (
            a,
            Err::<(), ProgramError>(ProgramError::Custom(RegistryError::NoAuthority.spec_code())),
        ),
{
}

/// Law: a Modify aimed at an uninitialized extension record fails with
/// the no-registry error and leaves every account unchanged.
pub proof fn lemma_modify_no_registry(a: Seq<AccountModel>, sym: Seq<u8>, nm: Seq<u8>)
    requires
        sym.len() < 16,
        nm.len() < 16,
        a.len() >= 3,
        mint_bytes_ok(a[0].data),
        a[1].is_signer,
        spec_mint_authority(a[0].data) == Option::Some(a[1].key),
        ext_bytes_ok(a[2].data),
        a[2].data[0] != 1,
    ensures
        spec_modify(a, sym, nm) == (
            a,
            Err::<(), ProgramError>(ProgramError::Custom(RegistryError::NoRegistry.spec_code())),
        ),
{
}

/// Law: a well-formed, well-authorized Register of an uninitialized
/// record succeeds and writes exactly the freshly registered bytes
/// into the target account's record, leaving its other fields and
/// every other account unchanged.
pub proof fn lemma_register_success(
    a: Seq<AccountModel>,
    mint: Seq<u8>,
    sym: Seq<u8>,
    nm: Seq<u8>,
)
    requires
        mint.len() == 32,
        sym.len() < 16,
        nm.len() < 16,
        a.len() >= 3,
        mint_bytes_ok(a[0].data),
        spec_mint_authority(a[0].data) == Option::Some(a[1].key),
        a[1].is_signer,
        a[2].is_signer,
        ext_bytes_ok(a[2].data),
        a[2].data[0] != 1,
    ensures
        ({
            let o = spec_register(a, mint, sym, nm);
            &&& o.1 == Ok::<(), ProgramError>(())
            &&& o.0 == a.update(
                2,
                AccountModel { data: spec_registered_data(a[2].data, mint, sym, nm), ..a[2] },
            )
            &&& o.0[2].data[0] == 1
            &&& o.0[2].data.subrange(1, 33) == mint
            &&& o.0[2].data[33] == sym.len() as u8
            &&& o.0[2].data.subrange(34, 34 + sym.len() as int) == sym
            &&& o.0[2].data[50] == nm.len() as u8
            &&& o.0[2].data.subrange(51, 51 + nm.len() as int) == nm
        }),
{
    let o = spec_register(a, mint, sym, nm);
    assert(o.0[2].data.subrange(1, 33) =~= mint);
    assert(o.0[2].data.subrange(34, 34 + sym.len() as int) =~= sym);
    assert(o.0[2].data.subrange(51, 51 + nm.len() as int) =~= nm);
}

/// Law: a well-formed, well-authorized Modify of an initialized record
/// succeeds and replaces only the texts and their lengths: the flag
/// and mint-identifier bytes of the record, and every other account,
/// are unchanged.
pub proof fn lemma_modify_success(a: Seq<AccountModel>, sym: Seq<u8>, nm: Seq<u8>)
    requires
        sym.len() < 16,
        nm.len() < 16,
        a.len() >= 3,
        mint_bytes_ok(a[0].data),
        spec_mint_authority(a[0].data) == Option::Some(a[1].key),
        a[1].is_signer,
        ext_bytes_ok(a[2].data),
        a[2].data[0] == 1,
    ensures
        ({
            let o = spec_modify(a, sym, nm);
            &&& o.1 == Ok::<(), ProgramError>(())
            &&& o.0 == a.update(
                2,
                AccountModel { data: spec_modified_data(a[2].data, sym, nm), ..a[2] },
            )
            &&& o.0[2].data.subrange(0, 33) == a[2].data.subrange(0, 33)
            &&& o.0[2].data[33] == sym.len() as u8
            &&& o.0[2].data.subrange(34, 34 + sym.len() as int) == sym
            &&& o.0[2].data[50] == nm.len() as u8
            &&& o.0[2].data.subrange(51, 51 + nm.len() as int) == nm
        }),
{
    let o = spec_modify(a, sym, nm);
    assert(o.0[2].data.subrange(0, 33) =~= a[2].data.subrange(0, 33));
    assert(o.0[2].data.subrange(34, 34 + sym.len() as int) =~= sym);
    assert(o.0[2].data.subrange(51, 51 + nm.len() as int) =~= nm);
}

/// Law: a well-authorized Close whose balance addition does not wrap
/// succeeds, moves the source's whole balance onto the destination,
/// zeroes the source's balance, and marks the source record
/// uninitialized, leaving its other bytes and the third account as
/// they were.
pub proof fn lemma_close_success(a: Seq<AccountModel>)
    requires
        a.len() >= 3,
        mint_bytes_ok(a[2].data),
        ext_bytes_ok(a[0].data),
        a[1].is_signer,
        spec_mint_authority(a[2].data) == Option::Some(a[1].key),
        a[1].lamports + a[0].lamports <= u64::MAX,
    ensures
        ({
            let o = spec_close(a);
            &&& o.1 == Ok::<(), ProgramError>(())
            &&& o.0.len() == a.len()
            &&& o.0[1] == (AccountModel {
                lamports: (a[1].lamports + a[0].lamports) as u64,
                ..a[1]
            })
            &&& o.0[0] == (AccountModel { lamports: 0u64, data: spec_closed_data(a[0].data), ..a[
                0] })
            &&& o.0[0].data[0] == 0
            &&& forall|j: int| 2 <= j < a.len() ==> o.0[j] == a[j]
        }),
{
    let o = spec_close(a);
    assert(o.0[0].data[0] == 0);
}

/// Law: a Close whose balance addition would wrap fails with the
/// overflow error and leaves every account, and so both balances,
/// unchanged.
pub proof fn lemma_close_overflow(a: Seq<AccountModel>)
    requires
        a.len() >= 3,
        mint_bytes_ok(a[2].data),
        ext_bytes_ok(a[0].data),
        a[1].is_signer,
        spec_mint_authority(a[2].data) == Option::Some(a[1].key),
        a[1].lamports + a[0].lamports > u64::MAX,
    ensures
        spec_close(a) == (
            a,
            Err::<(), ProgramError>(ProgramError::Custom(RegistryError::Overflow.spec_code())),
        ),
{
}

/// Overwrites the first `text.len()` bytes of a 16-byte record buffer
/// with `text` and sets the length field; bytes past the text keep
/// their old, stale values.
fn write_text(buf: &mut [u8; 16], len_field: &mut u8, text: &[u8])
    requires
        text@.len() < 16,
    ensures
        *final(len_field) == text@.len() as u8,
        forall|j: int|
            0 <= j < 16 ==> final(buf)@[j] == (if j < text@.len() {
                text@[j]
            } else {
                old(buf)@[j]
            }),
{
    *len_field = text.len() as u8;
    let mut i: usize = 0;
    while i < text.len()
        invariant
            i <= text@.len(),
            text@.len() < 16,
            forall|j: int|
                0 <= j < 16 ==> buf@[j] == (if j < i {
                    text@[j]
                } else {
                    old(buf)@[j]
                }),
        decreases text@.len() - i,
    {
        buf[i] = text[i];
        i = i + 1;
    }
}

} // verus!
