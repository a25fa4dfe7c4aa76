//! The tagged binary wire protocol for the three supported operations,
//! and builders for the requests a caller hands the host.

use vstd::prelude::*;
use vstd::utf8::{decode_utf8, encode_utf8, valid_utf8};

use crate::error::{ProgramError, RegistryError};
use crate::pubkey::Pubkey;

verus! {

/// Instructions supported by the mint-registry program.
///
/// On the wire the first byte is a tag (1 = `RegisterMint`,
/// 2 = `CloseMint`, 3 = `ModifyMint`); a text payload travels as one
/// length byte followed by that many UTF-8 bytes.
#[derive(Clone, Debug, PartialEq)]
pub enum RegistryInstruction {
    /// Register a new mint extension for a mint, with a symbol and a
    /// name. The processor accepts each only up to 15 bytes.
    RegisterMint {
        /// The identifier of the mint being described.
        mint: Pubkey,
        /// The display symbol for the mint.
        symbol: String,
        /// The display name for the mint.
        name: String,
    },
    /// Delete a mint extension and drain its balance.
    CloseMint,
    /// Replace the symbol and name of an existing mint extension.
    ModifyMint {
        /// The new display symbol.
        symbol: String,
        /// The new display name.
        name: String,
    },
}

/// The mathematical content of an instruction: the mint identifier's
/// bytes and the symbol and name texts.
pub ghost enum InstructionModel {
    /// Bind a symbol and a name to a mint.
    RegisterMint {
        /// The mint identifier's 32 bytes.
        mint: Seq<u8>,
        /// The symbol text.
        symbol: Seq<char>,
        /// The name text.
        name: Seq<char>,
    },
    /// Reclaim an extension record and drain its balance.
    CloseMint,
    /// Replace the symbol and name of an existing extension record.
    ModifyMint {
        /// The new symbol text.
        symbol: Seq<char>,
        /// The new name text.
        name: Seq<char>,
    },
}

impl View for RegistryInstruction {
    type V = InstructionModel;

    open spec fn view(&self) -> InstructionModel {
        match self {
            RegistryInstruction::RegisterMint { mint, symbol, name } => (
            InstructionModel::RegisterMint { mint: mint@, symbol: symbol@, name: name@ }),
            RegistryInstruction::CloseMint => InstructionModel::CloseMint,
            RegistryInstruction::ModifyMint { symbol, name } => (InstructionModel::ModifyMint {
                symbol: symbol@,
                name: name@,
            }),
        }
    }
}

impl InstructionModel {
    /// Whether the instruction can travel on the wire: the identifier
    /// is 32 bytes and each text encodes to fewer than 256 bytes, so
    /// that its length fits the one-byte prefix.
    pub open spec fn wf(self) -> bool {
        match self {
            InstructionModel::RegisterMint { mint, symbol, name } => mint.len() == 32
                && encode_utf8(symbol).len() < 256 && encode_utf8(name).len() < 256,
            InstructionModel::CloseMint => true,
            InstructionModel::ModifyMint { symbol, name } => encode_utf8(symbol).len() < 256
                && encode_utf8(name).len() < 256,
        }
    }
}

/// A text payload on the wire: one length byte, then the UTF-8 bytes.
pub open spec fn spec_encode_text(t: Seq<char>) -> Seq<u8> {
    seq![encode_utf8(t).len() as u8] + encode_utf8(t)
}

/// The byte encoding of an instruction.
pub open spec fn spec_encode(m: InstructionModel) -> Seq<u8> {
    match m {
        InstructionModel::RegisterMint { mint, symbol, name } => seq![1u8] + mint
            + spec_encode_text(symbol) + spec_encode_text(name),
        InstructionModel::CloseMint => seq![2u8],
        InstructionModel::ModifyMint { symbol, name } => seq![3u8] + spec_encode_text(symbol)
            + spec_encode_text(name),
    }
}

/// Decodes the two length-prefixed text payloads that start at `at`.
/// Fails when the buffer is too short for a declared payload or when a
/// payload is not valid UTF-8; trailing bytes are ignored.
pub open spec fn spec_decode_texts(b: Seq<u8>, at: int) -> Option<(Seq<char>, Seq<char>)> {
    if b.len() < at + 1 {
        Option::None
    } else {
        let sl = b[at] as int;
        if b.len() < at + 1 + sl + 1 {
            Option::None
        } else {
            let sym = b.subrange(at + 1, at + 1 + sl);
            let nl = b[at + 1 + sl] as int;
            if b.len() < at + 2 + sl + nl {
                Option::None
            } else {
                let nm = b.subrange(at + 2 + sl, at + 2 + sl + nl);
                if valid_utf8(sym) && valid_utf8(nm) {
                    Option::Some((decode_utf8(sym), decode_utf8(nm)))
                } else {
                    Option::None
                }
            }
        }
    }
}

/// The instruction a byte buffer decodes to, or `None` when the buffer
/// is empty, carries an unknown tag, is too short for its declared
/// payload, or holds a non-UTF-8 text payload.
pub open spec fn spec_decode_instruction(b: Seq<u8>) -> Option<InstructionModel> {
    if b.len() < 1 {
        Option::None
    } else if b[0] == 1 {
        if b.len() < 33 {
            Option::None
        } else {
            match spec_decode_texts(b, 33) {
                Option::Some(texts) => (Option::Some(
                    InstructionModel::RegisterMint {
                        mint: b.subrange(1, 33),
                        symbol: texts.0,
                        name: texts.1,
                    },
                )),
                Option::None => Option::None,
            }
        }
    } else if b[0] == 2 {
        Option::Some(InstructionModel::CloseMint)
    } else if b[0] == 3 {
        match spec_decode_texts(b, 1) {
            Option::Some(texts) => (Option::Some(
                InstructionModel::ModifyMint { symbol: texts.0, name: texts.1 },
            )),
            Option::None => Option::None,
        }
    } else {
        Option::None
    }
}

/// Relies on `String::from_utf8`: it returns `Ok` exactly when the
/// bytes are valid UTF-8, and the string then holds those bytes
/// decoded.
#[verifier::external_body]
fn bytes_to_string(v: Vec<u8>) -> (r: Option<String>)
    ensures
        r is Some <==> valid_utf8(v@),
        r matches Some(s) ==> s@ == decode_utf8(v@),
{
    match String::from_utf8(v) {
        Ok(s) => Some(s),
        Err(_) => None,
    }
}

/// Appends `src` to the end of `buf`.
fn extend_bytes(buf: &mut Vec<u8>, src: &[u8])
    ensures
        final(buf)@ == old(buf)@ + src@,
{
    let mut i: usize = 0;
    proof {
        assert(buf@ =~= old(buf)@ + src@.subrange(0, 0));
    }
    while i < src.len()
        invariant
            i <= src@.len(),
            buf@ == old(buf)@ + src@.subrange(0, i as int),
        decreases src@.len() - i,
    {
        buf.push(src[i]);
        proof {
            assert(buf@ =~= old(buf)@ + src@.subrange(0, i + 1));
        }
        i = i + 1;
    }
    proof {
        assert(src@.subrange(0, src@.len() as int) =~= src@);
    }
}

/// Reads the two length-prefixed text payloads that start at `at`,
/// returning them decoded. The result is `Ok` exactly when
/// `spec_decode_texts` accepts them.
fn unpack_texts(input: &[u8], at: usize) -> (r: Result<(String, String), ProgramError>)
    requires
        at <= input@.len(),
    ensures
        r matches Ok(texts) ==> spec_decode_texts(input@, at as int) == Option::Some(
            (texts.0@, texts.1@),
        ),
        r is Err ==> spec_decode_texts(input@, at as int) is None && r == Err::<
            (String, String),
            ProgramError,
        >(ProgramError::Custom(0)),
{
    let ilen = input.len();
    if ilen <= at {
        return Err(ProgramError::from(RegistryError::InvalidInstruction));
    }
    let symbol_len = input[at] as usize;
    if ilen - at - 1 < symbol_len || ilen - at - 1 - symbol_len < 1 {
        return Err(ProgramError::from(RegistryError::InvalidInstruction));
    }
    let symbol_bytes = vstd::slice::slice_to_vec(
        vstd::slice::slice_subrange(input, at + 1, at + 1 + symbol_len),
    );
    let name_len = input[at + 1 + symbol_len] as usize;
    if ilen - at - 2 - symbol_len < name_len {
        return Err(ProgramError::from(RegistryError::InvalidInstruction));
    }
    let name_bytes = vstd::slice::slice_to_vec(
        vstd::slice::slice_subrange(input, at + 2 + symbol_len, at + 2 + symbol_len + name_len),
    );
    let symbol = match bytes_to_string(symbol_bytes) {
        Some(s) => s,
        None => { return Err(ProgramError::from(RegistryError::InvalidInstruction)) },
    };
    let name = match bytes_to_string(name_bytes) {
        Some(s) => s,
        None => { return Err(ProgramError::from(RegistryError::InvalidInstruction)) },
    };
    Ok((symbol, name))
}

impl RegistryInstruction {
    /// Unpacks a byte buffer into an instruction. Fails with the
    /// invalid-instruction error exactly when the buffer does not
    /// decode.
    pub fn unpack(input: &[u8]) -> (r: Result<RegistryInstruction, ProgramError>)
        ensures
            (match spec_decode_instruction(input@) {
                Option::Some(m) => r matches Ok(x) && x@ == m,
                Option::None => r == Err::<RegistryInstruction, ProgramError>(
                    ProgramError::Custom(0),
                ),
            }),
    {
        if input.len() < 1 {
            return Err(ProgramError::from(RegistryError::InvalidInstruction));
        }
        let tag = input[0];
        if tag == 1 {
            if input.len() < 33 {
                return Err(ProgramError::from(RegistryError::InvalidInstruction));
            }
            let mint = Self::unpack_pubkey(input);
            let (symbol, name) = match unpack_texts(input, 33) {
                Ok(texts) => texts,
                Err(e) => { return Err(e) },
            };
            Ok(RegistryInstruction::RegisterMint { mint, symbol, name })
        } else if tag == 2 {
            Ok(RegistryInstruction::CloseMint)
        } else if tag == 3 {
            let (symbol, name) = match unpack_texts(input, 1) {
                Ok(texts) => texts,
                Err(e) => { return Err(e) },
            };
            Ok(RegistryInstruction::ModifyMint { symbol, name })
        } else {
            Err(ProgramError::from(RegistryError::InvalidInstruction))
        }
    }

    /// Reads the 32-byte mint identifier that follows the tag byte.
    fn unpack_pubkey(input: &[u8]) -> (r: Pubkey)
        requires
            input@.len() >= 33,
        ensures
            r@ == input@.subrange(1, 33),
    {
        Pubkey::new(vstd::slice::slice_subrange(input, 1, 33))
    }

    /// Packs an instruction into its byte encoding.
    pub fn pack(&self) -> (r: Vec<u8>)
        requires
            self@.wf(),
        ensures
            r@ == spec_encode(self@),
    {
        let mut buf: Vec<u8> = Vec::new();
        match self {
            RegistryInstruction::RegisterMint { mint, symbol, name } => {
                buf.push(1);
                extend_bytes(&mut buf, mint.as_bytes());
                let sb = symbol.as_str().as_bytes();
                buf.push(sb.len() as u8);
                extend_bytes(&mut buf, sb);
                let nb = name.as_str().as_bytes();
                buf.push(nb.len() as u8);
                extend_bytes(&mut buf, nb);
                proof {
                    assert(buf@ =~= spec_encode(self@));
                }
            },
            RegistryInstruction::CloseMint => {
                buf.push(2);
                proof {
                    assert(buf@ =~= spec_encode(self@));
                }
            },
            RegistryInstruction::ModifyMint { symbol, name } => {
                buf.push(3);
                let sb = symbol.as_str().as_bytes();
                buf.push(sb.len() as u8);
                extend_bytes(&mut buf, sb);
                let nb = name.as_str().as_bytes();
                buf.push(nb.len() as u8);
                extend_bytes(&mut buf, nb);
                proof {
                    assert(buf@ =~= spec_encode(self@));
                }
            },
        }
        buf
    }
}

/// One account a request names, with the flags the host enforces for
/// it: whether it must sign the request and whether it may be written.
#[derive(Clone, Copy, Debug, PartialEq)]
pub struct AccountMeta {
    /// The account's identifier.
    pub pubkey: Pubkey,
    /// Whether the account must sign the request.
    pub is_signer: bool,
    /// Whether the account may be written during the request.
    pub is_writable: bool,
}

impl AccountMeta {
    /// A writable account entry.
    pub fn new(pubkey: Pubkey, is_signer: bool) -> (r: AccountMeta)
        ensures
            r == (AccountMeta { pubkey, is_signer, is_writable: true }),
    {
        AccountMeta { pubkey, is_signer, is_writable: true }
    }

    /// A read-only account entry.
    pub fn new_readonly(pubkey: Pubkey, is_signer: bool) -> (r: AccountMeta)
        ensures
            r == (AccountMeta { pubkey, is_signer, is_writable: false }),
    {
        AccountMeta { pubkey, is_signer, is_writable: false }
    }
}

/// A complete request for the host to dispatch: the program to invoke,
/// the accounts to hand it in order, and the instruction bytes.
#[derive(Clone, Debug, PartialEq)]
pub struct Instruction {
    /// The program the host should invoke.
    pub program_id: Pubkey,
    /// The accounts to hand the program, in order.
    pub accounts: Vec<AccountMeta>,
    /// The encoded instruction.
    pub data: Vec<u8>,
}

/// Appends one read-only signer entry for each extra signer.
fn push_signers(accounts: &mut Vec<AccountMeta>, signer_pubkeys: &[Pubkey])
    ensures
        final(accounts)@.len() == old(accounts)@.len() + signer_pubkeys@.len(),
        forall|j: int| 0 <= j < old(accounts)@.len() ==> final(accounts)@[j] == old(accounts)@[j],
        forall|j: int|
            0 <= j < signer_pubkeys@.len() ==> final(accounts)@[old(accounts)@.len() + j] == (
            AccountMeta { pubkey: signer_pubkeys@[j], is_signer: true, is_writable: false }),
{
    let mut i: usize = 0;
    while i < signer_pubkeys.len()
        invariant
            i <= signer_pubkeys@.len(),
            accounts@.len() == old(accounts)@.len() + i,
            forall|j: int| 0 <= j < old(accounts)@.len() ==> accounts@[j] == old(accounts)@[j],
            forall|j: int|
                0 <= j < i ==> accounts@[old(accounts)@.len() + j] == (AccountMeta {
                    pubkey: signer_pubkeys@[j],
                    is_signer: true,
                    is_writable: false,
                }),
        decreases signer_pubkeys@.len() - i,
    {
        accounts.push(AccountMeta::new_readonly(signer_pubkeys[i], true));
        i = i + 1;
    }
}

/// Builds a `RegisterMint` request: the mint record, the paying
/// authority, and the extension target, followed by any extra signers.
pub fn register_mint_instruction(
    program_id: &Pubkey,
    mint_key: &Pubkey,
    symbol: String,
    name: String,
    payer_key: &Pubkey,
    mintext_key: &Pubkey,
    signer_pubkeys: &[Pubkey],
) -> (r: Result<Instruction, ProgramError>)
    requires
        encode_utf8(symbol@).len() < 256,
        encode_utf8(name@).len() < 256,
    ensures
        r matches Ok(ix) && ix.program_id == *program_id && ix.data@ == spec_encode(
            InstructionModel::RegisterMint { mint: mint_key@, symbol: symbol@, name: name@ },
        ) && ix.accounts@.len() == 3 + signer_pubkeys@.len() && ix.accounts@[0] == (AccountMeta {
            pubkey: *mint_key,
            is_signer: false,
            is_writable: true,
        }) && ix.accounts@[1] == (AccountMeta {
            pubkey: *payer_key,
            is_signer: true,
            is_writable: true,
        }) && ix.accounts@[2] == (AccountMeta {
            pubkey: *mintext_key,
            is_signer: true,
            is_writable: true,
        }) && (forall|j: int|
            0 <= j < signer_pubkeys@.len() ==> ix.accounts@[3 + j] == (AccountMeta {
                pubkey: signer_pubkeys@[j],
                is_signer: true,
                is_writable: false,
            })),
{
    broadcast use vstd::array::group_array_axioms;

    let data = RegistryInstruction::RegisterMint { mint: *mint_key, symbol, name }.pack();
    let mut accounts: Vec<AccountMeta> = Vec::new();
    accounts.push(AccountMeta::new(*mint_key, false));
    accounts.push(AccountMeta::new(*payer_key, true));
    accounts.push(AccountMeta::new(*mintext_key, true));
    push_signers(&mut accounts, signer_pubkeys);
    Ok(Instruction { program_id: *program_id, accounts, data })
}

/// Builds a `ModifyMint` request; the account order matches
/// `register_mint_instruction`.
pub fn modify_mint_instruction(
    program_id: &Pubkey,
    mint_key: &Pubkey,
    symbol: String,
    name: String,
    payer_key: &Pubkey,
    mintext_key: &Pubkey,
    signer_pubkeys: &[Pubkey],
) -> (r: Result<Instruction, ProgramError>)
    requires
        encode_utf8(symbol@).len() < 256,
        encode_utf8(name@).len() < 256,
    ensures
        r matches Ok(ix) && ix.program_id == *program_id && ix.data@ == spec_encode(
            InstructionModel::ModifyMint { symbol: symbol@, name: name@ },
        ) && ix.accounts@.len() == 3 + signer_pubkeys@.len() && ix.accounts@[0] == (AccountMeta {
            pubkey: *mint_key,
            is_signer: false,
            is_writable: true,
        }) && ix.accounts@[1] == (AccountMeta {
            pubkey: *payer_key,
            is_signer: true,
            is_writable: true,
        }) && ix.accounts@[2] == (AccountMeta {
            pubkey: *mintext_key,
            is_signer: true,
            is_writable: true,
        }) && (forall|j: int|
            0 <= j < signer_pubkeys@.len() ==> ix.accounts@[3 + j] == (AccountMeta {
                pubkey: signer_pubkeys@[j],
                is_signer: true,
                is_writable: false,
            })),
{
    let data = RegistryInstruction::ModifyMint { symbol, name }.pack();
    let mut accounts: Vec<AccountMeta> = Vec::new();
    accounts.push(AccountMeta::new(*mint_key, false));
    accounts.push(AccountMeta::new(*payer_key, true));
    accounts.push(AccountMeta::new(*mintext_key, true));
    push_signers(&mut accounts, signer_pubkeys);
    Ok(Instruction { program_id: *program_id, accounts, data })
}

/// Builds a `CloseMint` request: the extension record to drain, the
/// destination authority, and the mint record, followed by any extra
/// signers.
pub fn close_mint_instruction(
    program_id: &Pubkey,
    mint_key: &Pubkey,
    payer_key: &Pubkey,
    mintext_key: &Pubkey,
    signer_pubkeys: &[Pubkey],
) -> (r: Result<Instruction, ProgramError>)
    ensures
        r matches Ok(ix) && ix.program_id == *program_id && ix.data@ == spec_encode(
            InstructionModel::CloseMint,
        ) && ix.accounts@.len() == 3 + signer_pubkeys@.len() && ix.accounts@[0] == (AccountMeta {
            pubkey: *mintext_key,
            is_signer: true,
            is_writable: true,
        }) && ix.accounts@[1] == (AccountMeta {
            pubkey: *payer_key,
            is_signer: true,
            is_writable: true,
        }) && ix.accounts@[2] == (AccountMeta {
            pubkey: *mint_key,
            is_signer: false,
            is_writable: true,
        }) && (forall|j: int|
            0 <= j < signer_pubkeys@.len() ==> ix.accounts@[3 + j] == (AccountMeta {
                pubkey: signer_pubkeys@[j],
                is_signer: true,
                is_writable: false,
            })),
{
    let data = RegistryInstruction::CloseMint.pack();
    let mut accounts: Vec<AccountMeta> = Vec::new();
    accounts.push(AccountMeta::new(*mintext_key, true));
    accounts.push(AccountMeta::new(*payer_key, true));
    accounts.push(AccountMeta::new(*mint_key, false));
    push_signers(&mut accounts, signer_pubkeys);
    Ok(Instruction { program_id: *program_id, accounts, data })
}

/// Law: the text payloads decode back from their encoding, whatever
/// follows them, provided each encodes to fewer than 256 bytes.
proof fn lemma_text_round_trip(symbol: Seq<char>, name: Seq<char>, prefix: Seq<u8>)
    requires
        encode_utf8(symbol).len() < 256,
        encode_utf8(name).len() < 256,
    ensures
        spec_decode_texts(
            prefix + spec_encode_text(symbol) + spec_encode_text(name),
            prefix.len() as int,
        ) == Option::Some((symbol, name)),
{
    broadcast use vstd::utf8::encode_utf8_valid_utf8, vstd::utf8::encode_utf8_decode_utf8;

    let b = prefix + spec_encode_text(symbol) + spec_encode_text(name);
    let at = prefix.len() as int;
    let sb = encode_utf8(symbol);
    let nb = encode_utf8(name);
    assert(b.len() == at + 1 + sb.len() + 1 + nb.len());
    assert(b[at] == sb.len() as u8);
    let sl = b[at] as int;
    assert(sl == sb.len());
    assert(b.subrange(at + 1, at + 1 + sl) =~= sb);
    assert(b[at + 1 + sl] == nb.len() as u8);
    let nl = b[at + 1 + sl] as int;
    assert(nl == nb.len());
    assert(b.subrange(at + 2 + sl, at + 2 + sl + nl) =~= nb);
}

/// Law: decoding an encoded instruction returns the instruction
/// exactly, provided its symbol and name each encode to fewer than
/// 256 bytes; with the contracts of `pack` and `unpack` this is the
/// round trip `unpack(pack(x)) == x`.
pub proof fn lemma_instruction_round_trip(m: InstructionModel)
    requires
        m.wf(),
    ensures
        spec_decode_instruction(spec_encode(m)) == Option::Some(m),
{
    let b = spec_encode(m);
    match m {
        InstructionModel::RegisterMint { mint, symbol, name } => {
            assert(b[0] == 1);
            assert(b.len() >= 34);
            lemma_text_round_trip(symbol, name, seq![1u8] + mint);
            assert(b.subrange(1, 33) =~= mint);
        },
        InstructionModel::CloseMint => {
            assert(b[0] == 2);
        },
        InstructionModel::ModifyMint { symbol, name } => {
            assert(b[0] == 3);
            lemma_text_round_trip(symbol, name, seq![3u8]);
        },
    }
}

} // verus!
