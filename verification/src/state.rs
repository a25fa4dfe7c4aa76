//! Fixed-width persisted record layouts: the extension record this
//! program owns and the read-only asset record it references.

use vstd::prelude::*;

use crate::error::ProgramError;
use crate::pubkey::Pubkey;

verus! {

broadcast use vstd::array::group_array_axioms;

/// An all-zero byte sequence of the given length.
pub open spec fn zero_bytes(n: nat) -> Seq<u8> {
    Seq::new(n, |i: int| 0u8)
}

/// Copies `src` into `dst` starting at offset `at`, leaving every
/// other byte of `dst` unchanged.
fn copy_to(dst: &mut Vec<u8>, at: usize, src: &[u8])
    requires
        at + src@.len() <= old(dst)@.len(),
    ensures
        final(dst)@.len() == old(dst)@.len(),
        forall|j: int|
            0 <= j < old(dst)@.len() ==> final(dst)@[j] == (if at <= j < at + src@.len() {
                src@[j - at]
            } else {
                old(dst)@[j]
            }),
{
    let dlen = dst.len();
    let mut i: usize = 0;
    while i < src.len()
        invariant
            i <= src@.len(),
            at + src@.len() <= dlen,
            dlen == dst@.len(),
            dst@.len() == old(dst)@.len(),
            forall|j: int|
                0 <= j < dst@.len() ==> dst@[j] == (if at <= j < at + i {
                    src@[j - at]
                } else {
                    old(dst)@[j]
                }),
        decreases src@.len() - i,
    {
        dst[at + i] = src[i];
        i = i + 1;
    }
}

/// The length in bytes of a packed extension record.
pub const EXTENSION_LEN: usize = 67;

/// The extension record this program owns: a symbol and a name bound
/// to one asset record.
///
/// `symbol` and `name` are raw byte buffers of which only the first
/// `symbol_len` (resp. `name_len`) bytes are significant; bytes beyond
/// that length are unspecified and may be stale.
#[derive(Clone, Copy, Debug, PartialEq)]
pub struct MintExtension {
    /// Whether the record is in use. `false` means the record is
    /// logically uninitialized, whatever the other fields hold.
    pub is_initialized: bool,
    /// The asset record this extension describes, by identifier.
    pub mint: Pubkey,
    /// How many bytes of `symbol` are significant.
    pub symbol_len: u8,
    /// The symbol buffer.
    pub symbol: [u8; 16],
    /// How many bytes of `name` are significant.
    pub name_len: u8,
    /// The name buffer.
    pub name: [u8; 16],
}

/// Byte `i` of the packed form of `e`, for `0 <= i < 67`.
pub open spec fn ext_byte(e: MintExtension, i: int) -> u8 {
    if i == 0 {
        if e.is_initialized {
            1u8
        } else {
            0u8
        }
    } else if i < 33 {
        e.mint@[i - 1]
    } else if i == 33 {
        e.symbol_len
    } else if i < 50 {
        e.symbol@[i - 34]
    } else if i == 50 {
        e.name_len
    } else {
        e.name@[i - 51]
    }
}

/// The 67-byte packed form of an extension record.
pub open spec fn spec_pack_extension(e: MintExtension) -> Seq<u8> {
    Seq::new(67, |i: int| ext_byte(e, i))
}

/// Whether the leading flag byte of an extension record's bytes parses
/// as a boolean.
pub open spec fn ext_flag_ok(b: Seq<u8>) -> bool
    recommends
        b.len() >= 67,
{
    b[0] == 0 || b[0] == 1
}

/// Whether a buffer is exactly one well-formed packed extension record.
pub open spec fn ext_bytes_ok(b: Seq<u8>) -> bool {
    b.len() == 67 && ext_flag_ok(b)
}

/// How an unpacked extension record relates to the first 67 bytes it
/// was read from.
pub open spec fn spec_unpacked_extension(e: MintExtension, b: Seq<u8>) -> bool
    recommends
        b.len() >= 67,
{
    &&& e.is_initialized == (b[0] == 1)
    &&& e.mint@ == b.subrange(1, 33)
    &&& e.symbol_len == b[33]
    &&& e.symbol@ == b.subrange(34, 50)
    &&& e.name_len == b[50]
    &&& e.name@ == b.subrange(51, 67)
}

impl MintExtension {
    /// The length in bytes of the packed record.
    pub fn get_packed_len() -> (r: usize)
        ensures
            r == EXTENSION_LEN,
    {
        EXTENSION_LEN
    }

    /// Whether the record is in use.
    pub fn is_initialized(&self) -> (r: bool)
        ensures
            r == self.is_initialized,
    {
        self.is_initialized
    }

    /// Reads a record from the first 67 bytes of `src`. Fails exactly
    /// when the flag byte is neither 0 nor 1.
    pub fn unpack_from_slice(src: &[u8]) -> (r: Result<MintExtension, ProgramError>)
        requires
            src@.len() >= 67,
        ensures
            r is Ok <==> ext_flag_ok(src@),
            r matches Ok(e) ==> spec_unpacked_extension(e, src@),
            r is Err ==> r == Err::<MintExtension, ProgramError>(ProgramError::InvalidAccountData),
    {
        let flag = src[0];
        let is_initialized: bool = if flag == 0 {
            false
        } else if flag == 1 {
            true
        } else {
            return Err(ProgramError::InvalidAccountData);
        };
        let mut mintb: [u8; 32] = [0u8; 32];
        let mut i: usize = 0;
        while i < 32
            invariant
                i <= 32,
                src@.len() >= 67,
                forall|j: int| 0 <= j < i ==> mintb@[j] == src@[1 + j],
            decreases 32 - i,
        {
            mintb[i] = src[1 + i];
            i = i + 1;
        }
        let mint = Pubkey::new_from_array(mintb);
        let symbol_len = src[33];
        let mut symbol: [u8; 16] = [0u8; 16];
        i = 0;
        while i < 16
            invariant
                i <= 16,
                src@.len() >= 67,
                forall|j: int| 0 <= j < i ==> symbol@[j] == src@[34 + j],
            decreases 16 - i,
        {
            symbol[i] = src[34 + i];
            i = i + 1;
        }
        let name_len = src[50];
        let mut name: [u8; 16] = [0u8; 16];
        i = 0;
        while i < 16
            invariant
                i <= 16,
                src@.len() >= 67,
                forall|j: int| 0 <= j < i ==> name@[j] == src@[51 + j],
            decreases 16 - i,
        {
            name[i] = src[51 + i];
            i = i + 1;
        }
        proof {
            assert(mint@ =~= src@.subrange(1, 33));
            assert(symbol@ =~= src@.subrange(34, 50));
            assert(name@ =~= src@.subrange(51, 67));
        }
        Ok(
            MintExtension {
                is_initialized,
                mint,
                symbol_len,
                symbol,
                name_len,
                name,
            },
        )
    }

    /// Reads a record from a buffer that must be exactly 67 bytes.
    pub fn unpack_unchecked(input: &[u8]) -> (r: Result<MintExtension, ProgramError>)
        ensures
            r is Ok <==> ext_bytes_ok(input@),
            r matches Ok(e) ==> spec_unpacked_extension(e, input@),
            r is Err ==> r == Err::<MintExtension, ProgramError>(ProgramError::InvalidAccountData),
    {
        if input.len() != EXTENSION_LEN {
            return Err(ProgramError::InvalidAccountData);
        }
        MintExtension::unpack_from_slice(input)
    }

    /// Writes the packed record into the first 67 bytes of `dst`,
    /// leaving any bytes past 67 unchanged.
    pub fn pack_into_slice(&self, dst: &mut Vec<u8>)
        requires
            old(dst)@.len() >= 67,
        ensures
            final(dst)@.len() == old(dst)@.len(),
            forall|j: int|
                0 <= j < old(dst)@.len() ==> final(dst)@[j] == (if j < 67 {
                    ext_byte(*self, j)
                } else {
                    old(dst)@[j]
                }),
    {
        let flag: u8 = if self.is_initialized {
            1
        } else {
            0
        };
        dst[0] = flag;
        copy_to(dst, 1, self.mint.as_bytes());
        dst[33] = self.symbol_len;
        copy_to(dst, 34, self.symbol.as_slice());
        dst[50] = self.name_len;
        copy_to(dst, 51, self.name.as_slice());
    }

    /// Packs a record into a buffer that must be exactly 67 bytes.
    pub fn pack(src: MintExtension, dst: &mut Vec<u8>) -> (r: Result<(), ProgramError>)
        ensures
            old(dst)@.len() == 67 ==> r is Ok && final(dst)@ == spec_pack_extension(src),
            old(dst)@.len() != 67 ==> r == Err::<(), ProgramError>(ProgramError::InvalidAccountData)
                && final(dst)@ == old(dst)@,
    {
        if dst.len() != EXTENSION_LEN {
            return Err(ProgramError::InvalidAccountData);
        }
        src.pack_into_slice(dst);
        proof {
            assert(dst@ =~= spec_pack_extension(src));
        }
        Ok(())
    }
}

impl Default for MintExtension {
    /// The record a zero-filled buffer unpacks to: uninitialized, with
    /// every byte of every field zero.
    fn default() -> (r: Self)
        ensures
            !r.is_initialized,
            r.mint@ == zero_bytes(32),
            r.symbol_len == 0,
            r.symbol@ == zero_bytes(16),
            r.name_len == 0,
            r.name@ == zero_bytes(16),
    {
        let r = MintExtension {
            is_initialized: false,
            mint: Pubkey::new_from_array([0u8; 32]),
            symbol_len: 0,
            symbol: [0u8; 16],
            name_len: 0,
            name: [0u8; 16],
        };
        proof {
            assert(r.mint@ =~= zero_bytes(32));
            assert(r.symbol@ =~= zero_bytes(16));
            assert(r.name@ =~= zero_bytes(16));
        }
        r
    }
}

/// Law: packing always yields 67 bytes that unpack successfully.
pub proof fn lemma_pack_extension_ok(e: MintExtension)
    ensures
        ext_bytes_ok(spec_pack_extension(e)),
{
}

/// Law: a record read back from a packed record is that record; with
/// the contracts of `pack` and `unpack_unchecked` this is the round
/// trip `unpack(pack(r)) == r`.
pub proof fn lemma_extension_round_trip(e: MintExtension, e2: MintExtension)
    requires
        spec_unpacked_extension(e2, spec_pack_extension(e)),
    ensures
        e2 == e,
{
    let b = spec_pack_extension(e);
    assert(e2.mint@ =~= e.mint@) by {
        assert forall|j: int| 0 <= j < 32 implies e2.mint@[j] == e.mint@[j] by {
            assert(e2.mint@[j] == b.subrange(1, 33)[j]);
            assert(b[1 + j] == ext_byte(e, 1 + j));
        }
    }
    assert(e2.mint.bytes =~= e.mint.bytes);
    assert(e2.symbol@ =~= e.symbol@) by {
        assert forall|j: int| 0 <= j < 16 implies e2.symbol@[j] == e.symbol@[j] by {
            assert(e2.symbol@[j] == b.subrange(34, 50)[j]);
            assert(b[34 + j] == ext_byte(e, 34 + j));
        }
    }
    assert(e2.symbol =~= e.symbol);
    assert(e2.name@ =~= e.name@) by {
        assert forall|j: int| 0 <= j < 16 implies e2.name@[j] == e.name@[j] by {
            assert(e2.name@[j] == b.subrange(51, 67)[j]);
            assert(b[51 + j] == ext_byte(e, 51 + j));
        }
    }
    assert(e2.name =~= e.name);
}

/// The length in bytes of a packed asset record.
pub const MINT_LEN: usize = 82;

/// The externally defined asset record. The program parses it to
/// discover the current controlling authority and never writes it.
#[derive(Clone, Copy, Debug, PartialEq)]
pub struct Mint {
    /// Optional authority used to mint new tokens. If absent the mint
    /// has a fixed supply and no request can ever be authorized.
    pub mint_authority: Option<Pubkey>,
    /// Total supply of tokens.
    pub supply: u64,
    /// Number of base-10 digits to the right of the decimal place.
    pub decimals: u8,
    /// Whether the asset record has been initialized.
    pub is_initialized: bool,
    /// Optional authority that can freeze token accounts.
    pub freeze_authority: Option<Pubkey>,
}

/// The byte views of an optional identifier.
pub open spec fn opt_key_view(o: Option<Pubkey>) -> Option<Seq<u8>> {
    match o {
        Option::Some(k) => Option::Some(k@),
        Option::None => Option::None,
    }
}

/// Whether a 36-byte optional-identifier region has a well-formed
/// presence tag: `[0,0,0,0]` for absent or `[1,0,0,0]` for present.
pub open spec fn coption_tag_ok(b: Seq<u8>) -> bool
    recommends
        b.len() == 36,
{
    (b[0] == 0 || b[0] == 1) && b[1] == 0 && b[2] == 0 && b[3] == 0
}

/// The optional identifier a well-formed 36-byte region holds; the
/// 32-byte payload is defined only when the tag marks it present.
pub open spec fn spec_coption_key(b: Seq<u8>) -> Option<Seq<u8>>
    recommends
        b.len() == 36,
{
    if b[0] == 1 {
        Option::Some(b.subrange(4, 36))
    } else {
        Option::None
    }
}

/// Whether the first 82 bytes of a buffer parse as an asset record:
/// both optional-identifier tags are well formed and the flag byte is
/// a boolean.
pub open spec fn mint_parse_ok(b: Seq<u8>) -> bool
    recommends
        b.len() >= 82,
{
    &&& coption_tag_ok(b.subrange(0, 36))
    &&& b[45] == 0 || b[45] == 1
    &&& coption_tag_ok(b.subrange(46, 82))
}

/// Whether a buffer is exactly one well-formed packed asset record.
pub open spec fn mint_bytes_ok(b: Seq<u8>) -> bool {
    b.len() == 82 && mint_parse_ok(b)
}

/// How an unpacked asset record relates to the first 82 bytes it was
/// read from.
pub open spec fn spec_unpacked_mint(m: Mint, b: Seq<u8>) -> bool
    recommends
        b.len() >= 82,
{
    &&& opt_key_view(m.mint_authority) == spec_coption_key(b.subrange(0, 36))
    &&& m.supply == vstd::bytes::spec_u64_from_le_bytes(b.subrange(36, 44))
    &&& m.decimals == b[44]
    &&& m.is_initialized == (b[45] == 1)
    &&& opt_key_view(m.freeze_authority) == spec_coption_key(b.subrange(46, 82))
}

/// Byte `i` of the packed form of `m`, for `0 <= i < 82`. An absent
/// optional identifier leaves its 32-byte payload region as it was in
/// `old_b`, the buffer being written over.
pub open spec fn mint_byte(m: Mint, old_b: Seq<u8>, i: int) -> u8 {
    if i == 0 {
        if m.mint_authority is Some {
            1u8
        } else {
            0u8
        }
    } else if i < 4 {
        0u8
    } else if i < 36 {
        match m.mint_authority {
            Option::Some(k) => k@[i - 4],
            Option::None => old_b[i],
        }
    } else if i < 44 {
        vstd::bytes::spec_u64_to_le_bytes(m.supply)[i - 36]
    } else if i == 44 {
        m.decimals
    } else if i == 45 {
        if m.is_initialized {
            1u8
        } else {
            0u8
        }
    } else if i == 46 {
        if m.freeze_authority is Some {
            1u8
        } else {
            0u8
        }
    } else if i < 50 {
        0u8
    } else {
        match m.freeze_authority {
            Option::Some(k) => k@[i - 50],
            Option::None => old_b[i],
        }
    }
}

/// The 82-byte packed form of an asset record written over `old_b`.
pub open spec fn spec_pack_mint(m: Mint, old_b: Seq<u8>) -> Seq<u8> {
    Seq::new(82, |i: int| mint_byte(m, old_b, i))
}

/// Reads the optional identifier stored in `src[at..at + 36]`. Fails
/// exactly when the 4-byte presence tag is malformed.
fn unpack_coption_key(src: &[u8], at: usize) -> (r: Result<Option<Pubkey>, ProgramError>)
    requires
        at + 36 <= src@.len(),
    ensures
        r is Ok <==> coption_tag_ok(src@.subrange(at as int, at + 36)),
        r matches Ok(o) ==> opt_key_view(o) == spec_coption_key(src@.subrange(at as int, at + 36)),
        r is Err ==> r == Err::<Option<Pubkey>, ProgramError>(ProgramError::InvalidAccountData),
{
    let ghost region = src@.subrange(at as int, at + 36);
    if src[at + 1] != 0 || src[at + 2] != 0 || src[at + 3] != 0 {
        return Err(ProgramError::InvalidAccountData);
    }
    let tag = src[at];
    if tag == 0 {
        Ok(None)
    } else if tag == 1 {
        let key = Pubkey::new(vstd::slice::slice_subrange(src, at + 4, at + 36));
        proof {
            assert(key@ =~= region.subrange(4, 36));
        }
        Ok(Some(key))
    } else {
        Err(ProgramError::InvalidAccountData)
    }
}

/// Writes the optional identifier `o` into `dst[at..at + 36]`: the
/// presence tag, then the 32-byte payload, which is left unchanged
/// when `o` is absent. Other bytes of `dst` are untouched.
fn pack_coption_key(o: &Option<Pubkey>, dst: &mut Vec<u8>, at: usize)
    requires
        at + 36 <= old(dst)@.len(),
    ensures
        final(dst)@.len() == old(dst)@.len(),
        forall|j: int|
            0 <= j < old(dst)@.len() ==> final(dst)@[j] == (if j == at {
                if o is Some {
                    1u8
                } else {
                    0u8
                }
            } else if at < j < at + 4 {
                0u8
            } else if at + 4 <= j < at + 36 {
                match *o {
                    Option::Some(k) => k@[j - at - 4],
                    Option::None => old(dst)@[j],
                }
            } else {
                old(dst)@[j]
            }),
{
    let dlen = dst.len();
    proof {
        assert(at + 36 <= dlen);
    }
    match o {
        Option::Some(key) => {
            dst[at] = 1;
            dst[at + 1] = 0;
            dst[at + 2] = 0;
            dst[at + 3] = 0;
            copy_to(dst, at + 4, key.as_bytes());
        },
        Option::None => {
            dst[at] = 0;
            dst[at + 1] = 0;
            dst[at + 2] = 0;
            dst[at + 3] = 0;
        },
    }
}

impl Mint {
    /// The length in bytes of the packed record.
    pub fn get_packed_len() -> (r: usize)
        ensures
            r == MINT_LEN,
    {
        MINT_LEN
    }

    /// Whether the asset record has been initialized.
    pub fn is_initialized(&self) -> (r: bool)
        ensures
            r == self.is_initialized,
    {
        self.is_initialized
    }

    /// Reads an asset record from the first 82 bytes of `src`. Fails
    /// exactly when an optional-identifier tag or the flag byte is
    /// malformed.
    pub fn unpack_from_slice(src: &[u8]) -> (r: Result<Mint, ProgramError>)
        requires
            src@.len() >= 82,
        ensures
            r is Ok <==> mint_parse_ok(src@),
            r matches Ok(m) ==> spec_unpacked_mint(m, src@),
            r is Err ==> r == Err::<Mint, ProgramError>(ProgramError::InvalidAccountData),
    {
        let mint_authority = match unpack_coption_key(src, 0) {
            Ok(o) => o,
            Err(e) => { return Err(e) },
        };
        let supply = vstd::bytes::u64_from_le_bytes(vstd::slice::slice_subrange(src, 36, 44));
        let decimals = src[44];
        let flag = src[45];
        let is_initialized: bool = if flag == 0 {
            false
        } else if flag == 1 {
            true
        } else {
            return Err(ProgramError::InvalidAccountData);
        };
        let freeze_authority = match unpack_coption_key(src, 46) {
            Ok(o) => o,
            Err(e) => { return Err(e) },
        };
        Ok(
            Mint {
                mint_authority,
                supply,
                decimals,
                is_initialized,
                freeze_authority,
            },
        )
    }

    /// Reads an asset record from a buffer that must be exactly 82
    /// bytes.
    pub fn unpack_unchecked(input: &[u8]) -> (r: Result<Mint, ProgramError>)
        ensures
            r is Ok <==> mint_bytes_ok(input@),
            r matches Ok(m) ==> spec_unpacked_mint(m, input@),
            r is Err ==> r == Err::<Mint, ProgramError>(ProgramError::InvalidAccountData),
    {
        if input.len() != MINT_LEN {
            return Err(ProgramError::InvalidAccountData);
        }
        Mint::unpack_from_slice(input)
    }

    /// Writes the packed record into the first 82 bytes of `dst`,
    /// leaving any bytes past 82 unchanged. The payload region of an
    /// absent optional identifier keeps whatever bytes it held.
    pub fn pack_into_slice(&self, dst: &mut Vec<u8>)
        requires
            old(dst)@.len() >= 82,
        ensures
            final(dst)@.len() == old(dst)@.len(),
            forall|j: int|
                0 <= j < old(dst)@.len() ==> final(dst)@[j] == (if j < 82 {
                    mint_byte(*self, old(dst)@, j)
                } else {
                    old(dst)@[j]
                }),
    {
        let ghost b0 = dst@;
        pack_coption_key(&self.mint_authority, dst, 0);
        let supply_bytes = vstd::bytes::u64_to_le_bytes(self.supply);
        copy_to(dst, 36, supply_bytes.as_slice());
        dst[44] = self.decimals;
        dst[45] = if self.is_initialized {
            1
        } else {
            0
        };
        pack_coption_key(&self.freeze_authority, dst, 46);
    }
}

impl Default for Mint {
    /// The record a zero-filled buffer unpacks to: no authorities, no
    /// supply, uninitialized.
    fn default() -> (r: Self)
        ensures
            r.mint_authority is None,
            r.supply == 0,
            r.decimals == 0,
            !r.is_initialized,
            r.freeze_authority is None,
    {
        Mint {
            mint_authority: None,
            supply: 0,
            decimals: 0,
            is_initialized: false,
            freeze_authority: None,
        }
    }
}

/// Law: packing always yields 82 bytes that unpack successfully,
/// whatever buffer they were written over.
pub proof fn lemma_pack_mint_ok(m: Mint, old_b: Seq<u8>)
    ensures
        mint_bytes_ok(spec_pack_mint(m, old_b)),
{
    let b = spec_pack_mint(m, old_b);
    assert(coption_tag_ok(b.subrange(0, 36)));
    assert(coption_tag_ok(b.subrange(46, 82)));
}

/// Law: an asset record read back from a packed asset record is that
/// record; with the contracts of `pack_into_slice` and
/// `unpack_unchecked` this is the round trip `unpack(pack(r)) == r`.
pub proof fn lemma_mint_round_trip(m: Mint, old_b: Seq<u8>, m2: Mint)
    requires
        spec_unpacked_mint(m2, spec_pack_mint(m, old_b)),
    ensures
        m2 == m,
{
    let b = spec_pack_mint(m, old_b);
    match m.mint_authority {
        Option::Some(k) => {
            assert(b[0] == 1);
            assert(b.subrange(0, 36)[0] == 1);
            let k2b = b.subrange(0, 36).subrange(4, 36);
            assert(k2b =~= k@);
            match m2.mint_authority {
                Option::Some(k2) => {
                    assert(k2@ == k2b);
                    crate::pubkey::lemma_pubkey_view_injective(k2, k);
                },
                Option::None => {
                    assert(false);
                },
            }
        },
        Option::None => {
            assert(b.subrange(0, 36)[0] == 0);
            assert(m2.mint_authority is None);
        },
    }
    assert(b.subrange(36, 44) =~= vstd::bytes::spec_u64_to_le_bytes(m.supply)) by {
        vstd::bytes::lemma_auto_spec_u64_to_from_le_bytes();
    }
    assert(m2.supply == m.supply) by {
        vstd::bytes::lemma_auto_spec_u64_to_from_le_bytes();
    }
    match m.freeze_authority {
        Option::Some(k) => {
            assert(b.subrange(46, 82)[0] == 1);
            let k2b = b.subrange(46, 82).subrange(4, 36);
            assert(k2b =~= k@);
            match m2.freeze_authority {
                Option::Some(k2) => {
                    assert(k2@ == k2b);
                    crate::pubkey::lemma_pubkey_view_injective(k2, k);
                },
                Option::None => {
                    assert(false);
                },
            }
        },
        Option::None => {
            assert(b.subrange(46, 82)[0] == 0);
            assert(m2.freeze_authority is None);
        },
    }
}

} // verus!
