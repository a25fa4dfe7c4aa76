use mint_registry::error::ProgramError;
use mint_registry::instruction::RegistryInstruction;
use mint_registry::pubkey::Pubkey;

#[test]
fn test_instruction_register_mint() {
    let check = RegistryInstruction::RegisterMint {
        mint: Pubkey::new(&[1u8; 32]),
        symbol: String::from(""),
        name: String::from(""),
    };
    let packed = check.pack();
    let mut expect = Vec::new();
    expect.extend_from_slice(&[1]);
    expect.extend_from_slice(&[1u8; 32]);
    expect.extend_from_slice(&[0]);
    expect.extend_from_slice(&[0]);
    assert_eq!(packed, expect);
    let unpacked = RegistryInstruction::unpack(&expect).unwrap();
    assert_eq!(unpacked, check);

    let check = RegistryInstruction::RegisterMint {
        mint: Pubkey::new(&[2u8; 32]),
        symbol: String::from("CZCOIN"),
        name: String::from("CZ's COIN"),
    };
    let packed = check.pack();
    let mut expect = Vec::new();
    expect.extend_from_slice(&[1]);
    expect.extend_from_slice(&[2u8; 32]);
    let symbol = String::from("CZCOIN");
    let name = String::from("CZ's COIN");
    expect.extend_from_slice(&[symbol.len() as u8]);
    expect.extend_from_slice(symbol.as_bytes());
    expect.extend_from_slice(&[name.len() as u8]);
    expect.extend_from_slice(name.as_bytes());
    assert_eq!(packed, expect);
    let unpacked = RegistryInstruction::unpack(&expect).unwrap();
    assert_eq!(unpacked, check);

    let check = RegistryInstruction::RegisterMint {
        mint: Pubkey::new(&[2u8; 32]),
        symbol: String::from(""),
        name: String::from("CZ's COIN"),
    };
    let packed = check.pack();
    let mut expect = Vec::new();
    expect.extend_from_slice(&[1]);
    expect.extend_from_slice(&[2u8; 32]);
    let symbol = String::from("");
    let name = String::from("CZ's COIN");
    expect.extend_from_slice(&[symbol.len() as u8]);
    expect.extend_from_slice(symbol.as_bytes());
    expect.extend_from_slice(&[name.len() as u8]);
    expect.extend_from_slice(name.as_bytes());
    assert_eq!(packed, expect);
    let unpacked = RegistryInstruction::unpack(&expect).unwrap();
    assert_eq!(unpacked, check);

    let check = RegistryInstruction::RegisterMint {
        mint: Pubkey::new(&[2u8; 32]),
        symbol: String::from("CZCOIN"),
        name: String::from(""),
    };
    let packed = check.pack();
    let mut expect = Vec::new();
    expect.extend_from_slice(&[1]);
    expect.extend_from_slice(&[2u8; 32]);
    let symbol = String::from("CZCOIN");
    let name = String::from("");
    expect.extend_from_slice(&[symbol.len() as u8]);
    expect.extend_from_slice(symbol.as_bytes());
    expect.extend_from_slice(&[name.len() as u8]);
    expect.extend_from_slice(name.as_bytes());
    assert_eq!(packed, expect);
    let unpacked = RegistryInstruction::unpack(&expect).unwrap();
    assert_eq!(unpacked, check);
}

#[test]
fn test_instruction_modify_mint() {
    let check = RegistryInstruction::ModifyMint {
        symbol: String::from(""),
        name: String::from(""),
    };
    let packed = check.pack();
    let mut expect = Vec::new();
    expect.extend_from_slice(&[3]);
    expect.extend_from_slice(&[0]);
    expect.extend_from_slice(&[0]);
    assert_eq!(packed, expect);
    let unpacked = RegistryInstruction::unpack(&expect).unwrap();
    assert_eq!(unpacked, check);

    let check = RegistryInstruction::ModifyMint {
        symbol: String::from("CZCOIN"),
        name: String::from("CZ's COIN"),
    };
    let packed = check.pack();
    let mut expect = Vec::new();
    expect.extend_from_slice(&[3]);
    let symbol = String::from("CZCOIN");
    let name = String::from("CZ's COIN");
    expect.extend_from_slice(&[symbol.len() as u8]);
    expect.extend_from_slice(symbol.as_bytes());
    expect.extend_from_slice(&[name.len() as u8]);
    expect.extend_from_slice(name.as_bytes());
    assert_eq!(packed, expect);
    let unpacked = RegistryInstruction::unpack(&expect).unwrap();
    assert_eq!(unpacked, check);

    let check = RegistryInstruction::ModifyMint {
        symbol: String::from(""),
        name: String::from("CZ's COIN"),
    };
    let packed = check.pack();
    let mut expect = Vec::new();
    expect.extend_from_slice(&[3]);
    let symbol = String::from("");
    let name = String::from("CZ's COIN");
    expect.extend_from_slice(&[symbol.len() as u8]);
    expect.extend_from_slice(symbol.as_bytes());
    expect.extend_from_slice(&[name.len() as u8]);
    expect.extend_from_slice(name.as_bytes());
    assert_eq!(packed, expect);
    let unpacked = RegistryInstruction::unpack(&expect).unwrap();
    assert_eq!(unpacked, check);

    let check = RegistryInstruction::ModifyMint {
        symbol: String::from("CZCOIN"),
        name: String::from(""),
    };
    let packed = check.pack();
    let mut expect = Vec::new();
    expect.extend_from_slice(&[3]);
    let symbol = String::from("CZCOIN");
    let name = String::from("");
    expect.extend_from_slice(&[symbol.len() as u8]);
    expect.extend_from_slice(symbol.as_bytes());
    expect.extend_from_slice(&[name.len() as u8]);
    expect.extend_from_slice(name.as_bytes());
    assert_eq!(packed, expect);
    let unpacked = RegistryInstruction::unpack(&expect).unwrap();
    assert_eq!(unpacked, check);
}

#[test]
fn test_instruction_close_mint() {
    let check = RegistryInstruction::CloseMint;
    let packed = check.pack();
    let mut expect = Vec::new();
    expect.extend_from_slice(&[2]);
    assert_eq!(packed, expect);
    let unpacked = RegistryInstruction::unpack(&expect).unwrap();
    assert_eq!(unpacked, check);
}

#[test]
fn unpack_rejects_malformed_buffers() {
    // Empty buffer.
    assert_eq!(
        RegistryInstruction::unpack(&[]),
        Err(ProgramError::Custom(0))
    );
    // Unknown tag.
    assert_eq!(
        RegistryInstruction::unpack(&[9]),
        Err(ProgramError::Custom(0))
    );
    // Register too short for its mint identifier.
    assert_eq!(
        RegistryInstruction::unpack(&[1, 7, 7]),
        Err(ProgramError::Custom(0))
    );
    // Register with no symbol length byte.
    let mut buf = vec![1u8];
    buf.extend_from_slice(&[5u8; 32]);
    assert_eq!(
        RegistryInstruction::unpack(&buf),
        Err(ProgramError::Custom(0))
    );
    // Symbol length byte declares more bytes than follow.
    buf.push(4);
    buf.extend_from_slice(b"ab");
    assert_eq!(
        RegistryInstruction::unpack(&buf),
        Err(ProgramError::Custom(0))
    );
    // Modify whose name length byte is missing.
    assert_eq!(
        RegistryInstruction::unpack(&[3, 1, b'a']),
        Err(ProgramError::Custom(0))
    );
}

#[test]
fn unpack_rejects_non_utf8_text() {
    let mut buf = vec![1u8];
    buf.extend_from_slice(&[5u8; 32]);
    buf.push(1);
    buf.push(0xFF);
    buf.push(0);
    assert_eq!(
        RegistryInstruction::unpack(&buf),
        Err(ProgramError::Custom(0))
    );

    let buf = vec![3u8, 2, 0xC3, 0x28, 0];
    assert_eq!(
        RegistryInstruction::unpack(&buf),
        Err(ProgramError::Custom(0))
    );
}

#[test]
fn unpack_decodes_multibyte_utf8_text() {
    let check = RegistryInstruction::ModifyMint {
        symbol: String::from("caf\u{e9}"),
        name: String::from(""),
    };
    let packed = check.pack();
    // "café" encodes to five bytes, the last two for the accent.
    assert_eq!(packed, vec![3, 5, b'c', b'a', b'f', 0xC3, 0xA9, 0]);
    let unpacked = RegistryInstruction::unpack(&packed).unwrap();
    assert_eq!(unpacked, check);
    match unpacked {
        RegistryInstruction::ModifyMint { symbol, .. } => {
            assert_eq!(symbol.chars().count(), 4);
        }
        _ => panic!("wrong variant"),
    }
}

#[test]
fn unpack_ignores_trailing_bytes() {
    let unpacked = RegistryInstruction::unpack(&[2, 42, 42]).unwrap();
    assert_eq!(unpacked, RegistryInstruction::CloseMint);
}
