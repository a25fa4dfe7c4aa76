use mint_registry::error::{ProgramError, RegistryError};
use mint_registry::instruction::{
    close_mint_instruction, modify_mint_instruction, register_mint_instruction,
};
use mint_registry::pubkey::Pubkey;

#[test]
fn error_codes_are_stable() {
    assert_eq!(RegistryError::InvalidInstruction.code(), 0);
    assert_eq!(RegistryError::SymbolTooLong.code(), 1);
    assert_eq!(RegistryError::NoAuthority.code(), 2);
    assert_eq!(RegistryError::NoMintAuthority.code(), 3);
    assert_eq!(RegistryError::Overflow.code(), 4);
    assert_eq!(RegistryError::NoRegistry.code(), 5);
    assert_eq!(RegistryError::AlreadyRegistered.code(), 6);
}

#[test]
fn registry_errors_convert_to_custom_program_errors() {
    assert_eq!(
        ProgramError::from(RegistryError::InvalidInstruction),
        ProgramError::Custom(0)
    );
    assert_eq!(
        ProgramError::from(RegistryError::Overflow),
        ProgramError::Custom(4)
    );
    assert_eq!(
        ProgramError::from(RegistryError::AlreadyRegistered),
        ProgramError::Custom(6)
    );
}

#[test]
fn error_messages() {
    assert_eq!(RegistryError::InvalidInstruction.message(), "Invalid instruction");
    assert_eq!(RegistryError::Overflow.message(), "Operation overflowed");
    assert_eq!(
        RegistryError::NoMintAuthority.message(),
        "No mint_authority for mint"
    );
}

#[test]
fn register_instruction_builder_lays_out_accounts() {
    let program_id = Pubkey::new_from_array([1u8; 32]);
    let mint_key = Pubkey::new_from_array([2u8; 32]);
    let pay_key = Pubkey::new_from_array([3u8; 32]);
    let ext_key = Pubkey::new_from_array([4u8; 32]);
    let extra = Pubkey::new_from_array([5u8; 32]);

    let ix = register_mint_instruction(
        &program_id,
        &mint_key,
        String::from("SYM"),
        String::from("a name"),
        &pay_key,
        &ext_key,
        &[extra],
    )
    .unwrap();

    assert_eq!(ix.program_id, program_id);
    let mut expect = vec![1u8];
    expect.extend_from_slice(&[2u8; 32]);
    expect.push(3);
    expect.extend_from_slice(b"SYM");
    expect.push(6);
    expect.extend_from_slice(b"a name");
    assert_eq!(ix.data, expect);

    assert_eq!(ix.accounts.len(), 4);
    assert_eq!(ix.accounts[0].pubkey, mint_key);
    assert!(!ix.accounts[0].is_signer);
    assert!(ix.accounts[0].is_writable);
    assert_eq!(ix.accounts[1].pubkey, pay_key);
    assert!(ix.accounts[1].is_signer);
    assert_eq!(ix.accounts[2].pubkey, ext_key);
    assert!(ix.accounts[2].is_signer);
    assert_eq!(ix.accounts[3].pubkey, extra);
    assert!(ix.accounts[3].is_signer);
    assert!(!ix.accounts[3].is_writable);
}

#[test]
fn modify_instruction_builder_encodes_texts() {
    let program_id = Pubkey::new_from_array([1u8; 32]);
    let mint_key = Pubkey::new_from_array([2u8; 32]);
    let pay_key = Pubkey::new_from_array([3u8; 32]);
    let ext_key = Pubkey::new_from_array([4u8; 32]);

    let ix = modify_mint_instruction(
        &program_id,
        &mint_key,
        String::from("CZCOIN"),
        String::from(""),
        &pay_key,
        &ext_key,
        &[],
    )
    .unwrap();

    let mut expect = vec![3u8, 6];
    expect.extend_from_slice(b"CZCOIN");
    expect.push(0);
    assert_eq!(ix.data, expect);
    assert_eq!(ix.accounts.len(), 3);
    assert_eq!(ix.accounts[0].pubkey, mint_key);
}

#[test]
fn close_instruction_builder_orders_accounts() {
    let program_id = Pubkey::new_from_array([1u8; 32]);
    let mint_key = Pubkey::new_from_array([2u8; 32]);
    let pay_key = Pubkey::new_from_array([3u8; 32]);
    let ext_key = Pubkey::new_from_array([4u8; 32]);

    let ix = close_mint_instruction(&program_id, &mint_key, &pay_key, &ext_key, &[]).unwrap();

    assert_eq!(ix.data, vec![2u8]);
    assert_eq!(ix.accounts.len(), 3);
    assert_eq!(ix.accounts[0].pubkey, ext_key);
    assert!(ix.accounts[0].is_signer);
    assert_eq!(ix.accounts[1].pubkey, pay_key);
    assert!(ix.accounts[1].is_signer);
    assert_eq!(ix.accounts[2].pubkey, mint_key);
    assert!(!ix.accounts[2].is_signer);
}

#[test]
fn pubkey_equality_and_bytes() {
    let a = Pubkey::new(&[7u8; 32]);
    let b = Pubkey::new_from_array([7u8; 32]);
    let c = Pubkey::new_from_array([8u8; 32]);
    assert_eq!(a, b);
    assert_ne!(a, c);
    assert_eq!(a.as_bytes(), &[7u8; 32]);
}
