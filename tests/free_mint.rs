use alkane_tokens::call::{AlkaneId, AlkaneTransfer, CallResponse, Context};
use alkane_tokens::error::TokenError;
use alkane_tokens::free_mint::MintableAlkane;
use alkane_tokens::token::MintableToken;

fn me() -> AlkaneId {
    AlkaneId { block: 2, tx: 7 }
}

fn call(inputs: Vec<u128>) -> Context {
    Context {
        myself: me(),
        caller: AlkaneId { block: 0, tx: 0 },
        incoming_alkanes: Vec::new(),
        inputs,
        payload: vec![0xde, 0xad],
    }
}

fn init_call(units: u128, per_mint: u128, cap: u128) -> Context {
    call(vec![0, units, per_mint, cap, 0x434241, 0x5A5958])
}

fn initialized(units: u128, per_mint: u128, cap: u128) -> MintableAlkane {
    let mut token = MintableAlkane::new();
    token.execute(&init_call(units, per_mint, cap)).unwrap();
    token
}

fn query(token: &mut MintableAlkane, opcode: u128) -> CallResponse {
    token.execute(&call(vec![opcode])).unwrap()
}

#[test]
fn init_mints_initial_units_and_stores_slots() {
    let mut token = MintableAlkane::new();
    let resp = token.execute(&init_call(1000, 10, 100)).unwrap();
    assert_eq!(resp.alkanes, vec![AlkaneTransfer { id: me(), value: 1000 }]);
    assert!(resp.data.is_empty());
    assert_eq!(token.token.total_supply(), 1000);
    assert_eq!(token.value_per_mint(), 10);
    assert_eq!(token.cap(), 100);
    assert_eq!(token.minted(), 0);
    assert_eq!(token.token.name(), "ABC");
    assert_eq!(token.token.symbol(), "XYZ");
    assert!(token.token.initialized);
}

#[test]
fn init_twice_fails_with_already_initialized() {
    let mut token = MintableAlkane::new();
    assert!(token.execute(&init_call(1000, 10, 100)).is_ok());
    let second = token.execute(&call(vec![0, 5, 6, 7, 0x44, 0x45]));
    assert_eq!(second.err(), Some(TokenError::AlreadyInitialized));
    assert_eq!(token.token.total_supply(), 1000);
    assert_eq!(token.value_per_mint(), 10);
    assert_eq!(token.cap(), 100);
    assert_eq!(token.token.name(), "ABC");
    let third = token.execute(&call(vec![0]));
    assert_eq!(third.err(), Some(TokenError::AlreadyInitialized));
}

#[test]
fn init_with_missing_operands_fails() {
    let mut token = MintableAlkane::new();
    let r = token.execute(&call(vec![0, 1000, 10, 100, 0x41]));
    assert_eq!(r.err(), Some(TokenError::MissingOperand));
    assert_eq!(token.token.total_supply(), 0);
}

#[test]
fn empty_call_is_missing_operand() {
    let mut token = MintableAlkane::new();
    assert_eq!(token.execute(&call(vec![])).err(), Some(TokenError::MissingOperand));
}

#[test]
fn unknown_opcode_is_rejected() {
    let mut token = initialized(1, 1, 1);
    assert_eq!(token.execute(&call(vec![5])).err(), Some(TokenError::UnrecognizedOpcode));
    assert_eq!(token.execute(&call(vec![105])).err(), Some(TokenError::UnrecognizedOpcode));
}

#[test]
fn mint_adds_value_per_mint_and_counts() {
    let mut token = initialized(1000, 25, 10);
    let resp = token.execute(&call(vec![77])).unwrap();
    assert_eq!(resp.alkanes, vec![AlkaneTransfer { id: me(), value: 25 }]);
    assert_eq!(token.token.total_supply(), 1025);
    assert_eq!(token.minted(), 1);
}

#[test]
fn supply_is_sum_of_minted_amounts() {
    let mut token = initialized(7, 3, 0);
    let mut sum: u128 = 7;
    let mut last = token.token.total_supply();
    for _ in 0..50 {
        let resp = token.execute(&call(vec![77])).unwrap();
        sum += resp.alkanes.last().unwrap().value;
        assert!(token.token.total_supply() >= last);
        last = token.token.total_supply();
    }
    assert_eq!(token.token.total_supply(), sum);
    assert_eq!(sum, 7 + 50 * 3);
}

#[test]
fn mint_past_supply_limit_overflows_and_keeps_supply() {
    let mut token = initialized(u128::MAX - 5, 10, 0);
    let r = token.execute(&call(vec![77]));
    assert_eq!(r.err(), Some(TokenError::ArithmeticOverflow));
    assert_eq!(token.token.total_supply(), u128::MAX - 5);
    assert_eq!(token.minted(), 0);
}

#[test]
fn cap_boundary_fails_on_the_call_after_the_cap() {
    let mut token = initialized(0, 1, 100);
    for i in 0..100u128 {
        assert!(token.execute(&call(vec![77])).is_ok(), "mint {} failed", i + 1);
    }
    assert_eq!(token.minted(), 100);
    let r = token.execute(&call(vec![77]));
    assert_eq!(r.err(), Some(TokenError::CapExceeded));
    assert_eq!(token.minted(), 101);
}

#[test]
fn zero_cap_means_unlimited() {
    let mut token = initialized(0, 1, 0);
    assert_eq!(token.cap(), u128::MAX);
    for _ in 0..1000 {
        assert!(token.execute(&call(vec![77])).is_ok());
    }
    assert_eq!(token.minted(), 1000);
    assert_eq!(token.token.total_supply(), 1000);
}

#[test]
fn set_cap_stores_zero_as_max() {
    let mut token = MintableAlkane::new();
    token.set_cap(0);
    assert_eq!(token.cap(), u128::MAX);
    token.set_cap(42);
    assert_eq!(token.cap(), 42);
}

#[test]
fn setters_and_getters_round_trip() {
    let mut token = MintableAlkane::default();
    token.set_minted(9);
    token.set_value_per_mint(11);
    assert_eq!(token.minted(), 9);
    assert_eq!(token.value_per_mint(), 11);
}

#[test]
fn increment_mint_counts_and_overflows() {
    let mut token = MintableAlkane::new();
    assert_eq!(token.increment_mint(), Ok(()));
    assert_eq!(token.minted(), 1);
    token.set_minted(u128::MAX);
    assert_eq!(token.increment_mint(), Err(TokenError::ArithmeticOverflow));
    assert_eq!(token.minted(), u128::MAX);
}

#[test]
fn queries_return_metadata_and_counters() {
    let mut token = initialized(1000, 25, 300);
    token.execute(&call(vec![77])).unwrap();
    assert_eq!(query(&mut token, 99).data, b"ABC".to_vec());
    assert_eq!(query(&mut token, 100).data, b"XYZ".to_vec());
    assert_eq!(query(&mut token, 101).data, 1025u128.to_le_bytes().to_vec());
    assert_eq!(query(&mut token, 102).data, 300u128.to_le_bytes().to_vec());
    assert_eq!(query(&mut token, 103).data, 1u128.to_le_bytes().to_vec());
    assert_eq!(query(&mut token, 104).data, 25u128.to_le_bytes().to_vec());
    assert_eq!(query(&mut token, 1000).data, vec![0xde, 0xad]);
}

#[test]
fn total_supply_bytes_are_little_endian() {
    let mut token = initialized(0x0102, 1, 1);
    let mut expected = vec![0u8; 16];
    expected[0] = 0x02;
    expected[1] = 0x01;
    assert_eq!(query(&mut token, 101).data, expected);
}

#[test]
fn queries_before_init_read_zero() {
    let mut token = MintableAlkane::new();
    assert_eq!(query(&mut token, 99).data, Vec::<u8>::new());
    assert_eq!(query(&mut token, 101).data, vec![0u8; 16]);
    assert_eq!(query(&mut token, 102).data, vec![0u8; 16]);
}

#[test]
fn incoming_value_is_forwarded() {
    let mut token = initialized(1, 4, 0);
    let gift = AlkaneTransfer { id: AlkaneId { block: 9, tx: 9 }, value: 3 };
    let mut c = call(vec![77]);
    c.incoming_alkanes = vec![gift];
    let resp = token.execute(&c).unwrap();
    assert_eq!(resp.alkanes, vec![gift, AlkaneTransfer { id: me(), value: 4 }]);
    c.inputs = vec![103];
    let resp = token.execute(&c).unwrap();
    assert_eq!(resp.alkanes, vec![gift]);
}

#[test]
fn invalid_utf8_name_fails_init() {
    let mut token = MintableAlkane::new();
    let r = token.execute(&call(vec![0, 1, 1, 1, 0xff, 0x41]));
    assert_eq!(r.err(), Some(TokenError::InvalidUtf8));
    assert_eq!(token.token.total_supply(), 0);
}
