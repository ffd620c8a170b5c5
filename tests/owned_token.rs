use alkane_tokens::call::{AlkaneId, AlkaneTransfer, CallResponse, Context};
use alkane_tokens::error::TokenError;
use alkane_tokens::owned_token::{Outcome, OwnedToken};
use alkane_tokens::token::MintableToken;

fn me() -> AlkaneId {
    AlkaneId { block: 2, tx: 8 }
}

fn auth_id() -> AlkaneId {
    AlkaneId { block: 2, tx: 9 }
}

fn call(inputs: Vec<u128>, incoming: Vec<AlkaneTransfer>) -> Context {
    Context {
        myself: me(),
        caller: AlkaneId { block: 0, tx: 0 },
        incoming_alkanes: incoming,
        inputs,
        payload: vec![1, 2, 3],
    }
}

fn reply(r: Result<Outcome, TokenError>) -> CallResponse {
    match r.unwrap() {
        Outcome::Reply(resp) => resp,
        Outcome::DeployAuthToken(_) => panic!("expected a reply"),
    }
}

fn initialized() -> OwnedToken {
    let mut token = OwnedToken::new();
    match token.execute(&call(vec![0, 1, 500, 0x434241, 0x5A5958], vec![])).unwrap() {
        Outcome::DeployAuthToken(pending) => {
            let resp = token.complete_init(pending, AlkaneTransfer { id: auth_id(), value: 1 });
            assert_eq!(
                resp.alkanes,
                vec![
                    AlkaneTransfer { id: auth_id(), value: 1 },
                    AlkaneTransfer { id: me(), value: 500 },
                ]
            );
        }
        Outcome::Reply(_) => panic!("init must ask for the auth token"),
    }
    token
}

#[test]
fn owned_init_asks_for_auth_token() {
    let mut token = OwnedToken::new();
    match token.execute(&call(vec![0, 3, 500, 0x434241, 0x5A5958], vec![])).unwrap() {
        Outcome::DeployAuthToken(pending) => {
            assert_eq!(pending.auth_units, 3);
            assert_eq!(pending.minted, AlkaneTransfer { id: me(), value: 500 });
        }
        Outcome::Reply(_) => panic!("init must ask for the auth token"),
    }
    assert_eq!(token.token.name(), "ABC");
    assert_eq!(token.token.symbol(), "XYZ");
    assert_eq!(token.token.total_supply(), 500);
    assert_eq!(token.auth_token, None);
}

#[test]
fn owned_init_completes_with_auth_transfer() {
    let token = initialized();
    assert_eq!(token.auth_token, Some(auth_id()));
    assert_eq!(token.token.total_supply(), 500);
}

#[test]
fn owned_init_twice_fails() {
    let mut token = initialized();
    let r = token.execute(&call(vec![0, 1, 2, 0x44, 0x45], vec![]));
    assert_eq!(r.err(), Some(TokenError::AlreadyInitialized));
    assert_eq!(token.token.name(), "ABC");
}

#[test]
fn owned_mint_without_auth_is_unauthorized() {
    let mut token = initialized();
    let r = token.execute(&call(vec![77, 40], vec![]));
    assert_eq!(r.err(), Some(TokenError::Unauthorized));
    let other = AlkaneTransfer { id: AlkaneId { block: 2, tx: 10 }, value: 5 };
    let r = token.execute(&call(vec![77, 40], vec![other]));
    assert_eq!(r.err(), Some(TokenError::Unauthorized));
    let empty_auth = AlkaneTransfer { id: auth_id(), value: 0 };
    let r = token.execute(&call(vec![77, 40], vec![empty_auth]));
    assert_eq!(r.err(), Some(TokenError::Unauthorized));
    assert_eq!(token.token.total_supply(), 500);
}

#[test]
fn owned_mint_with_auth_mints_requested_amount() {
    let mut token = initialized();
    let auth = AlkaneTransfer { id: auth_id(), value: 1 };
    let resp = reply(token.execute(&call(vec![77, 40], vec![auth])));
    assert_eq!(resp.alkanes, vec![auth, AlkaneTransfer { id: me(), value: 40 }]);
    assert_eq!(token.token.total_supply(), 540);
    let resp = reply(token.execute(&call(vec![77, 2], vec![auth])));
    assert_eq!(resp.alkanes.last(), Some(&AlkaneTransfer { id: me(), value: 2 }));
    assert_eq!(token.token.total_supply(), 542);
}

#[test]
fn owned_mint_before_init_is_unauthorized() {
    let mut token = OwnedToken::new();
    let auth = AlkaneTransfer { id: auth_id(), value: 1 };
    let r = token.execute(&call(vec![77, 40], vec![auth]));
    assert_eq!(r.err(), Some(TokenError::Unauthorized));
}

#[test]
fn owned_mint_needs_amount_operand() {
    let mut token = initialized();
    let auth = AlkaneTransfer { id: auth_id(), value: 1 };
    let r = token.execute(&call(vec![77], vec![auth]));
    assert_eq!(r.err(), Some(TokenError::MissingOperand));
}

#[test]
fn owned_mint_overflow_keeps_supply() {
    let mut token = initialized();
    let auth = AlkaneTransfer { id: auth_id(), value: 1 };
    reply(token.execute(&call(vec![77, u128::MAX - 500], vec![auth])));
    let r = token.execute(&call(vec![77, 1], vec![auth]));
    assert_eq!(r.err(), Some(TokenError::ArithmeticOverflow));
    assert_eq!(token.token.total_supply(), u128::MAX);
}

#[test]
fn owned_queries() {
    let mut token = initialized();
    assert_eq!(reply(token.execute(&call(vec![99], vec![]))).data, b"ABC".to_vec());
    assert_eq!(reply(token.execute(&call(vec![100], vec![]))).data, b"XYZ".to_vec());
    assert_eq!(reply(token.execute(&call(vec![101], vec![]))).data, 500u128.to_le_bytes().to_vec());
    assert_eq!(reply(token.execute(&call(vec![1000], vec![]))).data, vec![1, 2, 3]);
    let r = token.execute(&call(vec![102], vec![]));
    assert_eq!(r.err(), Some(TokenError::UnrecognizedOpcode));
}
