use std::str::FromStr;

use anchor_lang::prelude::Pubkey;
use minter::{
    audit_log, check_request, create_token, find_authority, find_derived_address, find_holding_address,
    verify_authority, Address, CreateToken, Ledger, Programs, TokenError,
};

const PROGRAM_ID: &str = "FqzkXZdwYjurnUKetJCAvaUw5WAqbwzU6gZEwydeEfqS";

fn addr(p: &Pubkey) -> Address {
    Address::new(p.to_bytes())
}

fn key(a: &Address) -> Pubkey {
    Pubkey::new_from_array(a.bytes)
}

fn program_id() -> Pubkey {
    Pubkey::from_str(PROGRAM_ID).unwrap()
}

fn programs() -> Programs {
    Programs {
        program_id: addr(&program_id()),
        token_program: addr(&anchor_spl::token::ID),
        associated_token_program: addr(&anchor_spl::associated_token::ID),
    }
}

fn canonical() -> (Pubkey, u8) {
    Pubkey::find_program_address(&[b"mint_authority"], &program_id())
}

fn request(mint: u8, payer: u8, recipient: u8) -> CreateToken {
    CreateToken {
        mint: Address::new([mint; 32]),
        payer: Address::new([payer; 32]),
        recipient: Address::new([recipient; 32]),
        authority_bump: canonical().1,
    }
}

fn holding_of(req: &CreateToken) -> Pubkey {
    anchor_spl::associated_token::get_associated_token_address(&key(&req.recipient), &key(&req.mint))
}

#[test]
fn zero_amount_is_rejected_before_any_change() {
    let mut ledger = Ledger::new();
    let req = request(1, 2, 3);
    let r = create_token(&mut ledger, &programs(), &req, 6, 0);
    assert_eq!(r, Err(TokenError::InvalidMintAmount));
    assert!(ledger.mint(&req.mint).is_none());
    assert!(ledger.holding(&addr(&holding_of(&req))).is_none());
    let mut bad = req;
    bad.authority_bump = canonical().1.wrapping_add(1);
    assert_eq!(
        create_token(&mut ledger, &programs(), &bad, 9, 0),
        Err(TokenError::InvalidMintAmount)
    );
    assert!(ledger.mint(&req.mint).is_none());
}

#[test]
fn authority_is_the_same_for_every_request() {
    let mut ledger = Ledger::new();
    let a = request(1, 2, 3);
    let b = request(4, 5, 6);
    create_token(&mut ledger, &programs(), &a, 6, 10).unwrap();
    create_token(&mut ledger, &programs(), &b, 0, 99).unwrap();
    let ma = ledger.mint(&a.mint).unwrap();
    let mb = ledger.mint(&b.mint).unwrap();
    let expected = canonical().0;
    assert_eq!(key(&ma.mint_authority), expected);
    assert_eq!(key(&ma.freeze_authority), expected);
    assert_eq!(key(&mb.mint_authority), expected);
    assert_eq!(key(&mb.freeze_authority), expected);
}

#[test]
fn find_authority_matches_the_host_derivation() {
    let (a, b) = find_authority(&addr(&program_id())).unwrap();
    assert_eq!((key(&a), b), canonical());
    let (a2, b2) = find_authority(&addr(&program_id())).unwrap();
    assert_eq!(a2.bytes, a.bytes);
    assert_eq!(b2, b);
    assert_ne!(a.bytes, addr(&program_id()).bytes);
}

#[test]
fn verify_authority_accepts_only_the_canonical_counter() {
    let (expected, bump) = canonical();
    let ok = verify_authority(&addr(&program_id()), bump).unwrap();
    assert_eq!(key(&ok), expected);
    for other in 0..=255u8 {
        if other != bump {
            assert_eq!(
                verify_authority(&addr(&program_id()), other).map(|a| a.bytes),
                Err(TokenError::AuthorityMismatch)
            );
        }
    }
}

#[test]
fn derived_address_matches_the_host_for_several_seeds() {
    let seeds: Vec<Vec<u8>> = vec![b"vault".to_vec(), vec![7, 7, 7]];
    let (a, b) = find_derived_address(&seeds, &addr(&program_id())).unwrap();
    let expected = Pubkey::find_program_address(&[b"vault", &[7, 7, 7]], &program_id());
    assert_eq!((key(&a), b), expected);
}

#[test]
fn holding_address_is_the_associated_token_address() {
    let req = request(1, 2, 3);
    let h = find_holding_address(&programs(), &req.recipient, &req.mint).unwrap();
    assert_eq!(key(&h), holding_of(&req));
}

#[test]
fn creating_the_same_mint_twice_fails() {
    let mut ledger = Ledger::new();
    let first = request(1, 2, 3);
    create_token(&mut ledger, &programs(), &first, 6, 500).unwrap();
    let second = request(1, 7, 8);
    let r = create_token(&mut ledger, &programs(), &second, 9, 42);
    assert_eq!(r, Err(TokenError::AlreadyInitialized));
    let m = ledger.mint(&first.mint).unwrap();
    assert_eq!(m.decimals, 6);
    assert_eq!(m.supply, 500);
    let h = ledger.holding(&addr(&holding_of(&first))).unwrap();
    assert_eq!(h.amount, 500);
    assert!(ledger.holding(&addr(&holding_of(&second))).is_none());
}

#[test]
fn end_to_end_issue() {
    let mut ledger = Ledger::new();
    let req = request(11, 12, 13);
    let lines = create_token(&mut ledger, &programs(), &req, 6, 1_000_000).unwrap();
    let m = ledger.mint(&req.mint).unwrap();
    assert_eq!(m.decimals, 6);
    assert_eq!(m.supply, 1_000_000);
    assert_eq!(key(&m.mint_authority), canonical().0);
    assert_eq!(key(&m.freeze_authority), canonical().0);
    let holding = holding_of(&req);
    let h = ledger.holding(&addr(&holding)).unwrap();
    assert_eq!(h.amount, 1_000_000);
    assert_eq!(key(&h.owner), key(&req.recipient));
    assert_eq!(key(&h.mint), key(&req.mint));
    assert_eq!(
        lines,
        vec![
            "Token created and minted successfully!".to_string(),
            format!("Mint Address: {}", key(&req.mint)),
            format!("Recipient Token Address: {}", holding),
            "Amount Minted: 1000000".to_string(),
        ]
    );
}

#[test]
fn reissuing_to_the_same_recipient_fails() {
    let mut ledger = Ledger::new();
    let req = request(21, 22, 23);
    create_token(&mut ledger, &programs(), &req, 6, 1_000).unwrap();
    let r = create_token(&mut ledger, &programs(), &req, 6, 2_000);
    assert_eq!(r, Err(TokenError::AlreadyInitialized));
    assert_eq!(ledger.mint(&req.mint).unwrap().supply, 1_000);
    assert_eq!(ledger.holding(&addr(&holding_of(&req))).unwrap().amount, 1_000);
}

#[test]
fn wrong_counter_is_an_authority_mismatch() {
    let mut ledger = Ledger::new();
    let bump = canonical().1;
    for (other, amount, recipient) in [(bump.wrapping_sub(1), 1u64, 3u8), (bump.wrapping_add(1), u64::MAX, 4), (0, 77, 5)] {
        let mut req = request(31, 32, recipient);
        req.authority_bump = other;
        let r = create_token(&mut ledger, &programs(), &req, 6, amount);
        assert_eq!(r, Err(TokenError::AuthorityMismatch));
        assert!(ledger.mint(&req.mint).is_none());
        assert!(ledger.holding(&addr(&holding_of(&req))).is_none());
    }
}

#[test]
fn distinct_mints_do_not_interfere() {
    let a = request(41, 42, 43);
    let b = request(44, 45, 46);
    let mut one = Ledger::new();
    let la = create_token(&mut one, &programs(), &a, 2, 5).unwrap();
    let lb = create_token(&mut one, &programs(), &b, 9, 7).unwrap();
    let mut other = Ledger::new();
    let lb2 = create_token(&mut other, &programs(), &b, 9, 7).unwrap();
    let la2 = create_token(&mut other, &programs(), &a, 2, 5).unwrap();
    assert_eq!(la, la2);
    assert_eq!(lb, lb2);
    for ledger in [&one, &other] {
        let ma = ledger.mint(&a.mint).unwrap();
        let mb = ledger.mint(&b.mint).unwrap();
        assert_eq!((ma.decimals, ma.supply), (2, 5));
        assert_eq!((mb.decimals, mb.supply), (9, 7));
        assert_eq!(ledger.holding(&addr(&holding_of(&a))).unwrap().amount, 5);
        assert_eq!(ledger.holding(&addr(&holding_of(&b))).unwrap().amount, 7);
    }
}

#[test]
fn same_recipient_two_mints_gets_two_holdings() {
    let mut ledger = Ledger::new();
    let a = request(51, 52, 53);
    let b = request(54, 52, 53);
    create_token(&mut ledger, &programs(), &a, 0, 1).unwrap();
    create_token(&mut ledger, &programs(), &b, 0, u64::MAX).unwrap();
    assert_eq!(ledger.holding(&addr(&holding_of(&a))).unwrap().amount, 1);
    assert_eq!(ledger.holding(&addr(&holding_of(&b))).unwrap().amount, u64::MAX);
    assert_eq!(ledger.mint(&b.mint).unwrap().supply, u64::MAX);
}

#[test]
fn audit_log_lines() {
    let mint = Address::new([3; 32]);
    let holding = Address::new([0; 32]);
    let lines = audit_log(&mint, &holding, 0);
    assert_eq!(lines[0], "Token created and minted successfully!");
    assert_eq!(lines[1], format!("Mint Address: {}", key(&mint)));
    assert_eq!(lines[2], "Recipient Token Address: 11111111111111111111111111111111");
    assert_eq!(lines[3], "Amount Minted: 0");
    let lines = audit_log(&mint, &holding, u64::MAX);
    assert_eq!(lines[3], "Amount Minted: 18446744073709551615");
    assert_eq!(lines.len(), 4);
}

#[test]
fn mint_to_credits_only_with_the_recorded_authority() {
    let mut ledger = Ledger::new();
    let req = request(61, 62, 63);
    create_token(&mut ledger, &programs(), &req, 6, 100).unwrap();
    let holding = addr(&holding_of(&req));
    let authority = addr(&canonical().0);
    assert_eq!(
        ledger.mint_to(&req.mint, &holding, &req.payer, 5),
        Err(TokenError::IssuanceFailed)
    );
    assert_eq!(ledger.mint(&req.mint).unwrap().supply, 100);
    assert_eq!(ledger.mint_to(&req.mint, &holding, &authority, 5), Ok(()));
    assert_eq!(ledger.mint(&req.mint).unwrap().supply, 105);
    assert_eq!(ledger.holding(&holding).unwrap().amount, 105);
    assert_eq!(
        ledger.mint_to(&req.mint, &holding, &authority, u64::MAX),
        Err(TokenError::IssuanceFailed)
    );
    assert_eq!(ledger.holding(&holding).unwrap().amount, 105);
    assert_eq!(
        ledger.mint_to(&req.mint, &req.recipient, &authority, 1),
        Err(TokenError::IssuanceFailed)
    );
}

#[test]
fn check_request_orders_its_checks() {
    let (expected, bump) = canonical();
    let p = programs();
    assert_eq!(check_request(&p, bump, 0).map(|a| a.bytes), Err(TokenError::InvalidMintAmount));
    assert_eq!(
        check_request(&p, bump.wrapping_add(1), 0).map(|a| a.bytes),
        Err(TokenError::InvalidMintAmount)
    );
    assert_eq!(
        check_request(&p, bump.wrapping_add(1), 3).map(|a| a.bytes),
        Err(TokenError::AuthorityMismatch)
    );
    assert_eq!(key(&check_request(&p, bump, 3).unwrap()), expected);
}
