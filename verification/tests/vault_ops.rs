use vault::OpError;
use vault::PrincipalId;
use vault::TokenError;
use vault::TokenLedger;
use vault::VaultErrors;
use vault::deposit_tokens;
use vault::initialize;
use vault::initialize_account;
use vault::initialize_mint;
use vault::mint_token;

fn principal(n: u64) -> PrincipalId {
    PrincipalId::new(n, 0, 0, 0)
}

#[test]
fn initialize_sets_admin_and_timestamps() {
    let a = principal(1);
    let rec = initialize(a, 1_700_000_000);
    assert_eq!(rec.admin, a);
    assert_eq!(rec.created_at, 1_700_000_000);
    assert_eq!(rec.mint_created_at, 0);
}

#[test]
fn non_admin_initialize_mint_rejected() {
    let a = principal(1);
    let c = principal(2);
    let mut rec = initialize(a, 100);
    let mut ledger = TokenLedger::new();
    let r = initialize_mint(&mut rec, &mut ledger, c, 101);
    assert_eq!(r, Err(VaultErrors::NotAdmin));
    assert_eq!(rec.mint_created_at, 0);
}

#[test]
fn non_admin_initialize_account_rejected() {
    let a = principal(1);
    let c = principal(2);
    let mut rec = initialize(a, 100);
    let mut ledger = TokenLedger::new();
    let m = initialize_mint(&mut rec, &mut ledger, a, 101).unwrap();
    let r = initialize_account(&rec, &mut ledger, c, m, 102);
    assert_eq!(r, Err(OpError::Vault(VaultErrors::NotAdmin)));
}

#[test]
fn non_admin_mint_token_rejected_for_zero_and_max_amount() {
    let a = principal(1);
    let c = principal(2);
    let mut rec = initialize(a, 100);
    let mut ledger = TokenLedger::new();
    let m = initialize_mint(&mut rec, &mut ledger, a, 101).unwrap();
    initialize_account(&rec, &mut ledger, a, m, 102).unwrap();
    let r0 = mint_token(&rec, &mut ledger, c, m, a, 0, 103);
    assert_eq!(r0, Err(OpError::Vault(VaultErrors::NotAdmin)));
    let rmax = mint_token(&rec, &mut ledger, c, m, a, u64::MAX, 103);
    assert_eq!(rmax, Err(OpError::Vault(VaultErrors::NotAdmin)));
    assert_eq!(ledger.balance(a, m), Some(0));
}

#[test]
fn pre_mint_step_rejected_at_negative_clock() {
    // Before the mint step, mint_created_at holds the zero sentinel; the
    // mint-time check only fails while the clock reads below it.
    let a = principal(1);
    let rec = initialize(a, -100);
    let mut ledger = TokenLedger::new();
    let m = ledger.create_mint(a, 6);
    let r1 = initialize_account(&rec, &mut ledger, a, m, -5);
    assert_eq!(r1, Err(OpError::Vault(VaultErrors::MintNotInitialized)));
    let r2 = mint_token(&rec, &mut ledger, a, m, a, 10, -5);
    assert_eq!(r2, Err(OpError::Vault(VaultErrors::MintNotInitialized)));
}

#[test]
fn unset_sentinel_passes_gate_at_nonnegative_clock() {
    // The sentinel does not actually guard the mint step's completion: at a
    // non-negative clock reading the admin's account step goes through even
    // though initialize_mint never ran (the mint here was created by a third
    // party directly at the facility).
    let a = principal(1);
    let rec = initialize(a, 100);
    let mut ledger = TokenLedger::new();
    let m = ledger.create_mint(a, 6);
    assert_eq!(rec.mint_created_at, 0);
    let r = initialize_account(&rec, &mut ledger, a, m, 101);
    assert_eq!(r, Ok(()));
}

#[test]
fn end_to_end_issuance_lands_exactly() {
    let a = principal(1);
    let mut rec = initialize(a, 100);
    let mut ledger = TokenLedger::new();
    let m = initialize_mint(&mut rec, &mut ledger, a, 101).unwrap();
    assert_eq!(rec.mint_created_at, 101);
    assert!(ledger.mint_exists(m));
    assert_eq!(initialize_account(&rec, &mut ledger, a, m, 102), Ok(()));
    assert_eq!(ledger.balance(a, m), Some(0));
    assert_eq!(mint_token(&rec, &mut ledger, a, m, a, 1000, 103), Ok(()));
    assert_eq!(ledger.balance(a, m), Some(1000));
}

#[test]
fn zero_amount_mint_is_legal_and_leaves_balance_unchanged() {
    let a = principal(1);
    let mut rec = initialize(a, 100);
    let mut ledger = TokenLedger::new();
    let m = initialize_mint(&mut rec, &mut ledger, a, 101).unwrap();
    initialize_account(&rec, &mut ledger, a, m, 102).unwrap();
    mint_token(&rec, &mut ledger, a, m, a, 500, 103).unwrap();
    let r = mint_token(&rec, &mut ledger, a, m, a, 0, 104);
    assert_eq!(r, Ok(()));
    assert_eq!(ledger.balance(a, m), Some(500));
}

#[test]
fn deposit_always_succeeds_and_never_moves_tokens() {
    // Current, deliberate gap: the deposit operation is wired with all the
    // accounts a transfer would need and still performs none.
    let a = principal(1);
    let u = principal(2);
    let mut rec = initialize(a, 100);
    let mut ledger = TokenLedger::new();
    let m = initialize_mint(&mut rec, &mut ledger, a, 101).unwrap();
    initialize_account(&rec, &mut ledger, a, m, 102).unwrap();
    initialize_account(&rec, &mut ledger, u, m, 102).unwrap_err();
    mint_token(&rec, &mut ledger, a, m, a, 250, 103).unwrap();
    for amount in [0u64, 1u64, u64::MAX] {
        let r = deposit_tokens(&mut ledger, u, m, u, a, amount);
        assert_eq!(r, Ok(()));
        assert_eq!(ledger.balance(a, m), Some(250));
        assert_eq!(ledger.balance(u, m), None);
    }
}

#[test]
fn facility_transfer_moves_tokens_where_deposit_does_not() {
    // The facility itself can move tokens between holding accounts; the
    // deposit operation simply never asks it to.
    let a = principal(1);
    let u = principal(2);
    let mut rec = initialize(a, 100);
    let mut ledger = TokenLedger::new();
    let m = initialize_mint(&mut rec, &mut ledger, a, 101).unwrap();
    initialize_account(&rec, &mut ledger, a, m, 102).unwrap();
    ledger.create_holding_account(u, m).unwrap();
    mint_token(&rec, &mut ledger, a, m, u, 400, 103).unwrap();
    assert_eq!(deposit_tokens(&mut ledger, u, m, u, a, 150), Ok(()));
    assert_eq!(ledger.balance(u, m), Some(400));
    assert_eq!(ledger.balance(a, m), Some(0));
    assert_eq!(ledger.transfer(m, u, a, u, 150), Ok(()));
    assert_eq!(ledger.balance(u, m), Some(250));
    assert_eq!(ledger.balance(a, m), Some(150));
}

#[test]
fn facility_transfer_rejects_wrong_authority_and_short_funds() {
    let a = principal(1);
    let u = principal(2);
    let mut rec = initialize(a, 100);
    let mut ledger = TokenLedger::new();
    let m = initialize_mint(&mut rec, &mut ledger, a, 101).unwrap();
    initialize_account(&rec, &mut ledger, a, m, 102).unwrap();
    ledger.create_holding_account(u, m).unwrap();
    mint_token(&rec, &mut ledger, a, m, u, 10, 103).unwrap();
    assert_eq!(ledger.transfer(m, u, a, a, 5), Err(TokenError::AuthorityMismatch));
    assert_eq!(ledger.transfer(m, u, a, u, 11), Err(TokenError::InsufficientFunds));
    assert_eq!(ledger.balance(u, m), Some(10));
    assert_eq!(ledger.balance(a, m), Some(0));
}

#[test]
fn repeat_mint_step_succeeds_and_overwrites_timestamp() {
    // No guard blocks a second mint step by the admin: it succeeds again,
    // silently overwrites mint_created_at, and creates a further mint.
    let a = principal(1);
    let mut rec = initialize(a, 100);
    let mut ledger = TokenLedger::new();
    let m1 = initialize_mint(&mut rec, &mut ledger, a, 101).unwrap();
    assert_eq!(rec.mint_created_at, 101);
    let m2 = initialize_mint(&mut rec, &mut ledger, a, 200).unwrap();
    assert_eq!(rec.mint_created_at, 200);
    assert_ne!(m1, m2);
    assert!(ledger.mint_exists(m1));
    assert!(ledger.mint_exists(m2));
}

#[test]
fn initialize_mint_clock_behind_creation_rejected() {
    // Defensive check: with a monotone clock stamping created_at, a later
    // reading can never be behind it, so this failure needs a clock that
    // stepped backwards.
    let a = principal(1);
    let mut rec = initialize(a, 100);
    let mut ledger = TokenLedger::new();
    let r = initialize_mint(&mut rec, &mut ledger, a, 50);
    assert_eq!(r, Err(VaultErrors::VaultNotInitialized));
    assert_eq!(rec.mint_created_at, 0);
}

#[test]
fn initialize_account_clock_behind_creation_rejected() {
    let a = principal(1);
    let rec = initialize(a, 100);
    let mut ledger = TokenLedger::new();
    let r = initialize_account(&rec, &mut ledger, a, 0, 50);
    assert_eq!(r, Err(OpError::Vault(VaultErrors::VaultNotInitialized)));
}

#[test]
fn initialize_mint_time_check_precedes_admin_check() {
    let a = principal(1);
    let c = principal(2);
    let mut rec = initialize(a, 100);
    let mut ledger = TokenLedger::new();
    let r = initialize_mint(&mut rec, &mut ledger, c, 50);
    assert_eq!(r, Err(VaultErrors::VaultNotInitialized));
}

#[test]
fn mint_token_admin_check_precedes_time_checks() {
    let a = principal(1);
    let c = principal(2);
    let rec = initialize(a, 100);
    let mut ledger = TokenLedger::new();
    let r = mint_token(&rec, &mut ledger, c, 0, a, 1, 50);
    assert_eq!(r, Err(OpError::Vault(VaultErrors::NotAdmin)));
}

#[test]
fn initialize_account_unknown_mint_passed_through() {
    let a = principal(1);
    let mut rec = initialize(a, 100);
    let mut ledger = TokenLedger::new();
    let m = initialize_mint(&mut rec, &mut ledger, a, 101).unwrap();
    let r = initialize_account(&rec, &mut ledger, a, m + 1, 102);
    assert_eq!(r, Err(OpError::Token(TokenError::UnknownMint)));
}

#[test]
fn duplicate_holding_account_passed_through() {
    let a = principal(1);
    let mut rec = initialize(a, 100);
    let mut ledger = TokenLedger::new();
    let m = initialize_mint(&mut rec, &mut ledger, a, 101).unwrap();
    assert_eq!(initialize_account(&rec, &mut ledger, a, m, 102), Ok(()));
    let r = initialize_account(&rec, &mut ledger, a, m, 103);
    assert_eq!(r, Err(OpError::Token(TokenError::AccountExists)));
    assert_eq!(ledger.balance(a, m), Some(0));
}

#[test]
fn mint_token_unknown_mint_passed_through() {
    let a = principal(1);
    let mut rec = initialize(a, 100);
    let mut ledger = TokenLedger::new();
    let m = initialize_mint(&mut rec, &mut ledger, a, 101).unwrap();
    initialize_account(&rec, &mut ledger, a, m, 102).unwrap();
    let r = mint_token(&rec, &mut ledger, a, m + 1, a, 5, 103);
    assert_eq!(r, Err(OpError::Token(TokenError::UnknownMint)));
}

#[test]
fn mint_token_unknown_account_passed_through() {
    let a = principal(1);
    let mut rec = initialize(a, 100);
    let mut ledger = TokenLedger::new();
    let m = initialize_mint(&mut rec, &mut ledger, a, 101).unwrap();
    let r = mint_token(&rec, &mut ledger, a, m, a, 5, 103);
    assert_eq!(r, Err(OpError::Token(TokenError::UnknownAccount)));
}

#[test]
fn mint_token_authority_mismatch_passed_through() {
    // A mint created directly at the facility by a third party: the vault's
    // admin passes every gate but is not that mint's issuance authority.
    let a = principal(1);
    let x = principal(9);
    let mut rec = initialize(a, 100);
    let mut ledger = TokenLedger::new();
    initialize_mint(&mut rec, &mut ledger, a, 101).unwrap();
    let foreign = ledger.create_mint(x, 6);
    let r = mint_token(&rec, &mut ledger, a, foreign, a, 5, 103);
    assert_eq!(r, Err(OpError::Token(TokenError::AuthorityMismatch)));
}

#[test]
fn mint_token_balance_overflow_passed_through() {
    let a = principal(1);
    let mut rec = initialize(a, 100);
    let mut ledger = TokenLedger::new();
    let m = initialize_mint(&mut rec, &mut ledger, a, 101).unwrap();
    initialize_account(&rec, &mut ledger, a, m, 102).unwrap();
    mint_token(&rec, &mut ledger, a, m, a, 2, 103).unwrap();
    let r = mint_token(&rec, &mut ledger, a, m, a, u64::MAX, 104);
    assert_eq!(r, Err(OpError::Token(TokenError::BalanceOverflow)));
    assert_eq!(ledger.balance(a, m), Some(2));
}
