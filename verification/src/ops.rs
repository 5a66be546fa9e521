use vstd::prelude::*;

use crate::errors::OpError;
use crate::errors::VaultErrors;
use crate::identity::PrincipalId;
use crate::ledger::LedgerView;
use crate::ledger::TokenLedger;
use crate::ledger::balance_of;
use crate::ledger::create_account_next;
use crate::ledger::create_account_result;
use crate::ledger::create_mint_next;
use crate::ledger::has_account;
use crate::ledger::has_mint;
use crate::ledger::ledger_wf;
use crate::ledger::mint_authority;
use crate::ledger::mint_to_next;
use crate::ledger::mint_to_result;

verus! {

/// Decimal precision the vault's issuance mint is created with.
pub const MINT_DECIMALS: u8 = 6;

/// The persistent vault record: the controlling principal and the two
/// sequencing timestamps, in seconds since the epoch. `admin` is set exactly
/// once, at creation; `mint_created_at` holds zero until the mint step
/// completes.
#[derive(Clone, Copy, PartialEq, Eq, Structural, Debug)]
pub struct VaultAdmin {
    pub admin: PrincipalId,
    pub created_at: i64,
    pub mint_created_at: i64,
}

/// The record `initialize` creates for a caller at a clock reading.
pub open spec fn initialize_next(caller: PrincipalId, now: i64) -> VaultAdmin {
    VaultAdmin { admin: caller, created_at: now, mint_created_at: 0 }
}

/// The record after a successful mint step: only `mint_created_at` is
/// stamped, to the clock reading, whatever it held before.
pub open spec fn initialize_mint_rec_next(rec: VaultAdmin, now: i64) -> VaultAdmin {
    VaultAdmin { mint_created_at: now, ..rec }
}

/// The mint step's validation, in its fixed order: clock against
/// `created_at` first, then the caller against the admin.
pub open spec fn initialize_mint_gate(rec: VaultAdmin, caller: PrincipalId, now: i64) -> Result<
    (),
    VaultErrors,
> {
    if now < rec.created_at {
        Err(VaultErrors::VaultNotInitialized)
    } else if caller != rec.admin {
        Err(VaultErrors::NotAdmin)
    } else {
        Ok(())
    }
}

/// The account step's validation, in its fixed order: clock against
/// `created_at`, clock against `mint_created_at`, then the caller against
/// the admin.
pub open spec fn initialize_account_gate(rec: VaultAdmin, caller: PrincipalId, now: i64) -> Result<
    (),
    VaultErrors,
> {
    if now < rec.created_at {
        Err(VaultErrors::VaultNotInitialized)
    } else if now < rec.mint_created_at {
        Err(VaultErrors::MintNotInitialized)
    } else if caller != rec.admin {
        Err(VaultErrors::NotAdmin)
    } else {
        Ok(())
    }
}

/// The issuance step's validation, in its fixed order: the caller against
/// the admin first, then the two clock checks.
pub open spec fn mint_token_gate(rec: VaultAdmin, caller: PrincipalId, now: i64) -> Result<
    (),
    VaultErrors,
> {
    if caller != rec.admin {
        Err(VaultErrors::NotAdmin)
    } else if now < rec.created_at {
        Err(VaultErrors::VaultNotInitialized)
    } else if now < rec.mint_created_at {
        Err(VaultErrors::MintNotInitialized)
    } else {
        Ok(())
    }
}

/// What `initialize_account` reports: its gate's verdict, or the facility's
/// verdict on creating the holding account, passed through unmodified.
pub open spec fn initialize_account_result(
    rec: VaultAdmin,
    l: LedgerView,
    caller: PrincipalId,
    mint: u64,
    now: i64,
) -> Result<(), OpError> {
    match initialize_account_gate(rec, caller, now) {
        Err(e) => Err(OpError::Vault(e)),
        Ok(()) => match create_account_result(l, caller, mint) {
            Err(e) => Err(OpError::Token(e)),
            Ok(()) => Ok(()),
        },
    }
}

/// The ledger that `initialize_account` leaves behind: the holding account
/// is added only when every check passes; otherwise nothing changes.
pub open spec fn initialize_account_next(
    rec: VaultAdmin,
    l: LedgerView,
    caller: PrincipalId,
    mint: u64,
    now: i64,
) -> LedgerView {
    if initialize_account_gate(rec, caller, now) is Ok {
        create_account_next(l, caller, mint)
    } else {
        l
    }
}

/// What `mint_token` reports: its gate's verdict, or the facility's verdict
/// on minting, passed through unmodified. The caller is asserted as the
/// mint's issuance authority.
pub open spec fn mint_token_result(
    rec: VaultAdmin,
    l: LedgerView,
    caller: PrincipalId,
    mint: u64,
    owner: PrincipalId,
    amount: u64,
    now: i64,
) -> Result<(), OpError> {
    match mint_token_gate(rec, caller, now) {
        Err(e) => Err(OpError::Vault(e)),
        Ok(()) => match mint_to_result(l, mint, owner, caller, amount) {
            Err(e) => Err(OpError::Token(e)),
            Ok(()) => Ok(()),
        },
    }
}

/// The ledger that `mint_token` leaves behind: the balance grows only when
/// every check passes; otherwise nothing changes.
pub open spec fn mint_token_next(
    rec: VaultAdmin,
    l: LedgerView,
    caller: PrincipalId,
    mint: u64,
    owner: PrincipalId,
    amount: u64,
    now: i64,
) -> LedgerView {
    if mint_token_gate(rec, caller, now) is Ok {
        mint_to_next(l, mint, owner, caller, amount)
    } else {
        l
    }
}

/// Creates the vault record: the caller becomes the admin, `created_at` is
/// stamped with the clock reading, and the mint step is still outstanding.
/// The host supplies `now` from its clock; allocation of the record's
/// storage is the host's concern and cannot fail here.
pub fn initialize(caller: PrincipalId, now: i64) -> (r: VaultAdmin)
    ensures
        r == initialize_next(caller, now),
        r.admin == caller,
        r.created_at == now,
        r.mint_created_at == 0,
{
    VaultAdmin { admin: caller, created_at: now, mint_created_at: 0 }
}

/// The mint step: after its gate accepts, creates the issuance mint with the
/// caller as authority and stamps `mint_created_at`. Nothing guards a
/// repeated call: the admin may run the step again, which creates a further
/// mint and silently overwrites `mint_created_at`. On a gate failure nothing
/// changes.
pub fn initialize_mint(
    record: &mut VaultAdmin,
    ledger: &mut TokenLedger,
    caller: PrincipalId,
    now: i64,
) -> (r: Result<u64, VaultErrors>)
    requires
        ledger_wf(old(ledger)@),
        old(ledger)@.next_mint_id < u64::MAX,
    ensures
        ledger_wf(final(ledger)@),
        (match initialize_mint_gate(*old(record), caller, now) {
            Err(e) => {
                &&& r == Err::<u64, VaultErrors>(e)
                &&& *final(record) == *old(record)
                &&& final(ledger)@ == old(ledger)@
            },
            Ok(()) => {
                &&& r == Ok::<u64, VaultErrors>(old(ledger)@.next_mint_id)
                &&& *final(record) == initialize_mint_rec_next(*old(record), now)
                &&& final(ledger)@ == create_mint_next(old(ledger)@, caller, MINT_DECIMALS)
                &&& has_mint(final(ledger)@.mints, old(ledger)@.next_mint_id)
                &&& mint_authority(final(ledger)@.mints, old(ledger)@.next_mint_id) == caller
            },
        }),
{
    if now < record.created_at {
        return Err(VaultErrors::VaultNotInitialized);
    }
    if caller != record.admin {
        return Err(VaultErrors::NotAdmin);
    }
    let id = ledger.create_mint(caller, MINT_DECIMALS);
    record.mint_created_at = now;
    Ok(id)
}

/// The account step: after its gate accepts, asks the facility for a holding
/// account bound to the given mint and owned by the caller. A facility
/// rejection (unknown mint, duplicate account) is passed through unmodified.
/// On any failure nothing changes.
pub fn initialize_account(
    record: &VaultAdmin,
    ledger: &mut TokenLedger,
    caller: PrincipalId,
    mint: u64,
    now: i64,
) -> (r: Result<(), OpError>)
    requires
        ledger_wf(old(ledger)@),
    ensures
        ledger_wf(final(ledger)@),
        r == initialize_account_result(*record, old(ledger)@, caller, mint, now),
        final(ledger)@ == initialize_account_next(*record, old(ledger)@, caller, mint, now),
        r is Ok ==> has_account(final(ledger)@.accounts, caller, mint) && balance_of(
            final(ledger)@.accounts,
            caller,
            mint,
        ) == 0,
        final(ledger)@.mints == old(ledger)@.mints,
{
    if now < record.created_at {
        return Err(OpError::Vault(VaultErrors::VaultNotInitialized));
    }
    if now < record.mint_created_at {
        return Err(OpError::Vault(VaultErrors::MintNotInitialized));
    }
    if caller != record.admin {
        return Err(OpError::Vault(VaultErrors::NotAdmin));
    }
    match ledger.create_holding_account(caller, mint) {
        Ok(()) => Ok(()),
        Err(e) => Err(OpError::Token(e)),
    }
}

/// The issuance step: after its gate accepts, mints `amount` units into the
/// holding account bound to `owner` and `mint`, with the caller asserted as
/// the mint's issuance authority. A facility rejection (authority mismatch,
/// unknown account, overflow) is passed through unmodified. `amount` is not
/// bounded here and zero is legal. On any failure nothing changes.
pub fn mint_token(
    record: &VaultAdmin,
    ledger: &mut TokenLedger,
    caller: PrincipalId,
    mint: u64,
    owner: PrincipalId,
    amount: u64,
    now: i64,
) -> (r: Result<(), OpError>)
    requires
        ledger_wf(old(ledger)@),
    ensures
        ledger_wf(final(ledger)@),
        r == mint_token_result(*record, old(ledger)@, caller, mint, owner, amount, now),
        final(ledger)@ == mint_token_next(*record, old(ledger)@, caller, mint, owner, amount, now),
        r is Ok ==> has_account(final(ledger)@.accounts, owner, mint) && balance_of(
            final(ledger)@.accounts,
            owner,
            mint,
        ) == balance_of(old(ledger)@.accounts, owner, mint) + amount,
        final(ledger)@.mints == old(ledger)@.mints,
{
    if caller != record.admin {
        return Err(OpError::Vault(VaultErrors::NotAdmin));
    }
    if now < record.created_at {
        return Err(OpError::Vault(VaultErrors::VaultNotInitialized));
    }
    if now < record.mint_created_at {
        return Err(OpError::Vault(VaultErrors::MintNotInitialized));
    }
    match ledger.mint_to(mint, owner, caller, amount) {
        Ok(()) => Ok(()),
        Err(e) => Err(OpError::Token(e)),
    }
}

/// The deposit operation as it stands: it receives everything needed to move
/// `amount` from the user's holding account into the vault owner's — the
/// authority, the mint and both account bindings — yet performs no
/// validation and no transfer. It succeeds unconditionally and leaves every
/// balance untouched. This is a known functional gap, preserved here
/// deliberately; completing the transfer would be a behaviour change.
pub fn deposit_tokens(
    ledger: &mut TokenLedger,
    caller: PrincipalId,
    mint: u64,
    user: PrincipalId,
    vault_owner: PrincipalId,
    amount: u64,
) -> (r: Result<(), OpError>)
    ensures
        r == Ok::<(), OpError>(()),
        final(ledger)@ == old(ledger)@,
{
    Ok(())
}

} // verus!
