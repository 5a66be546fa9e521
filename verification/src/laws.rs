use vstd::prelude::*;

use crate::errors::OpError;
use crate::errors::VaultErrors;
use crate::identity::PrincipalId;
use crate::ledger::AccountEntry;
use crate::ledger::LedgerView;
use crate::ledger::account_idx;
use crate::ledger::balance_of;
use crate::ledger::create_account_result;
use crate::ledger::create_mint_next;
use crate::ledger::has_account;
use crate::ledger::ledger_wf;
use crate::ledger::lemma_create_account_next_wf;
use crate::ledger::lemma_create_mint_next_wf;
use crate::ledger::lemma_mint_to_next_wf;
use crate::ledger::lemma_no_account_on_unallocated_mint;
use crate::ledger::mint_authority;
use crate::ledger::mint_to_result;
use crate::ops::MINT_DECIMALS;
use crate::ops::VaultAdmin;
use crate::ops::initialize_account_next;
use crate::ops::initialize_account_result;
use crate::ops::initialize_mint_gate;
use crate::ops::initialize_mint_rec_next;
use crate::ops::initialize_next;
use crate::ops::mint_token_gate;
use crate::ops::mint_token_next;
use crate::ops::mint_token_result;

verus! {

/// Law: a caller other than the record's admin is rejected with `NotAdmin`
/// by the issuance step for every amount; by the mint step whenever its
/// prior clock check passes; and by the account step whenever its two prior
/// clock checks pass. (When an earlier check in the fixed order fails, that
/// earlier error is reported instead.)
pub proof fn lemma_non_admin_rejected(
    rec: VaultAdmin,
    l: LedgerView,
    c: PrincipalId,
    mint: u64,
    owner: PrincipalId,
    amount: u64,
    now: i64,
)
    requires
        c != rec.admin,
    ensures
        mint_token_result(rec, l, c, mint, owner, amount, now) == Err::<(), OpError>(
            OpError::Vault(VaultErrors::NotAdmin),
        ),
        now >= rec.created_at ==> initialize_mint_gate(rec, c, now) == Err::<(), VaultErrors>(
            VaultErrors::NotAdmin,
        ),
        now >= rec.created_at && now >= rec.mint_created_at ==> initialize_account_result(
            rec,
            l,
            c,
            mint,
            now,
        ) == Err::<(), OpError>(OpError::Vault(VaultErrors::NotAdmin)),
{
}

/// Law: while `mint_created_at` still holds the unset sentinel (zero), the
/// admin's account and issuance steps are rejected with `MintNotInitialized`
/// — but only at clock readings below the sentinel. At any non-negative
/// reading the sentinel passes the clock check (see
/// `lemma_unset_sentinel_passes_gate`).
pub proof fn lemma_pre_mint_step_rejected(
    rec: VaultAdmin,
    l: LedgerView,
    mint: u64,
    owner: PrincipalId,
    amount: u64,
    now: i64,
)
    requires
        rec.mint_created_at == 0,
        now < 0,
        now >= rec.created_at,
    ensures
        initialize_account_result(rec, l, rec.admin, mint, now) == Err::<(), OpError>(
            OpError::Vault(VaultErrors::MintNotInitialized),
        ),
        mint_token_result(rec, l, rec.admin, mint, owner, amount, now) == Err::<(), OpError>(
            OpError::Vault(VaultErrors::MintNotInitialized),
        ),
{
}

/// Law: the unset sentinel does not actually guard the mint step's
/// completion. At any non-negative clock reading at or past `created_at`,
/// the admin's issuance gate accepts even though `mint_created_at` was never
/// stamped.
pub proof fn lemma_unset_sentinel_passes_gate(rec: VaultAdmin, now: i64)
    requires
        rec.mint_created_at == 0,
        now >= 0,
        now >= rec.created_at,
    ensures
        mint_token_gate(rec, rec.admin, now) is Ok,
{
}

/// Law: the full setup ritual succeeds end to end, and issuance lands
/// exactly. From a fresh record initialized by `a` at `t0` over any
/// well-formed ledger, with a monotone clock: the mint step at `t1` accepts;
/// the account step at `t2` accepts; issuing any `amount` at `t3` accepts;
/// and `a`'s balance on the new mint is then exactly `amount`.
pub proof fn lemma_end_to_end(
    a: PrincipalId,
    l0: LedgerView,
    t0: i64,
    t1: i64,
    t2: i64,
    t3: i64,
    amount: u64,
    rec0: VaultAdmin,
    rec1: VaultAdmin,
    m: u64,
    l1: LedgerView,
    l2: LedgerView,
    l3: LedgerView,
)
    requires
        ledger_wf(l0),
        l0.next_mint_id < u64::MAX,
        t0 <= t1,
        t1 <= t2,
        t2 <= t3,
        rec0 == initialize_next(a, t0),
        rec1 == initialize_mint_rec_next(rec0, t1),
        m == l0.next_mint_id,
        l1 == create_mint_next(l0, a, MINT_DECIMALS),
        l2 == initialize_account_next(rec1, l1, a, m, t2),
        l3 == mint_token_next(rec1, l2, a, m, a, amount, t3),
    ensures
        initialize_mint_gate(rec0, a, t1) is Ok,
        initialize_account_result(rec1, l1, a, m, t2) == Ok::<(), OpError>(()),
        mint_token_result(rec1, l2, a, m, a, amount, t3) == Ok::<(), OpError>(()),
        has_account(l3.accounts, a, m),
        balance_of(l3.accounts, a, m) == amount,
{
    lemma_create_mint_next_wf(l0, a, MINT_DECIMALS);
    lemma_no_account_on_unallocated_mint(l0, a, m);
    assert(!has_account(l1.accounts, a, m));
    assert(create_account_result(l1, a, m) is Ok);
    lemma_create_account_next_wf(l1, a, m);
    assert(has_account(l2.accounts, a, m));
    assert(balance_of(l2.accounts, a, m) == 0);
    assert(l2.mints == l1.mints);
    assert(mint_authority(l2.mints, m) == a);
    assert(mint_to_result(l2, m, a, a, amount) is Ok);
    lemma_mint_to_next_wf(l2, m, a, a, amount);
}

/// Law: issuing zero tokens is legal and is a no-op. Whenever the issuance
/// gate and the facility would accept the request at all, an `amount` of
/// zero is accepted and the ledger afterwards equals the ledger before.
pub proof fn lemma_zero_mint_is_noop(
    rec: VaultAdmin,
    l: LedgerView,
    mint: u64,
    owner: PrincipalId,
    now: i64,
)
    requires
        ledger_wf(l),
        mint_token_gate(rec, rec.admin, now) is Ok,
        mint_to_result(l, mint, owner, rec.admin, 0) is Ok,
    ensures
        mint_token_result(rec, l, rec.admin, mint, owner, 0, now) == Ok::<(), OpError>(()),
        mint_token_next(rec, l, rec.admin, mint, owner, 0, now) == l,
{
    let n = mint_token_next(rec, l, rec.admin, mint, owner, 0, now);
    let t = account_idx(l.accounts, owner, mint);
    assert(l.accounts[t] == (AccountEntry {
        owner,
        mint,
        balance: (balance_of(l.accounts, owner, mint) + 0) as u64,
    }));
    assert(n.accounts =~= l.accounts);
    assert(n =~= l);
}

/// Law: a failing operation has no effect. Whenever the account or issuance
/// step reports any error — its own gate's or the facility's — the ledger it
/// leaves behind is exactly the ledger it found.
pub proof fn lemma_failure_leaves_no_trace(
    rec: VaultAdmin,
    l: LedgerView,
    caller: PrincipalId,
    mint: u64,
    owner: PrincipalId,
    amount: u64,
    now: i64,
)
    ensures
        initialize_account_result(rec, l, caller, mint, now) is Err ==> initialize_account_next(
            rec,
            l,
            caller,
            mint,
            now,
        ) == l,
        mint_token_result(rec, l, caller, mint, owner, amount, now) is Err ==> mint_token_next(
            rec,
            l,
            caller,
            mint,
            owner,
            amount,
            now,
        ) == l,
{
}

/// Law: nothing guards a repeated mint step. When the admin runs it again —
/// the record already stamped from an earlier run — its gate accepts once
/// more, and the record afterwards carries the new clock reading in
/// `mint_created_at`, the earlier stamp silently overwritten.
pub proof fn lemma_repeat_mint_step_overwrites(rec: VaultAdmin, now: i64)
    requires
        rec.mint_created_at != 0,
        now >= rec.created_at,
    ensures
        initialize_mint_gate(rec, rec.admin, now) is Ok,
        initialize_mint_rec_next(rec, now).mint_created_at == now,
        initialize_mint_rec_next(rec, now).admin == rec.admin,
        initialize_mint_rec_next(rec, now).created_at == rec.created_at,
{
}

} // verus!
