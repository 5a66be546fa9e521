use vstd::prelude::*;

use crate::errors::TokenError;
use crate::identity::PrincipalId;

verus! {

/// One fungible-token mint held by the facility: an issuance authority and a
/// decimal precision, addressed by a numeric id.
#[derive(Clone, Copy, PartialEq, Eq, Structural, Debug)]
pub struct MintEntry {
    pub id: u64,
    pub authority: PrincipalId,
    pub decimals: u8,
}

/// One holding account: bound to one mint and one owning principal, tracking
/// a balance.
#[derive(Clone, Copy, PartialEq, Eq, Structural, Debug)]
pub struct AccountEntry {
    pub owner: PrincipalId,
    pub mint: u64,
    pub balance: u64,
}

/// The mathematical model of a `TokenLedger`: the mints and holding accounts
/// it holds, and the id the next mint will receive.
#[verifier::ext_equal]
pub struct LedgerView {
    pub mints: Seq<MintEntry>,
    pub accounts: Seq<AccountEntry>,
    pub next_mint_id: u64,
}

/// In-memory model of the external fungible-token facility: it creates
/// mints, creates holding accounts, and mints tokens into them. The vault's
/// controllers consume these operations; they never reach inside.
pub struct TokenLedger {
    mints: Vec<MintEntry>,
    accounts: Vec<AccountEntry>,
    next_mint_id: u64,
}

impl View for TokenLedger {
    type V = LedgerView;

    closed spec fn view(&self) -> LedgerView {
        LedgerView { mints: self.mints@, accounts: self.accounts@, next_mint_id: self.next_mint_id }
    }
}

/// Whether a mint with the given id exists.
pub open spec fn has_mint(mints: Seq<MintEntry>, id: u64) -> bool {
    exists|i: int| 0 <= i < mints.len() && (#[trigger] mints[i]).id == id
}

/// The index of the mint with the given id (meaningful when `has_mint`).
pub open spec fn mint_idx(mints: Seq<MintEntry>, id: u64) -> int {
    choose|i: int| 0 <= i < mints.len() && (#[trigger] mints[i]).id == id
}

/// The issuance authority of the mint with the given id.
pub open spec fn mint_authority(mints: Seq<MintEntry>, id: u64) -> PrincipalId {
    mints[mint_idx(mints, id)].authority
}

/// Whether a holding account bound to the given owner and mint exists.
pub open spec fn has_account(accounts: Seq<AccountEntry>, owner: PrincipalId, mint: u64) -> bool {
    exists|i: int|
        0 <= i < accounts.len() && (#[trigger] accounts[i]).owner == owner && accounts[i].mint
            == mint
}

/// The index of the holding account bound to the given owner and mint
/// (meaningful when `has_account`).
pub open spec fn account_idx(accounts: Seq<AccountEntry>, owner: PrincipalId, mint: u64) -> int {
    choose|i: int|
        0 <= i < accounts.len() && (#[trigger] accounts[i]).owner == owner && accounts[i].mint
            == mint
}

/// The balance of the holding account bound to the given owner and mint.
pub open spec fn balance_of(accounts: Seq<AccountEntry>, owner: PrincipalId, mint: u64) -> u64 {
    accounts[account_idx(accounts, owner, mint)].balance
}

/// Well-formedness of a ledger: mint ids are unique and below the allocation
/// counter, holding accounts are unique per (owner, mint) pair, and every
/// holding account is bound to an existing mint.
pub open spec fn ledger_wf(l: LedgerView) -> bool {
    &&& forall|i: int, j: int|
        0 <= i < j < l.mints.len() ==> (#[trigger] l.mints[i]).id != (#[trigger] l.mints[j]).id
    &&& forall|i: int| 0 <= i < l.mints.len() ==> (#[trigger] l.mints[i]).id < l.next_mint_id
    &&& forall|i: int, j: int|
        0 <= i < j < l.accounts.len() ==> !((#[trigger] l.accounts[i]).owner == (
        #[trigger] l.accounts[j]).owner && l.accounts[i].mint == l.accounts[j].mint)
    &&& forall|i: int|
        0 <= i < l.accounts.len() ==> has_mint(l.mints, (#[trigger] l.accounts[i]).mint)
}

/// The ledger after a mint is created: one more mint, with the id the
/// counter held, and the counter advanced.
pub open spec fn create_mint_next(l: LedgerView, authority: PrincipalId, decimals: u8) -> LedgerView {
    LedgerView {
        mints: l.mints.push(MintEntry { id: l.next_mint_id, authority, decimals }),
        next_mint_id: (l.next_mint_id + 1) as u64,
        ..l
    }
}

/// What creating a holding account reports: the mint must exist and the
/// (owner, mint) pair must not already have an account.
pub open spec fn create_account_result(l: LedgerView, owner: PrincipalId, mint: u64) -> Result<
    (),
    TokenError,
> {
    if !has_mint(l.mints, mint) {
        Err(TokenError::UnknownMint)
    } else if has_account(l.accounts, owner, mint) {
        Err(TokenError::AccountExists)
    } else {
        Ok(())
    }
}

/// The ledger after a holding account is created: unchanged on failure, one
/// more account with balance zero on success.
pub open spec fn create_account_next(l: LedgerView, owner: PrincipalId, mint: u64) -> LedgerView {
    if create_account_result(l, owner, mint) is Ok {
        LedgerView { accounts: l.accounts.push(AccountEntry { owner, mint, balance: 0 }), ..l }
    } else {
        l
    }
}

/// What minting reports: the mint must exist, the asserted authority must be
/// its issuance authority, the target account must exist, and the new balance
/// must be representable.
pub open spec fn mint_to_result(
    l: LedgerView,
    mint: u64,
    owner: PrincipalId,
    authority: PrincipalId,
    amount: u64,
) -> Result<(), TokenError> {
    if !has_mint(l.mints, mint) {
        Err(TokenError::UnknownMint)
    } else if mint_authority(l.mints, mint) != authority {
        Err(TokenError::AuthorityMismatch)
    } else if !has_account(l.accounts, owner, mint) {
        Err(TokenError::UnknownAccount)
    } else if balance_of(l.accounts, owner, mint) + amount > u64::MAX {
        Err(TokenError::BalanceOverflow)
    } else {
        Ok(())
    }
}

/// The ledger after minting: unchanged on failure; on success exactly the
/// target account's balance grows by `amount`.
pub open spec fn mint_to_next(
    l: LedgerView,
    mint: u64,
    owner: PrincipalId,
    authority: PrincipalId,
    amount: u64,
) -> LedgerView {
    if mint_to_result(l, mint, owner, authority, amount) is Ok {
        LedgerView {
            accounts: l.accounts.update(
                account_idx(l.accounts, owner, mint),
                AccountEntry {
                    owner,
                    mint,
                    balance: (balance_of(l.accounts, owner, mint) + amount) as u64,
                },
            ),
            ..l
        }
    } else {
        l
    }
}

/// What a transfer reports: the mint and both holding accounts must exist,
/// the authority must be the owner of the source account, the source balance
/// must cover the amount, and the target balance must stay representable.
pub open spec fn transfer_result(
    l: LedgerView,
    mint: u64,
    from: PrincipalId,
    to: PrincipalId,
    authority: PrincipalId,
    amount: u64,
) -> Result<(), TokenError> {
    if !has_mint(l.mints, mint) {
        Err(TokenError::UnknownMint)
    } else if !has_account(l.accounts, from, mint) {
        Err(TokenError::UnknownAccount)
    } else if !has_account(l.accounts, to, mint) {
        Err(TokenError::UnknownAccount)
    } else if authority != from {
        Err(TokenError::AuthorityMismatch)
    } else if balance_of(l.accounts, from, mint) < amount {
        Err(TokenError::InsufficientFunds)
    } else if from != to && balance_of(l.accounts, to, mint) + amount > u64::MAX {
        Err(TokenError::BalanceOverflow)
    } else {
        Ok(())
    }
}

/// The ledger after a transfer: unchanged on failure and on a self-transfer;
/// otherwise the amount moves from the source account to the target account.
pub open spec fn transfer_next(
    l: LedgerView,
    mint: u64,
    from: PrincipalId,
    to: PrincipalId,
    authority: PrincipalId,
    amount: u64,
) -> LedgerView {
    if transfer_result(l, mint, from, to, authority, amount) is Ok && from != to {
        LedgerView {
            accounts: l.accounts.update(
                account_idx(l.accounts, from, mint),
                AccountEntry {
                    owner: from,
                    mint,
                    balance: (balance_of(l.accounts, from, mint) - amount) as u64,
                },
            ).update(
                account_idx(l.accounts, to, mint),
                AccountEntry {
                    owner: to,
                    mint,
                    balance: (balance_of(l.accounts, to, mint) + amount) as u64,
                },
            ),
            ..l
        }
    } else {
        l
    }
}

/// Under unique mint ids, any index holding the id is the chosen one.
pub proof fn lemma_mint_idx_is(mints: Seq<MintEntry>, id: u64, i: int)
    requires
        forall|p: int, q: int|
            0 <= p < q < mints.len() ==> (#[trigger] mints[p]).id != (#[trigger] mints[q]).id,
        0 <= i < mints.len(),
        mints[i].id == id,
    ensures
        has_mint(mints, id),
        mint_idx(mints, id) == i,
{
    assert(has_mint(mints, id));
    let k = mint_idx(mints, id);
    if k < i {
        assert(mints[k].id != mints[i].id);
    } else if i < k {
        assert(mints[i].id != mints[k].id);
    }
}

/// Under unique (owner, mint) pairs, any index holding the pair is the
/// chosen one.
pub proof fn lemma_account_idx_is(accounts: Seq<AccountEntry>, owner: PrincipalId, mint: u64, i: int)
    requires
        forall|p: int, q: int|
            0 <= p < q < accounts.len() ==> !((#[trigger] accounts[p]).owner == (
            #[trigger] accounts[q]).owner && accounts[p].mint == accounts[q].mint),
        0 <= i < accounts.len(),
        accounts[i].owner == owner,
        accounts[i].mint == mint,
    ensures
        has_account(accounts, owner, mint),
        account_idx(accounts, owner, mint) == i,
        balance_of(accounts, owner, mint) == accounts[i].balance,
{
    assert(has_account(accounts, owner, mint));
    let k = account_idx(accounts, owner, mint);
    if k < i {
        assert(!(accounts[k].owner == accounts[i].owner && accounts[k].mint == accounts[i].mint));
    } else if i < k {
        assert(!(accounts[i].owner == accounts[k].owner && accounts[i].mint == accounts[k].mint));
    }
}

/// A well-formed ledger has no holding account bound to a mint id the
/// allocation counter has not yet reached.
pub proof fn lemma_no_account_on_unallocated_mint(l: LedgerView, owner: PrincipalId, mint: u64)
    requires
        ledger_wf(l),
        mint >= l.next_mint_id,
    ensures
        !has_mint(l.mints, mint),
        !has_account(l.accounts, owner, mint),
{
    if has_mint(l.mints, mint) {
        let j = choose|i: int| 0 <= i < l.mints.len() && (#[trigger] l.mints[i]).id == mint;
        assert(l.mints[j].id < l.next_mint_id);
    }
    if has_account(l.accounts, owner, mint) {
        let k = choose|i: int|
            0 <= i < l.accounts.len() && (#[trigger] l.accounts[i]).owner == owner
                && l.accounts[i].mint == mint;
        assert(has_mint(l.mints, l.accounts[k].mint));
    }
}

/// Creating a mint preserves well-formedness; the new mint carries the id
/// the counter held and the given authority, and the accounts are untouched.
pub proof fn lemma_create_mint_next_wf(l: LedgerView, authority: PrincipalId, decimals: u8)
    requires
        ledger_wf(l),
        l.next_mint_id < u64::MAX,
    ensures
        ledger_wf(create_mint_next(l, authority, decimals)),
        !has_mint(l.mints, l.next_mint_id),
        has_mint(create_mint_next(l, authority, decimals).mints, l.next_mint_id),
        mint_authority(create_mint_next(l, authority, decimals).mints, l.next_mint_id)
            == authority,
{
    let n = create_mint_next(l, authority, decimals);
    let len = l.mints.len() as int;
    assert(n.mints[len].id == l.next_mint_id);
    assert(forall|i: int| 0 <= i < len ==> (#[trigger] n.mints[i]) == l.mints[i]);
    if has_mint(l.mints, l.next_mint_id) {
        let j = choose|i: int|
            0 <= i < l.mints.len() && (#[trigger] l.mints[i]).id == l.next_mint_id;
        assert(l.mints[j].id < l.next_mint_id);
    }
    assert forall|i: int|
        0 <= i < n.accounts.len() implies has_mint(n.mints, (#[trigger] n.accounts[i]).mint) by {
        assert(has_mint(l.mints, l.accounts[i].mint));
        let j = choose|k: int|
            0 <= k < l.mints.len() && (#[trigger] l.mints[k]).id == l.accounts[i].mint;
        assert(n.mints[j].id == l.accounts[i].mint);
    }
    lemma_mint_idx_is(n.mints, l.next_mint_id, len);
}

/// Creating a holding account preserves well-formedness; on success the new
/// account exists with balance zero and the mints are untouched.
pub proof fn lemma_create_account_next_wf(l: LedgerView, owner: PrincipalId, mint: u64)
    requires
        ledger_wf(l),
    ensures
        ledger_wf(create_account_next(l, owner, mint)),
        create_account_result(l, owner, mint) is Ok ==> {
            let n = create_account_next(l, owner, mint);
            &&& has_account(n.accounts, owner, mint)
            &&& balance_of(n.accounts, owner, mint) == 0
            &&& n.mints == l.mints
        },
{
    if create_account_result(l, owner, mint) is Ok {
        let n = create_account_next(l, owner, mint);
        let len = l.accounts.len() as int;
        assert(forall|i: int| 0 <= i < len ==> (#[trigger] n.accounts[i]) == l.accounts[i]);
        assert(n.accounts[len] == (AccountEntry { owner, mint, balance: 0 }));
        assert forall|i: int, j: int|
            0 <= i < j < n.accounts.len() implies !((#[trigger] n.accounts[i]).owner == (
        #[trigger] n.accounts[j]).owner && n.accounts[i].mint == n.accounts[j].mint) by {
            if j == len {
                if n.accounts[i].owner == owner && n.accounts[i].mint == mint {
                    assert(has_account(l.accounts, owner, mint));
                }
            }
        }
        lemma_account_idx_is(n.accounts, owner, mint, len);
    }
}

/// Minting preserves well-formedness; on success the target account's
/// balance grows by exactly `amount`, every other account keeps its balance,
/// and the mints are untouched.
pub proof fn lemma_mint_to_next_wf(
    l: LedgerView,
    mint: u64,
    owner: PrincipalId,
    authority: PrincipalId,
    amount: u64,
)
    requires
        ledger_wf(l),
    ensures
        ledger_wf(mint_to_next(l, mint, owner, authority, amount)),
        mint_to_result(l, mint, owner, authority, amount) is Ok ==> {
            let n = mint_to_next(l, mint, owner, authority, amount);
            &&& has_account(n.accounts, owner, mint)
            &&& balance_of(n.accounts, owner, mint) == balance_of(l.accounts, owner, mint)
                + amount
            &&& forall|o: PrincipalId, m: u64|
                has_account(n.accounts, o, m) == has_account(l.accounts, o, m)
            &&& forall|o: PrincipalId, m: u64|
                has_account(l.accounts, o, m) && !(o == owner && m == mint) ==> balance_of(
                    n.accounts,
                    o,
                    m,
                ) == balance_of(l.accounts, o, m)
            &&& n.mints == l.mints
        },
{
    if mint_to_result(l, mint, owner, authority, amount) is Ok {
        let n = mint_to_next(l, mint, owner, authority, amount);
        let t = account_idx(l.accounts, owner, mint);
        assert(0 <= t < l.accounts.len() && l.accounts[t].owner == owner && l.accounts[t].mint
            == mint);
        assert(forall|i: int|
            0 <= i < n.accounts.len() && i != t ==> (#[trigger] n.accounts[i]) == l.accounts[i]);
        assert(n.accounts[t].owner == owner && n.accounts[t].mint == mint);
        assert forall|i: int|
            0 <= i < n.accounts.len() implies has_mint(n.mints, (
        #[trigger] n.accounts[i]).mint) by {
            assert(has_mint(l.mints, l.accounts[i].mint));
        }
        lemma_account_idx_is(n.accounts, owner, mint, t);
        assert forall|o: PrincipalId, m: u64| #[trigger]
            has_account(n.accounts, o, m) == has_account(l.accounts, o, m) by {
            if has_account(n.accounts, o, m) {
                let k = choose|i: int|
                    0 <= i < n.accounts.len() && (#[trigger] n.accounts[i]).owner == o
                        && n.accounts[i].mint == m;
                assert(l.accounts[k].owner == o && l.accounts[k].mint == m);
                assert(has_account(l.accounts, o, m));
            }
            if has_account(l.accounts, o, m) {
                let k = choose|i: int|
                    0 <= i < l.accounts.len() && (#[trigger] l.accounts[i]).owner == o
                        && l.accounts[i].mint == m;
                assert(n.accounts[k].owner == o && n.accounts[k].mint == m);
                assert(has_account(n.accounts, o, m));
            }
        }
        assert forall|o: PrincipalId, m: u64|
            has_account(l.accounts, o, m) && !(o == owner && m == mint) implies balance_of(
            n.accounts,
            o,
            m,
        ) == balance_of(l.accounts, o, m) by {
            let k = choose|i: int|
                0 <= i < l.accounts.len() && (#[trigger] l.accounts[i]).owner == o
                    && l.accounts[i].mint == m;
            assert(k != t);
            lemma_account_idx_is(l.accounts, o, m, k);
            lemma_account_idx_is(n.accounts, o, m, k);
        }
    }
}

/// A transfer preserves well-formedness; on success the amount moves from
/// the source account's balance to the target account's, the mints are
/// untouched, and a self-transfer changes nothing.
pub proof fn lemma_transfer_next_wf(
    l: LedgerView,
    mint: u64,
    from: PrincipalId,
    to: PrincipalId,
    authority: PrincipalId,
    amount: u64,
)
    requires
        ledger_wf(l),
    ensures
        ledger_wf(transfer_next(l, mint, from, to, authority, amount)),
        transfer_result(l, mint, from, to, authority, amount) is Ok ==> {
            let n = transfer_next(l, mint, from, to, authority, amount);
            &&& n.mints == l.mints
            &&& from == to ==> n == l
            &&& from != to ==> {
                &&& has_account(n.accounts, from, mint)
                &&& has_account(n.accounts, to, mint)
                &&& balance_of(n.accounts, from, mint) == balance_of(l.accounts, from, mint)
                    - amount
                &&& balance_of(n.accounts, to, mint) == balance_of(l.accounts, to, mint) + amount
            }
        },
{
    if transfer_result(l, mint, from, to, authority, amount) is Ok && from != to {
        let n = transfer_next(l, mint, from, to, authority, amount);
        let fi = account_idx(l.accounts, from, mint);
        let ti = account_idx(l.accounts, to, mint);
        assert(0 <= fi < l.accounts.len() && l.accounts[fi].owner == from && l.accounts[fi].mint
            == mint);
        assert(0 <= ti < l.accounts.len() && l.accounts[ti].owner == to && l.accounts[ti].mint
            == mint);
        assert(fi != ti);
        assert(forall|i: int|
            0 <= i < n.accounts.len() && i != fi && i != ti ==> (#[trigger] n.accounts[i])
                == l.accounts[i]);
        assert(n.accounts[fi].owner == from && n.accounts[fi].mint == mint);
        assert(n.accounts[ti].owner == to && n.accounts[ti].mint == mint);
        assert(forall|i: int|
            0 <= i < n.accounts.len() ==> (#[trigger] n.accounts[i]).owner == l.accounts[i].owner
                && n.accounts[i].mint == l.accounts[i].mint);
        assert forall|i: int|
            0 <= i < n.accounts.len() implies has_mint(n.mints, (
        #[trigger] n.accounts[i]).mint) by {
            assert(has_mint(l.mints, l.accounts[i].mint));
        }
        lemma_account_idx_is(n.accounts, from, mint, fi);
        lemma_account_idx_is(n.accounts, to, mint, ti);
    }
}

impl TokenLedger {
    /// A fresh facility: no mints, no holding accounts.
    pub fn new() -> (l: TokenLedger)
        ensures
            ledger_wf(l@),
            l@.mints.len() == 0,
            l@.accounts.len() == 0,
            l@.next_mint_id == 0,
    {
        TokenLedger { mints: Vec::new(), accounts: Vec::new(), next_mint_id: 0 }
    }

    fn find_mint(&self, id: u64) -> (r: Option<usize>)
        ensures
            match r {
                Some(i) => i < self@.mints.len() && self@.mints[i as int].id == id,
                None => !has_mint(self@.mints, id),
            },
    {
        let mut i: usize = 0;
        while i < self.mints.len()
            invariant
                i <= self.mints.len(),
                forall|j: int| 0 <= j < i ==> (#[trigger] self.mints@[j]).id != id,
            decreases self.mints.len() - i,
        {
            if self.mints[i].id == id {
                return Some(i);
            }
            i += 1;
        }
        None
    }

    fn find_account(&self, owner: PrincipalId, mint: u64) -> (r: Option<usize>)
        ensures
            match r {
                Some(i) => i < self@.accounts.len() && self@.accounts[i as int].owner == owner
                    && self@.accounts[i as int].mint == mint,
                None => !has_account(self@.accounts, owner, mint),
            },
    {
        let mut i: usize = 0;
        while i < self.accounts.len()
            invariant
                i <= self.accounts.len(),
                forall|j: int|
                    0 <= j < i ==> !((#[trigger] self.accounts@[j]).owner == owner
                        && self.accounts@[j].mint == mint),
            decreases self.accounts.len() - i,
        {
            if self.accounts[i].owner == owner && self.accounts[i].mint == mint {
                return Some(i);
            }
            i += 1;
        }
        None
    }

    /// Creates a mint with the given issuance authority and decimal
    /// precision; returns the fresh mint id.
    pub fn create_mint(&mut self, authority: PrincipalId, decimals: u8) -> (id: u64)
        requires
            ledger_wf(old(self)@),
            old(self)@.next_mint_id < u64::MAX,
        ensures
            ledger_wf(final(self)@),
            id == old(self)@.next_mint_id,
            !has_mint(old(self)@.mints, id),
            has_mint(final(self)@.mints, id),
            mint_authority(final(self)@.mints, id) == authority,
            final(self)@ == create_mint_next(old(self)@, authority, decimals),
    {
        let id = self.next_mint_id;
        self.mints.push(MintEntry { id, authority, decimals });
        self.next_mint_id = id + 1;
        proof {
            lemma_create_mint_next_wf(old(self)@, authority, decimals);
            assert(self@ == create_mint_next(old(self)@, authority, decimals));
        }
        id
    }

    /// Creates a holding account for the given owner on the given mint, with
    /// balance zero. Rejects an unknown mint and a duplicate (owner, mint)
    /// pair.
    pub fn create_holding_account(&mut self, owner: PrincipalId, mint: u64) -> (r: Result<
        (),
        TokenError,
    >)
        requires
            ledger_wf(old(self)@),
        ensures
            ledger_wf(final(self)@),
            r == create_account_result(old(self)@, owner, mint),
            final(self)@ == create_account_next(old(self)@, owner, mint),
            r is Ok ==> has_account(final(self)@.accounts, owner, mint) && balance_of(
                final(self)@.accounts,
                owner,
                mint,
            ) == 0,
            final(self)@.mints == old(self)@.mints,
    {
        match self.find_mint(mint) {
            None => Err(TokenError::UnknownMint),
            Some(mi) => {
                proof {
                    lemma_mint_idx_is(self@.mints, mint, mi as int);
                }
                match self.find_account(owner, mint) {
                    Some(ai) => {
                        proof {
                            lemma_account_idx_is(self@.accounts, owner, mint, ai as int);
                        }
                        Err(TokenError::AccountExists)
                    },
                    None => {
                        self.accounts.push(AccountEntry { owner, mint, balance: 0 });
                        proof {
                            lemma_create_account_next_wf(old(self)@, owner, mint);
                            assert(self@ == create_account_next(old(self)@, owner, mint));
                        }
                        Ok(())
                    },
                }
            },
        }
    }

    /// Mints `amount` units into the holding account bound to `owner` and
    /// `mint`, with `authority` asserted as the mint's issuance authority.
    pub fn mint_to(
        &mut self,
        mint: u64,
        owner: PrincipalId,
        authority: PrincipalId,
        amount: u64,
    ) -> (r: Result<(), TokenError>)
        requires
            ledger_wf(old(self)@),
        ensures
            ledger_wf(final(self)@),
            r == mint_to_result(old(self)@, mint, owner, authority, amount),
            final(self)@ == mint_to_next(old(self)@, mint, owner, authority, amount),
            r is Ok ==> has_account(final(self)@.accounts, owner, mint) && balance_of(
                final(self)@.accounts,
                owner,
                mint,
            ) == balance_of(old(self)@.accounts, owner, mint) + amount,
            final(self)@.mints == old(self)@.mints,
    {
        let mi = match self.find_mint(mint) {
            None => {
                return Err(TokenError::UnknownMint);
            },
            Some(mi) => mi,
        };
        proof {
            lemma_mint_idx_is(self@.mints, mint, mi as int);
        }
        if self.mints[mi].authority != authority {
            return Err(TokenError::AuthorityMismatch);
        }
        let ai = match self.find_account(owner, mint) {
            None => {
                return Err(TokenError::UnknownAccount);
            },
            Some(ai) => ai,
        };
        proof {
            lemma_account_idx_is(self@.accounts, owner, mint, ai as int);
        }
        let bal = self.accounts[ai].balance;
        if amount > u64::MAX - bal {
            return Err(TokenError::BalanceOverflow);
        }
        self.accounts[ai] = AccountEntry { owner, mint, balance: bal + amount };
        proof {
            lemma_mint_to_next_wf(old(self)@, mint, owner, authority, amount);
            assert(self@ == mint_to_next(old(self)@, mint, owner, authority, amount));
        }
        Ok(())
    }

    /// Moves `amount` units of `mint` from the holding account owned by
    /// `from` to the one owned by `to`, with `authority` asserted as the
    /// source account's owner. The vault's controllers never invoke this:
    /// the facility offers it, and the deposit operation leaves it unused.
    pub fn transfer(
        &mut self,
        mint: u64,
        from: PrincipalId,
        to: PrincipalId,
        authority: PrincipalId,
        amount: u64,
    ) -> (r: Result<(), TokenError>)
        requires
            ledger_wf(old(self)@),
        ensures
            ledger_wf(final(self)@),
            r == transfer_result(old(self)@, mint, from, to, authority, amount),
            final(self)@ == transfer_next(old(self)@, mint, from, to, authority, amount),
    {
        if self.find_mint(mint).is_none() {
            return Err(TokenError::UnknownMint);
        }
        let fi = match self.find_account(from, mint) {
            None => {
                return Err(TokenError::UnknownAccount);
            },
            Some(i) => i,
        };
        let ti = match self.find_account(to, mint) {
            None => {
                return Err(TokenError::UnknownAccount);
            },
            Some(i) => i,
        };
        proof {
            lemma_account_idx_is(self@.accounts, from, mint, fi as int);
            lemma_account_idx_is(self@.accounts, to, mint, ti as int);
        }
        if authority != from {
            return Err(TokenError::AuthorityMismatch);
        }
        let fbal = self.accounts[fi].balance;
        if fbal < amount {
            return Err(TokenError::InsufficientFunds);
        }
        if fi == ti {
            return Ok(());
        }
        let tbal = self.accounts[ti].balance;
        if amount > u64::MAX - tbal {
            return Err(TokenError::BalanceOverflow);
        }
        self.accounts[fi] = AccountEntry { owner: from, mint, balance: fbal - amount };
        self.accounts[ti] = AccountEntry { owner: to, mint, balance: tbal + amount };
        proof {
            lemma_transfer_next_wf(old(self)@, mint, from, to, authority, amount);
            assert(self@ == transfer_next(old(self)@, mint, from, to, authority, amount));
        }
        Ok(())
    }

    /// The balance of the holding account bound to `owner` and `mint`, or
    /// `None` when no such account exists.
    pub fn balance(&self, owner: PrincipalId, mint: u64) -> (r: Option<u64>)
        requires
            ledger_wf(self@),
        ensures
            r == (if has_account(self@.accounts, owner, mint) {
                Some(balance_of(self@.accounts, owner, mint))
            } else {
                None::<u64>
            }),
    {
        match self.find_account(owner, mint) {
            Some(i) => {
                proof {
                    lemma_account_idx_is(self@.accounts, owner, mint, i as int);
                }
                Some(self.accounts[i].balance)
            },
            None => None,
        }
    }

    /// Whether a mint with the given id exists.
    pub fn mint_exists(&self, id: u64) -> (r: bool)
        ensures
            r == has_mint(self@.mints, id),
    {
        match self.find_mint(id) {
            Some(_) => true,
            None => false,
        }
    }
}

} // verus!
