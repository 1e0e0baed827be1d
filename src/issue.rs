use vstd::prelude::*;

use crate::address::Address;
use crate::audit::{audit_lines, audit_log};
use crate::derive::{
    canonical_bump, derived_address, find_derived_address, lemma_canonical_bump_is, seeds_view,
};
use crate::ledger::{HoldingRecord, HoldingView, Ledger, LedgerView, MintRecord, MintView};

verus! {

/// Why an issuance request failed. Every failure is terminal and leaves
/// the ledger as it was.
#[derive(Clone, Copy, Debug, PartialEq, Eq, Structural)]
pub enum TokenError {
    /// The requested initial amount is zero.
    InvalidMintAmount,
    /// The supplied counter is not the canonical one for the authority label.
    AuthorityMismatch,
    /// The mint, or the address of the recipient's holding, is already in use.
    AlreadyInitialized,
    /// The token engine refused the credit.
    IssuanceFailed,
}

/// The well-known programs a request works with: this program, whose
/// identity the authority is derived under; the token engine; and the
/// account factory that places holding records.
#[derive(Clone, Copy, Debug)]
pub struct Programs {
    pub program_id: Address,
    pub token_program: Address,
    pub associated_token_program: Address,
}

/// The identities an issuance request names, and the counter it supplies
/// for the authority's derivation.
#[derive(Clone, Copy, Debug)]
pub struct CreateToken {
    /// The new mint's address.
    pub mint: Address,
    /// Pays for the accounts that the request creates.
    pub payer: Address,
    /// Owner of the holding record that receives the supply.
    pub recipient: Address,
    /// The disambiguation counter of the authority's derivation.
    pub authority_bump: u8,
}

/// The label `mint_authority`, as ASCII bytes.
pub open spec fn authority_label() -> Seq<u8> {
    seq![109u8, 105u8, 110u8, 116u8, 95u8, 97u8, 117u8, 116u8, 104u8, 111u8, 114u8, 105u8, 116u8, 121u8]
}

pub open spec fn authority_seeds() -> Seq<Seq<u8>> {
    seq![authority_label()]
}

/// The authority of every mint this program creates: derived from the
/// label alone under the program's identity.
pub open spec fn authority_of(program_id: Seq<u8>) -> Option<Seq<u8>> {
    derived_address(authority_seeds(), program_id)
}

pub open spec fn holding_seeds(owner: Seq<u8>, token_program: Seq<u8>, mint: Seq<u8>) -> Seq<Seq<u8>> {
    seq![owner, token_program, mint]
}

/// Where the account factory places the holding of `owner` for `mint`.
pub open spec fn holding_address_of(programs: Programs, owner: Seq<u8>, mint: Seq<u8>) -> Option<Seq<u8>> {
    derived_address(
        holding_seeds(owner, programs.token_program@, mint),
        programs.associated_token_program@,
    )
}

/// The ledger after crediting `amount` to the mint's supply and to the
/// holding at `holding`.
pub open spec fn credited(pre: LedgerView, mint: Seq<u8>, holding: Seq<u8>, amount: u64) -> LedgerView {
    LedgerView {
        mints: pre.mints.insert(
            mint,
            MintView { supply: (pre.mints[mint].supply + amount) as u64, ..pre.mints[mint] },
        ),
        holdings: pre.holdings.insert(
            holding,
            HoldingView { amount: (pre.holdings[holding].amount + amount) as u64, ..pre.holdings[holding] },
        ),
    }
}

/// The token engine's credit: it succeeds exactly when the mint exists and
/// names `signer` as its mint authority, the holding exists for that mint,
/// and neither the supply nor the balance overflows.
pub open spec fn mint_to_ok(pre: LedgerView, mint: Seq<u8>, holding: Seq<u8>, signer: Seq<u8>, amount: u64) -> bool {
    &&& pre.mints.contains_key(mint)
    &&& pre.mints[mint].mint_authority == signer
    &&& pre.holdings.contains_key(holding)
    &&& pre.holdings[holding].mint == mint
    &&& pre.mints[mint].supply + amount <= u64::MAX
    &&& pre.holdings[holding].amount + amount <= u64::MAX
}

/// The amount already held at `holding`, or zero where there is no record.
pub open spec fn held(pre: LedgerView, holding: Seq<u8>) -> nat {
    if pre.holdings.contains_key(holding) {
        pre.holdings[holding].amount as nat
    } else {
        0
    }
}

/// What one request does to the ledger: the ledger after it and the audit
/// lines, or the one error it fails with.
pub open spec fn create_token_result(
    pre: LedgerView,
    programs: Programs,
    ctx: CreateToken,
    decimals: u8,
    amount: u64,
) -> Result<(LedgerView, Seq<Seq<char>>), TokenError> {
    if amount == 0 {
        Err(TokenError::InvalidMintAmount)
    } else if canonical_bump(authority_seeds(), programs.program_id@) != Some(ctx.authority_bump) {
        Err(TokenError::AuthorityMismatch)
    } else if pre.mints.contains_key(ctx.mint@) {
        Err(TokenError::AlreadyInitialized)
    } else {
        match holding_address_of(programs, ctx.recipient@, ctx.mint@) {
            None => Err(TokenError::IssuanceFailed),
            Some(h) => {
                if pre.holdings.contains_key(h) && (pre.holdings[h].owner != ctx.recipient@
                    || pre.holdings[h].mint != ctx.mint@) {
                    Err(TokenError::AlreadyInitialized)
                } else if held(pre, h) + amount > u64::MAX {
                    Err(TokenError::IssuanceFailed)
                } else {
                    let authority = authority_of(programs.program_id@)->Some_0;
                    let post = LedgerView {
                        mints: pre.mints.insert(
                            ctx.mint@,
                            MintView {
                                decimals,
                                supply: amount,
                                mint_authority: authority,
                                freeze_authority: authority,
                            },
                        ),
                        holdings: pre.holdings.insert(
                            h,
                            HoldingView {
                                owner: ctx.recipient@,
                                mint: ctx.mint@,
                                amount: (held(pre, h) + amount) as u64,
                            },
                        ),
                    };
                    Ok((post, audit_lines(ctx.mint@, h, amount)))
                }
            },
        }
    }
}

fn authority_seed_list() -> (r: Vec<Vec<u8>>)
    ensures
        seeds_view(&r) == authority_seeds(),
{
    let label: Vec<u8> = vec![109u8, 105u8, 110u8, 116u8, 95u8, 97u8, 117u8, 116u8, 104u8, 111u8, 114u8, 105u8, 116u8, 121u8];
    let mut r: Vec<Vec<u8>> = Vec::new();
    r.push(label);
    assert(label@ =~= authority_label());
    assert(seeds_view(&r) =~= authority_seeds());
    r
}

fn holding_seed_list(owner: &Address, token_program: &Address, mint: &Address) -> (r: Vec<Vec<u8>>)
    ensures
        seeds_view(&r) == holding_seeds(owner@, token_program@, mint@),
{
    let mut r: Vec<Vec<u8>> = Vec::new();
    r.push(owner.to_vec());
    r.push(token_program.to_vec());
    r.push(mint.to_vec());
    assert(seeds_view(&r) =~= holding_seeds(owner@, token_program@, mint@));
    r
}

/// The authority's address, derived from the label under `program_id`,
/// with its canonical counter.
pub fn find_authority(program_id: &Address) -> (r: Option<(Address, u8)>)
    ensures
        match r {
            Some((a, b)) => {
                &&& authority_of(program_id@) == Some(a@)
                &&& canonical_bump(authority_seeds(), program_id@) == Some(b)
            },
            None => {
                &&& authority_of(program_id@) is None
                &&& canonical_bump(authority_seeds(), program_id@) is None
            },
        },
{
    let seeds = authority_seed_list();
    find_derived_address(&seeds, program_id)
}

/// Checks a supplied counter against the derivation: the authority's
/// address where `bump` is the canonical counter, else `AuthorityMismatch`.
pub fn verify_authority(program_id: &Address, bump: u8) -> (r: Result<Address, TokenError>)
    ensures
        match r {
            Ok(a) => {
                &&& canonical_bump(authority_seeds(), program_id@) == Some(bump)
                &&& authority_of(program_id@) == Some(a@)
            },
            Err(e) => {
                &&& e == TokenError::AuthorityMismatch
                &&& canonical_bump(authority_seeds(), program_id@) != Some(bump)
            },
        },
{
    match find_authority(program_id) {
        Some((a, b)) => {
            if b == bump {
                Ok(a)
            } else {
                Err(TokenError::AuthorityMismatch)
            }
        },
        None => Err(TokenError::AuthorityMismatch),
    }
}

/// Where the account factory places the holding of `owner` for `mint`.
pub fn find_holding_address(programs: &Programs, owner: &Address, mint: &Address) -> (r: Option<Address>)
    ensures
        match r {
            Some(a) => holding_address_of(*programs, owner@, mint@) == Some(a@),
            None => holding_address_of(*programs, owner@, mint@) is None,
        },
{
    let seeds = holding_seed_list(owner, &programs.token_program, mint);
    match find_derived_address(&seeds, &programs.associated_token_program) {
        Some((a, _)) => Some(a),
        None => None,
    }
}

/// The checks that read no ledger state, in their order: the amount must
/// be positive, then `authority_bump` must be the canonical counter.
/// Returns the authority's address.
pub fn check_request(programs: &Programs, authority_bump: u8, initial_amount: u64) -> (r: Result<Address, TokenError>)
    ensures
        initial_amount == 0 ==> r == Err::<Address, TokenError>(TokenError::InvalidMintAmount),
        initial_amount > 0 && canonical_bump(authority_seeds(), programs.program_id@) != Some(authority_bump)
            ==> r == Err::<Address, TokenError>(TokenError::AuthorityMismatch),
        initial_amount > 0 && canonical_bump(authority_seeds(), programs.program_id@) == Some(authority_bump) ==> {
            &&& r is Ok
            &&& authority_of(programs.program_id@) == Some(r->Ok_0@)
        },
{
    if initial_amount == 0 {
        return Err(TokenError::InvalidMintAmount);
    }
    verify_authority(&programs.program_id, authority_bump)
}

impl Ledger {
    /// The token engine's credit of `amount` new units to the holding at
    /// `holding`, signed by `signer`.
    pub fn mint_to(&mut self, mint: &Address, holding: &Address, signer: &Address, amount: u64) -> (r: Result<(), TokenError>)
        requires
            old(self).wf(),
        ensures
            final(self).wf(),
            r is Ok <==> mint_to_ok(old(self)@, mint@, holding@, signer@, amount),
            r is Ok ==> final(self)@ == credited(old(self)@, mint@, holding@, amount),
            r is Err ==> r == Err::<(), TokenError>(TokenError::IssuanceFailed) && *final(self) == *old(self),
    {
        let m = match self.mint(mint) {
            Some(m) => m,
            None => return Err(TokenError::IssuanceFailed),
        };
        let h = match self.holding(holding) {
            Some(h) => h,
            None => return Err(TokenError::IssuanceFailed),
        };
        if !m.mint_authority.same_as(signer) || !h.mint.same_as(mint) {
            return Err(TokenError::IssuanceFailed);
        }
        let supply = match m.supply.checked_add(amount) {
            Some(s) => s,
            None => return Err(TokenError::IssuanceFailed),
        };
        let balance = match h.amount.checked_add(amount) {
            Some(b) => b,
            None => return Err(TokenError::IssuanceFailed),
        };
        self.put_mint(MintRecord { supply, ..m });
        self.put_holding(HoldingRecord { amount: balance, ..h });
        proof {
            assert(self@.mints =~= credited(old(self)@, mint@, holding@, amount).mints);
            assert(self@.holdings =~= credited(old(self)@, mint@, holding@, amount).holdings);
        }
        Ok(())
    }
}

/// Creates the mint at `ctx.mint` with `decimals` places and the derived
/// authority as both mint and freeze authority, places the recipient's
/// holding if it is absent, and credits `initial_amount` to it. Returns
/// the audit lines; on any error the ledger is left as it was.
pub fn create_token(
    ledger: &mut Ledger,
    programs: &Programs,
    ctx: &CreateToken,
    decimals: u8,
    initial_amount: u64,
) -> (r: Result<Vec<String>, TokenError>)
    requires
        old(ledger).wf(),
    ensures
        final(ledger).wf(),
        match create_token_result(old(ledger)@, *programs, *ctx, decimals, initial_amount) {
            Ok((post, lines)) => {
                &&& r is Ok
                &&& final(ledger)@ == post
                &&& r->Ok_0.deep_view() == lines
            },
            Err(e) => {
                &&& r == Err::<Vec<String>, TokenError>(e)
                &&& *final(ledger) == *old(ledger)
            },
        },
        initial_amount == 0 ==> {
            &&& r == Err::<Vec<String>, TokenError>(TokenError::InvalidMintAmount)
            &&& *final(ledger) == *old(ledger)
        },
        initial_amount > 0 && canonical_bump(authority_seeds(), programs.program_id@) != Some(ctx.authority_bump) ==> {
            &&& r == Err::<Vec<String>, TokenError>(TokenError::AuthorityMismatch)
            &&& *final(ledger) == *old(ledger)
        },
{
    let authority = match check_request(programs, ctx.authority_bump, initial_amount) {
        Ok(a) => a,
        Err(e) => return Err(e),
    };
    if ledger.mint(&ctx.mint).is_some() {
        return Err(TokenError::AlreadyInitialized);
    }
    let holding = match find_holding_address(programs, &ctx.recipient, &ctx.mint) {
        Some(h) => h,
        None => return Err(TokenError::IssuanceFailed),
    };
    let record = match ledger.holding(&holding) {
        Some(h) => {
            if !h.owner.same_as(&ctx.recipient) || !h.mint.same_as(&ctx.mint) {
                return Err(TokenError::AlreadyInitialized);
            }
            h
        },
        None => HoldingRecord { address: holding, owner: ctx.recipient, mint: ctx.mint, amount: 0 },
    };
    if record.amount > u64::MAX - initial_amount {
        return Err(TokenError::IssuanceFailed);
    }
    let ghost pre = ledger@;
    // Every check has passed, so the credit below cannot fail: nothing
    // is staged that the engine could then refuse.
    ledger.put_mint(
        MintRecord {
            address: ctx.mint,
            decimals,
            supply: 0,
            mint_authority: authority,
            freeze_authority: authority,
        },
    );
    ledger.put_holding(record);
    match ledger.mint_to(&ctx.mint, &holding, &authority, initial_amount) {
        Ok(()) => {},
        Err(e) => return Err(e),
    }
    proof {
        let expected = create_token_result(pre, *programs, *ctx, decimals, initial_amount);
        assert(held(pre, holding@) == record.amount);
        assert(ledger@.mints =~= expected->Ok_0.0.mints);
        assert(ledger@.holdings =~= expected->Ok_0.0.holdings);
    }
    Ok(audit_log(&ctx.mint, &holding, initial_amount))
}

} // verus!
