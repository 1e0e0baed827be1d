use vstd::prelude::*;

use crate::derive::canonical_bump;
use crate::issue::{
    authority_of, authority_seeds, create_token_result, holding_address_of, CreateToken, Programs, TokenError,
};
use crate::ledger::LedgerView;

verus! {

/// Every mint that the program creates gets the same authority, as mint
/// and as freeze authority, whatever the ledger, payer, recipient, mint,
/// precision or amount of the request: the one derived from the label
/// under the program's identity.
pub proof fn lemma_authority_is_fixed(
    pre1: LedgerView,
    pre2: LedgerView,
    programs: Programs,
    ctx1: CreateToken,
    ctx2: CreateToken,
    decimals1: u8,
    decimals2: u8,
    amount1: u64,
    amount2: u64,
)
    requires
        create_token_result(pre1, programs, ctx1, decimals1, amount1) is Ok,
        create_token_result(pre2, programs, ctx2, decimals2, amount2) is Ok,
    ensures
        ({
            let post1 = create_token_result(pre1, programs, ctx1, decimals1, amount1)->Ok_0.0;
            let post2 = create_token_result(pre2, programs, ctx2, decimals2, amount2)->Ok_0.0;
            &&& authority_of(programs.program_id@) is Some
            &&& post1.mints[ctx1.mint@].mint_authority == authority_of(programs.program_id@)->Some_0
            &&& post1.mints[ctx1.mint@].freeze_authority == authority_of(programs.program_id@)->Some_0
            &&& post2.mints[ctx2.mint@].mint_authority == post1.mints[ctx1.mint@].mint_authority
            &&& post2.mints[ctx2.mint@].freeze_authority == post1.mints[ctx1.mint@].freeze_authority
        }),
{
}

/// A mint is created once: after a request has created it, a second
/// request for the same mint, with a positive amount and the canonical
/// counter, fails with `AlreadyInitialized`, whatever its recipient.
pub proof fn lemma_second_creation_fails(
    pre: LedgerView,
    programs: Programs,
    first: CreateToken,
    decimals1: u8,
    amount1: u64,
    second: CreateToken,
    decimals2: u8,
    amount2: u64,
)
    requires
        create_token_result(pre, programs, first, decimals1, amount1) is Ok,
        second.mint@ == first.mint@,
        second.authority_bump == first.authority_bump,
        amount2 > 0,
    ensures
        create_token_result(
            create_token_result(pre, programs, first, decimals1, amount1)->Ok_0.0,
            programs,
            second,
            decimals2,
            amount2,
        ) == Err::<(LedgerView, Seq<Seq<char>>), TokenError>(TokenError::AlreadyInitialized),
{
    assert(canonical_bump(authority_seeds(), programs.program_id@) == Some(first.authority_bump));
}

/// Requests for two different mints, whose holdings lie at different
/// addresses, do not interfere: each succeeds after the other as it does
/// alone, with the same audit lines, and both orders end in the same
/// ledger, which holds each request's records as that request alone left
/// them.
pub proof fn lemma_distinct_mints_independent(
    pre: LedgerView,
    programs: Programs,
    ctx1: CreateToken,
    decimals1: u8,
    amount1: u64,
    ctx2: CreateToken,
    decimals2: u8,
    amount2: u64,
)
    requires
        create_token_result(pre, programs, ctx1, decimals1, amount1) is Ok,
        create_token_result(pre, programs, ctx2, decimals2, amount2) is Ok,
        ctx1.mint@ != ctx2.mint@,
        holding_address_of(programs, ctx1.recipient@, ctx1.mint@) != holding_address_of(
            programs,
            ctx2.recipient@,
            ctx2.mint@,
        ),
    ensures
        ({
            let (post1, lines1) = create_token_result(pre, programs, ctx1, decimals1, amount1)->Ok_0;
            let (post2, lines2) = create_token_result(pre, programs, ctx2, decimals2, amount2)->Ok_0;
            let then2 = create_token_result(post1, programs, ctx2, decimals2, amount2);
            let then1 = create_token_result(post2, programs, ctx1, decimals1, amount1);
            let h1 = holding_address_of(programs, ctx1.recipient@, ctx1.mint@)->Some_0;
            let h2 = holding_address_of(programs, ctx2.recipient@, ctx2.mint@)->Some_0;
            &&& then2 is Ok
            &&& then1 is Ok
            &&& then2->Ok_0.1 == lines2
            &&& then1->Ok_0.1 == lines1
            &&& then2->Ok_0.0 == then1->Ok_0.0
            &&& then2->Ok_0.0.mints[ctx1.mint@] == post1.mints[ctx1.mint@]
            &&& then2->Ok_0.0.mints[ctx2.mint@] == post2.mints[ctx2.mint@]
            &&& then2->Ok_0.0.holdings[h1] == post1.holdings[h1]
            &&& then2->Ok_0.0.holdings[h2] == post2.holdings[h2]
        }),
{
    let (post1, lines1) = create_token_result(pre, programs, ctx1, decimals1, amount1)->Ok_0;
    let (post2, lines2) = create_token_result(pre, programs, ctx2, decimals2, amount2)->Ok_0;
    let h1 = holding_address_of(programs, ctx1.recipient@, ctx1.mint@)->Some_0;
    let h2 = holding_address_of(programs, ctx2.recipient@, ctx2.mint@)->Some_0;
    assert(post1.holdings[h2] == pre.holdings[h2]);
    assert(post2.holdings[h1] == pre.holdings[h1]);
    let then2 = create_token_result(post1, programs, ctx2, decimals2, amount2);
    let then1 = create_token_result(post2, programs, ctx1, decimals1, amount1);
    assert(then2->Ok_0.0.mints =~= then1->Ok_0.0.mints);
    assert(then2->Ok_0.0.holdings =~= then1->Ok_0.0.holdings);
}

} // verus!
