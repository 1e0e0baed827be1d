use vstd::prelude::*;

use crate::address::Address;

verus! {

/// The address that the host's derivation rule gives for `seeds` under
/// `program_id`, or `None` where the rule rejects them (the hash lands on
/// the curve, so a private key could exist, or the seeds are too long).
pub uninterp spec fn program_address(seeds: Seq<Seq<u8>>, program_id: Seq<u8>) -> Option<Seq<u8>>;

/// `seeds` followed by the one-byte disambiguation counter.
pub open spec fn with_bump(seeds: Seq<Seq<u8>>, bump: u8) -> Seq<Seq<u8>> {
    seeds.push(seq![bump])
}

/// `bump` is the counter that probing down from 255 finds first: it yields
/// a valid derived address and every larger counter does not.
pub open spec fn is_canonical_bump(seeds: Seq<Seq<u8>>, program_id: Seq<u8>, bump: u8) -> bool {
    &&& 1 <= bump
    &&& program_address(with_bump(seeds, bump), program_id) is Some
    &&& forall|c: u8| bump < c ==> (#[trigger] program_address(with_bump(seeds, c), program_id)) is None
}

/// The canonical counter for `seeds`, where one exists.
pub open spec fn canonical_bump(seeds: Seq<Seq<u8>>, program_id: Seq<u8>) -> Option<u8> {
    if exists|b: u8| is_canonical_bump(seeds, program_id, b) {
        Some(choose|b: u8| is_canonical_bump(seeds, program_id, b))
    } else {
        None
    }
}

/// The program-controlled address for `seeds`: the one derived with the
/// canonical counter.
pub open spec fn derived_address(seeds: Seq<Seq<u8>>, program_id: Seq<u8>) -> Option<Seq<u8>> {
    match canonical_bump(seeds, program_id) {
        Some(b) => program_address(with_bump(seeds, b), program_id),
        None => None,
    }
}

/// At most one counter is canonical for given seeds.
pub proof fn lemma_canonical_bump_unique(seeds: Seq<Seq<u8>>, program_id: Seq<u8>, b1: u8, b2: u8)
    requires
        is_canonical_bump(seeds, program_id, b1),
        is_canonical_bump(seeds, program_id, b2),
    ensures
        b1 == b2,
{
    if b1 < b2 {
        assert(program_address(with_bump(seeds, b2), program_id) is None);
    } else if b2 < b1 {
        assert(program_address(with_bump(seeds, b1), program_id) is None);
    }
}

/// A canonical counter is the one `canonical_bump` names.
pub proof fn lemma_canonical_bump_is(seeds: Seq<Seq<u8>>, program_id: Seq<u8>, b: u8)
    requires
        is_canonical_bump(seeds, program_id, b),
    ensures
        canonical_bump(seeds, program_id) == Some(b),
{
    let c = choose|c: u8| is_canonical_bump(seeds, program_id, c);
    lemma_canonical_bump_unique(seeds, program_id, b, c);
}

/// The seeds as plain byte sequences.
pub open spec fn seeds_view(seeds: &Vec<Vec<u8>>) -> Seq<Seq<u8>> {
    seeds@.map_values(|v: Vec<u8>| v@)
}

/// Relies on `Pubkey::try_find_program_address`: it tries the counters
/// from 255 down to 1 with `Pubkey::create_program_address` and returns
/// the first address that call accepts with its counter, or `None` where
/// it accepts none. Unlike `find_program_address` it does not panic.
#[verifier::external_body]
fn try_find_program_address(seeds: &Vec<Vec<u8>>, program_id: &Address) -> (r: Option<(Address, u8)>)
    ensures
        match r {
            Some((a, b)) => {
                &&& is_canonical_bump(seeds_view(seeds), program_id@, b)
                &&& program_address(with_bump(seeds_view(seeds), b), program_id@) == Some(a@)
            },
            None => forall|c: u8|
                1 <= c ==> (#[trigger] program_address(with_bump(seeds_view(seeds), c), program_id@)) is None,
        },
{
    let s: Vec<&[u8]> = seeds.iter().map(Vec::as_slice).collect();
    let id = anchor_lang::prelude::Pubkey::new_from_array(program_id.bytes);
    match anchor_lang::prelude::Pubkey::try_find_program_address(&s, &id) {
        Some((a, b)) => Some((Address { bytes: a.to_bytes() }, b)),
        None => None,
    }
}

/// Derives the program-controlled address for `seeds` and its canonical
/// counter.
pub fn find_derived_address(seeds: &Vec<Vec<u8>>, program_id: &Address) -> (r: Option<(Address, u8)>)
    ensures
        match r {
            Some((a, b)) => {
                &&& canonical_bump(seeds_view(seeds), program_id@) == Some(b)
                &&& derived_address(seeds_view(seeds), program_id@) == Some(a@)
            },
            None => {
                &&& canonical_bump(seeds_view(seeds), program_id@) is None
                &&& derived_address(seeds_view(seeds), program_id@) is None
            },
        },
{
    let r = try_find_program_address(seeds, program_id);
    proof {
        let s = seeds_view(seeds);
        match r {
            Some((a, b)) => {
                lemma_canonical_bump_is(s, program_id@, b);
            },
            None => {
                assert forall|b: u8| !is_canonical_bump(s, program_id@, b) by {
                    if 1 <= b {
                        assert(program_address(with_bump(s, b), program_id@) is None);
                    }
                }
            },
        }
    }
    r
}

} // verus!
