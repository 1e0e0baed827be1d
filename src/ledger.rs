use vstd::prelude::*;

use crate::address::Address;

verus! {

/// The record of an asset class.
#[derive(Clone, Copy, Debug)]
pub struct MintRecord {
    pub address: Address,
    pub decimals: u8,
    pub supply: u64,
    pub mint_authority: Address,
    pub freeze_authority: Address,
}

/// What a mint record holds, keyed elsewhere by its address.
pub struct MintView {
    pub decimals: u8,
    pub supply: u64,
    pub mint_authority: Seq<u8>,
    pub freeze_authority: Seq<u8>,
}

impl View for MintRecord {
    type V = MintView;

    open spec fn view(&self) -> MintView {
        MintView {
            decimals: self.decimals,
            supply: self.supply,
            mint_authority: self.mint_authority@,
            freeze_authority: self.freeze_authority@,
        }
    }
}

/// A balance of one mint held by one owner.
#[derive(Clone, Copy, Debug)]
pub struct HoldingRecord {
    pub address: Address,
    pub owner: Address,
    pub mint: Address,
    pub amount: u64,
}

/// What a holding record holds, keyed elsewhere by its address.
pub struct HoldingView {
    pub owner: Seq<u8>,
    pub mint: Seq<u8>,
    pub amount: u64,
}

impl View for HoldingRecord {
    type V = HoldingView;

    open spec fn view(&self) -> HoldingView {
        HoldingView { owner: self.owner@, mint: self.mint@, amount: self.amount }
    }
}

/// The ledger's accounts that this operation reads and writes: mint
/// records and holding records, each kept under a distinct address.
pub struct Ledger {
    mints: Vec<MintRecord>,
    holdings: Vec<HoldingRecord>,
}

/// The ledger as two maps from address to record.
pub struct LedgerView {
    pub mints: Map<Seq<u8>, MintView>,
    pub holdings: Map<Seq<u8>, HoldingView>,
}

pub open spec fn mint_keys_unique(s: Seq<MintRecord>) -> bool {
    forall|i: int, j: int|
        0 <= i < s.len() && 0 <= j < s.len() && i != j ==> s[i].address@ != s[j].address@
}

pub open spec fn holding_keys_unique(s: Seq<HoldingRecord>) -> bool {
    forall|i: int, j: int|
        0 <= i < s.len() && 0 <= j < s.len() && i != j ==> s[i].address@ != s[j].address@
}

pub open spec fn mint_map(s: Seq<MintRecord>) -> Map<Seq<u8>, MintView> {
    Map::new(
        |k: Seq<u8>| exists|i: int| 0 <= i < s.len() && s[i].address@ == k,
        |k: Seq<u8>| s[choose|i: int| 0 <= i < s.len() && s[i].address@ == k]@,
    )
}

pub open spec fn holding_map(s: Seq<HoldingRecord>) -> Map<Seq<u8>, HoldingView> {
    Map::new(
        |k: Seq<u8>| exists|i: int| 0 <= i < s.len() && s[i].address@ == k,
        |k: Seq<u8>| s[choose|i: int| 0 <= i < s.len() && s[i].address@ == k]@,
    )
}

proof fn lemma_mint_map_at(s: Seq<MintRecord>, i: int)
    requires
        mint_keys_unique(s),
        0 <= i < s.len(),
    ensures
        mint_map(s).contains_key(s[i].address@),
        mint_map(s)[s[i].address@] == s[i]@,
{
    let k = s[i].address@;
    assert(exists|j: int| 0 <= j < s.len() && s[j].address@ == k);
}

proof fn lemma_holding_map_at(s: Seq<HoldingRecord>, i: int)
    requires
        holding_keys_unique(s),
        0 <= i < s.len(),
    ensures
        holding_map(s).contains_key(s[i].address@),
        holding_map(s)[s[i].address@] == s[i]@,
{
    let k = s[i].address@;
    assert(exists|j: int| 0 <= j < s.len() && s[j].address@ == k);
}

proof fn lemma_mint_map_push(s: Seq<MintRecord>, r: MintRecord)
    requires
        mint_keys_unique(s),
        !mint_map(s).contains_key(r.address@),
    ensures
        mint_keys_unique(s.push(r)),
        mint_map(s.push(r)) == mint_map(s).insert(r.address@, r@),
{
    let t = s.push(r);
    assert forall|i: int| 0 <= i < s.len() implies t[i].address@ != r.address@ by {
        if t[i].address@ == r.address@ {
            assert(s[i].address@ == r.address@);
        }
    }
    assert(mint_keys_unique(t));
    let m = mint_map(s).insert(r.address@, r@);
    assert forall|k: Seq<u8>| #[trigger] mint_map(t).contains_key(k) <==> m.contains_key(k) by {
        if mint_map(t).contains_key(k) {
            let i = choose|i: int| 0 <= i < t.len() && t[i].address@ == k;
            if i < s.len() {
                assert(s[i].address@ == k);
            }
        }
        if mint_map(s).contains_key(k) {
            let i = choose|i: int| 0 <= i < s.len() && s[i].address@ == k;
            assert(t[i].address@ == k);
        }
        if k == r.address@ {
            assert(t[s.len() as int].address@ == k);
        }
    }
    assert forall|k: Seq<u8>| #[trigger] mint_map(t).contains_key(k) implies mint_map(t)[k] == m[k] by {
        let i = choose|i: int| 0 <= i < t.len() && t[i].address@ == k;
        lemma_mint_map_at(t, i);
        if i < s.len() {
            assert(s[i] == t[i]);
            lemma_mint_map_at(s, i);
        }
    }
    assert(mint_map(t) =~= m);
}

proof fn lemma_holding_map_push(s: Seq<HoldingRecord>, r: HoldingRecord)
    requires
        holding_keys_unique(s),
        !holding_map(s).contains_key(r.address@),
    ensures
        holding_keys_unique(s.push(r)),
        holding_map(s.push(r)) == holding_map(s).insert(r.address@, r@),
{
    let t = s.push(r);
    assert forall|i: int| 0 <= i < s.len() implies t[i].address@ != r.address@ by {
        if t[i].address@ == r.address@ {
            assert(s[i].address@ == r.address@);
        }
    }
    assert(holding_keys_unique(t));
    let m = holding_map(s).insert(r.address@, r@);
    assert forall|k: Seq<u8>| #[trigger] holding_map(t).contains_key(k) <==> m.contains_key(k) by {
        if holding_map(t).contains_key(k) {
            let i = choose|i: int| 0 <= i < t.len() && t[i].address@ == k;
            if i < s.len() {
                assert(s[i].address@ == k);
            }
        }
        if holding_map(s).contains_key(k) {
            let i = choose|i: int| 0 <= i < s.len() && s[i].address@ == k;
            assert(t[i].address@ == k);
        }
        if k == r.address@ {
            assert(t[s.len() as int].address@ == k);
        }
    }
    assert forall|k: Seq<u8>| #[trigger] holding_map(t).contains_key(k) implies holding_map(t)[k] == m[k] by {
        let i = choose|i: int| 0 <= i < t.len() && t[i].address@ == k;
        lemma_holding_map_at(t, i);
        if i < s.len() {
            assert(s[i] == t[i]);
            lemma_holding_map_at(s, i);
        }
    }
    assert(holding_map(t) =~= m);
}

proof fn lemma_holding_map_update(s: Seq<HoldingRecord>, n: int, r: HoldingRecord)
    requires
        holding_keys_unique(s),
        0 <= n < s.len(),
        s[n].address@ == r.address@,
    ensures
        holding_keys_unique(s.update(n, r)),
        holding_map(s.update(n, r)) == holding_map(s).insert(r.address@, r@),
{
    let t = s.update(n, r);
    assert forall|i: int| 0 <= i < t.len() implies #[trigger] t[i].address@ == s[i].address@ by {}
    assert(holding_keys_unique(t));
    let m = holding_map(s).insert(r.address@, r@);
    lemma_holding_map_at(s, n);
    assert forall|k: Seq<u8>| #[trigger] holding_map(t).contains_key(k) <==> m.contains_key(k) by {
        if holding_map(t).contains_key(k) {
            let i = choose|i: int| 0 <= i < t.len() && t[i].address@ == k;
            assert(s[i].address@ == k);
        }
        if holding_map(s).contains_key(k) {
            let i = choose|i: int| 0 <= i < s.len() && s[i].address@ == k;
            assert(t[i].address@ == k);
        }
    }
    assert forall|k: Seq<u8>| #[trigger] holding_map(t).contains_key(k) implies holding_map(t)[k] == m[k] by {
        let i = choose|i: int| 0 <= i < t.len() && t[i].address@ == k;
        lemma_holding_map_at(t, i);
        if i != n {
            assert(s[i] == t[i]);
            lemma_holding_map_at(s, i);
        }
    }
    assert(holding_map(t) =~= m);
}

proof fn lemma_mint_map_update(s: Seq<MintRecord>, n: int, r: MintRecord)
    requires
        mint_keys_unique(s),
        0 <= n < s.len(),
        s[n].address@ == r.address@,
    ensures
        mint_keys_unique(s.update(n, r)),
        mint_map(s.update(n, r)) == mint_map(s).insert(r.address@, r@),
{
    let t = s.update(n, r);
    assert forall|i: int| 0 <= i < t.len() implies #[trigger] t[i].address@ == s[i].address@ by {}
    assert(mint_keys_unique(t));
    let m = mint_map(s).insert(r.address@, r@);
    lemma_mint_map_at(s, n);
    assert forall|k: Seq<u8>| #[trigger] mint_map(t).contains_key(k) <==> m.contains_key(k) by {
        if mint_map(t).contains_key(k) {
            let i = choose|i: int| 0 <= i < t.len() && t[i].address@ == k;
            assert(s[i].address@ == k);
        }
        if mint_map(s).contains_key(k) {
            let i = choose|i: int| 0 <= i < s.len() && s[i].address@ == k;
            assert(t[i].address@ == k);
        }
    }
    assert forall|k: Seq<u8>| #[trigger] mint_map(t).contains_key(k) implies mint_map(t)[k] == m[k] by {
        let i = choose|i: int| 0 <= i < t.len() && t[i].address@ == k;
        lemma_mint_map_at(t, i);
        if i != n {
            assert(s[i] == t[i]);
            lemma_mint_map_at(s, i);
        }
    }
    assert(mint_map(t) =~= m);
}

impl View for Ledger {
    type V = LedgerView;

    closed spec fn view(&self) -> LedgerView {
        LedgerView { mints: mint_map(self.mints@), holdings: holding_map(self.holdings@) }
    }
}

impl Ledger {
    /// No two records of one kind share an address.
    pub closed spec fn wf(&self) -> bool {
        mint_keys_unique(self.mints@) && holding_keys_unique(self.holdings@)
    }

    /// A ledger with no accounts.
    pub fn new() -> (r: Ledger)
        ensures
            r.wf(),
            r@.mints == Map::<Seq<u8>, MintView>::empty(),
            r@.holdings == Map::<Seq<u8>, HoldingView>::empty(),
    {
        let r = Ledger { mints: Vec::new(), holdings: Vec::new() };
        assert(r@.mints =~= Map::<Seq<u8>, MintView>::empty());
        assert(r@.holdings =~= Map::<Seq<u8>, HoldingView>::empty());
        r
    }

    fn mint_index(&self, address: &Address) -> (r: Option<usize>)
        requires
            self.wf(),
        ensures
            match r {
                Some(i) => i < self.mints@.len() && self.mints@[i as int].address@ == address@,
                None => !self@.mints.contains_key(address@),
            },
    {
        let mut i: usize = 0;
        while i < self.mints.len()
            invariant
                i <= self.mints@.len(),
                forall|j: int| 0 <= j < i ==> self.mints@[j].address@ != address@,
            decreases self.mints@.len() - i,
        {
            if self.mints[i].address.same_as(address) {
                return Some(i);
            }
            i = i + 1;
        }
        None
    }

    fn holding_index(&self, address: &Address) -> (r: Option<usize>)
        requires
            self.wf(),
        ensures
            match r {
                Some(i) => i < self.holdings@.len() && self.holdings@[i as int].address@ == address@,
                None => !self@.holdings.contains_key(address@),
            },
    {
        let mut i: usize = 0;
        while i < self.holdings.len()
            invariant
                i <= self.holdings@.len(),
                forall|j: int| 0 <= j < i ==> self.holdings@[j].address@ != address@,
            decreases self.holdings@.len() - i,
        {
            if self.holdings[i].address.same_as(address) {
                return Some(i);
            }
            i = i + 1;
        }
        None
    }

    /// The mint record at `address`, if there is one.
    pub fn mint(&self, address: &Address) -> (r: Option<MintRecord>)
        requires
            self.wf(),
        ensures
            match r {
                Some(m) => {
                    &&& self@.mints.contains_key(address@)
                    &&& self@.mints[address@] == m@
                    &&& m.address@ == address@
                },
                None => !self@.mints.contains_key(address@),
            },
    {
        match self.mint_index(address) {
            Some(i) => {
                proof {
                    lemma_mint_map_at(self.mints@, i as int);
                }
                Some(self.mints[i])
            },
            None => None,
        }
    }

    /// The holding record at `address`, if there is one.
    pub fn holding(&self, address: &Address) -> (r: Option<HoldingRecord>)
        requires
            self.wf(),
        ensures
            match r {
                Some(h) => {
                    &&& self@.holdings.contains_key(address@)
                    &&& self@.holdings[address@] == h@
                    &&& h.address@ == address@
                },
                None => !self@.holdings.contains_key(address@),
            },
    {
        match self.holding_index(address) {
            Some(i) => {
                proof {
                    lemma_holding_map_at(self.holdings@, i as int);
                }
                Some(self.holdings[i])
            },
            None => None,
        }
    }

    /// Stores a mint record at its address, in place of any there.
    pub(crate) fn put_mint(&mut self, record: MintRecord)
        requires
            old(self).wf(),
        ensures
            final(self).wf(),
            final(self)@.mints == old(self)@.mints.insert(record.address@, record@),
            final(self)@.holdings == old(self)@.holdings,
    {
        match self.mint_index(&record.address) {
            Some(i) => {
                proof {
                    lemma_mint_map_update(self.mints@, i as int, record);
                }
                self.mints.set(i, record);
            },
            None => {
                proof {
                    lemma_mint_map_push(self.mints@, record);
                }
                self.mints.push(record);
            },
        }
    }

    /// Stores a holding record at its address, in place of any there.
    pub(crate) fn put_holding(&mut self, record: HoldingRecord)
        requires
            old(self).wf(),
        ensures
            final(self).wf(),
            final(self)@.holdings == old(self)@.holdings.insert(record.address@, record@),
            final(self)@.mints == old(self)@.mints,
    {
        match self.holding_index(&record.address) {
            Some(i) => {
                proof {
                    lemma_holding_map_update(self.holdings@, i as int, record);
                }
                self.holdings.set(i, record);
            },
            None => {
                proof {
                    lemma_holding_map_push(self.holdings@, record);
                }
                self.holdings.push(record);
            },
        }
    }
}

} // verus!
