//! The on-chain account model that the orchestrator works against.
//!
//! The host keeps every account under a unique address.  Addresses are either
//! plain wallet addresses or deterministic derivations: the holding account is
//! derived from the owning wallet and the mint, and the metadata and master
//! edition records are derived from the mint alone.  Modelling each derivation
//! as its own constructor makes the derivation scheme injective by
//! construction: two distinct derivations can never collide.

use vstd::prelude::*;

verus! {

/// An on-chain address.  Wallets carry their own identity; every other
/// address is the deterministic derivation the host's addressing scheme
/// assigns to it.
#[derive(Clone, Copy, Debug, PartialEq, Eq, Structural)]
pub enum Address {
    /// A wallet, identified by its public key.
    Wallet(u64),
    /// A freshly allocated token mint.
    TokenMint(u64),
    /// The holding account derived from (wallet, mint).
    Holding(u64, u64),
    /// The metadata record derived from the mint.
    MetadataRecord(u64),
    /// The master edition record derived from the mint.
    MasterEdition(u64),
}

/// A token mint: supply, decimals and the authorities that may act on it.
#[derive(Clone, Copy, Debug)]
pub struct MintAccount {
    pub supply: u64,
    pub decimals: u8,
    pub authority: u64,
    pub freeze_authority: u64,
    /// Once the master edition record is created, the authority to issue
    /// further supply is revoked for good.
    pub sealed: bool,
}

/// A token balance record binding a wallet to a mint.
#[derive(Clone, Copy, Debug)]
pub struct TokenHolding {
    pub mint: u64,
    pub owner: u64,
    pub amount: u64,
}

/// The descriptive record the metadata registry attaches to a mint.
#[derive(Debug)]
pub struct MetadataRecord {
    pub mint: u64,
    pub update_authority: u64,
    pub name: String,
    pub symbol: String,
    pub uri: String,
    pub creator: u64,
    pub creator_verified: bool,
    pub creator_share: u8,
    pub seller_fee_basis_points: u16,
    pub is_mutable: bool,
}

/// The record capping how many further editions of the mint may be printed.
#[derive(Clone, Copy, Debug)]
pub struct EditionRecord {
    pub mint: u64,
    pub max_supply: u64,
}

/// The contents of one account.
#[derive(Debug)]
pub enum AccountData {
    Wallet { lamports: u64 },
    TokenMint(MintAccount),
    Holding(TokenHolding),
    Metadata(MetadataRecord),
    Edition(EditionRecord),
}

/// The mathematical image of a metadata record.
#[verifier::ext_equal]
pub struct MetadataV {
    pub mint: u64,
    pub update_authority: u64,
    pub name: Seq<char>,
    pub symbol: Seq<char>,
    pub uri: Seq<char>,
    pub creator: u64,
    pub creator_verified: bool,
    pub creator_share: u8,
    pub seller_fee_basis_points: u16,
    pub is_mutable: bool,
}

/// The mathematical image of one account.
pub enum AccountV {
    Wallet { lamports: u64 },
    TokenMint { supply: u64, decimals: u8, authority: u64, freeze_authority: u64, sealed: bool },
    Holding { mint: u64, owner: u64, amount: u64 },
    Metadata(MetadataV),
    Edition { mint: u64, max_supply: u64 },
}

impl View for MetadataRecord {
    type V = MetadataV;

    open spec fn view(&self) -> MetadataV {
        MetadataV {
            mint: self.mint,
            update_authority: self.update_authority,
            name: self.name@,
            symbol: self.symbol@,
            uri: self.uri@,
            creator: self.creator,
            creator_verified: self.creator_verified,
            creator_share: self.creator_share,
            seller_fee_basis_points: self.seller_fee_basis_points,
            is_mutable: self.is_mutable,
        }
    }
}

impl View for AccountData {
    type V = AccountV;

    open spec fn view(&self) -> AccountV {
        match self {
            AccountData::Wallet { lamports } => AccountV::Wallet { lamports: *lamports },
            AccountData::TokenMint(m) => AccountV::TokenMint {
                supply: m.supply,
                decimals: m.decimals,
                authority: m.authority,
                freeze_authority: m.freeze_authority,
                sealed: m.sealed,
            },
            AccountData::Holding(h) => AccountV::Holding {
                mint: h.mint,
                owner: h.owner,
                amount: h.amount,
            },
            AccountData::Metadata(md) => AccountV::Metadata(md@),
            AccountData::Edition(e) => AccountV::Edition { mint: e.mint, max_supply: e.max_supply },
        }
    }
}

/// An address may only hold the kind of account its derivation promises, and
/// a derived account must point back at the identities it was derived from.
pub open spec fn fits(a: Address, v: AccountV) -> bool {
    match a {
        Address::Wallet(_) => v is Wallet,
        Address::TokenMint(_) => v is TokenMint,
        Address::Holding(w, m) => v matches AccountV::Holding { mint, owner, .. } && owner == w
            && mint == m,
        Address::MetadataRecord(m) => v matches AccountV::Metadata(md) && md.mint == m,
        Address::MasterEdition(m) => v matches AccountV::Edition { mint, .. } && mint == m,
    }
}

/// The map an association list of accounts denotes, later entries shadowing
/// earlier ones.
pub closed spec fn entries_to_map(s: Seq<(Address, AccountData)>) -> Map<Address, AccountV>
    decreases s.len(),
{
    if s.len() == 0 {
        Map::empty()
    } else {
        entries_to_map(s.drop_last()).insert(s.last().0, s.last().1@)
    }
}

pub open spec fn keys_distinct(s: Seq<(Address, AccountData)>) -> bool {
    forall|i: int, j: int| 0 <= i < j < s.len() ==> (#[trigger] s[i]).0 != (#[trigger] s[j]).0
}

proof fn lemma_entries_map_domain(s: Seq<(Address, AccountData)>, a: Address)
    ensures
        entries_to_map(s).contains_key(a) <==> exists|i: int|
            0 <= i < s.len() && (#[trigger] s[i]).0 == a,
    decreases s.len(),
{
    if s.len() > 0 {
        lemma_entries_map_domain(s.drop_last(), a);
        if s.last().0 == a {
            assert(s[s.len() - 1].0 == a);
        } else {
            if entries_to_map(s).contains_key(a) {
                let i = choose|i: int| 0 <= i < s.drop_last().len() && (#[trigger] s.drop_last()[i]).0 == a;
                assert(s[i].0 == a);
            }
            if exists|i: int| 0 <= i < s.len() && (#[trigger] s[i]).0 == a {
                let i = choose|i: int| 0 <= i < s.len() && (#[trigger] s[i]).0 == a;
                assert(i < s.len() - 1);
                assert(s.drop_last()[i].0 == a);
            }
        }
    }
}

proof fn lemma_entries_map_index(s: Seq<(Address, AccountData)>, i: int)
    requires
        keys_distinct(s),
        0 <= i < s.len(),
    ensures
        entries_to_map(s).contains_key(s[i].0),
        entries_to_map(s)[s[i].0] == s[i].1@,
    decreases s.len(),
{
    if i < s.len() - 1 {
        assert(keys_distinct(s.drop_last()));
        lemma_entries_map_index(s.drop_last(), i);
        assert(s.drop_last()[i] == s[i]);
        assert(s.last().0 != s[i].0);
    }
}

proof fn lemma_entries_map_update(s: Seq<(Address, AccountData)>, i: int, acct: AccountData)
    requires
        keys_distinct(s),
        0 <= i < s.len(),
    ensures
        entries_to_map(s.update(i, (s[i].0, acct))) == entries_to_map(s).insert(s[i].0, acct@),
    decreases s.len(),
{
    let t = s.update(i, (s[i].0, acct));
    if i == s.len() - 1 {
        assert(t.drop_last() =~= s.drop_last());
        assert(t.last() == (s[i].0, acct));
        assert(entries_to_map(t) == entries_to_map(s.drop_last()).insert(s[i].0, acct@));
        assert(entries_to_map(s.drop_last()).insert(s[i].0, acct@) =~= entries_to_map(
            s,
        ).insert(s[i].0, acct@));
    } else {
        assert(keys_distinct(s.drop_last()));
        assert(s.drop_last()[i] == s[i]);
        lemma_entries_map_update(s.drop_last(), i, acct);
        assert(t.drop_last() =~= s.drop_last().update(i, (s[i].0, acct)));
        assert(t.last() == s.last());
        assert(entries_to_map(t) == entries_to_map(s.drop_last()).insert(s[i].0, acct@).insert(
            s.last().0,
            s.last().1@,
        ));
        assert(s.last().0 != s[i].0);
        assert(entries_to_map(s.drop_last()).insert(s[i].0, acct@).insert(s.last().0, s.last().1@)
            =~= entries_to_map(s).insert(s[i].0, acct@));
    }
}

/// The host's account store: every account the world holds, by address.
pub struct Ledger {
    entries: Vec<(Address, AccountData)>,
}

impl View for Ledger {
    type V = Map<Address, AccountV>;

    closed spec fn view(&self) -> Map<Address, AccountV> {
        entries_to_map(self.entries@)
    }
}

impl Ledger {
    /// Every address appears at most once, and every account is of the kind
    /// its address promises.
    pub closed spec fn wf(&self) -> bool {
        &&& keys_distinct(self.entries@)
        &&& forall|i: int|
            0 <= i < self.entries@.len() ==> fits(
                (#[trigger] self.entries@[i]).0,
                self.entries@[i].1@,
            )
    }

    /// A well-formed ledger only holds accounts that fit their address.
    pub proof fn lemma_wf_fits(&self, a: Address)
        requires
            self.wf(),
            self@.contains_key(a),
        ensures
            fits(a, self@[a]),
    {
        lemma_entries_map_domain(self.entries@, a);
        let i = choose|i: int| 0 <= i < self.entries@.len() && (#[trigger] self.entries@[i]).0 == a;
        lemma_entries_map_index(self.entries@, i);
    }

    /// An empty world.
    pub fn new() -> (r: Ledger)
        ensures
            r@ == Map::<Address, AccountV>::empty(),
            r.wf(),
    {
        Ledger { entries: Vec::new() }
    }

    fn find(&self, a: &Address) -> (r: Option<usize>)
        ensures
            match r {
                Some(i) => i < self.entries@.len() && self.entries@[i as int].0 == *a,
                None => forall|j: int|
                    0 <= j < self.entries@.len() ==> (#[trigger] self.entries@[j]).0 != *a,
            },
    {
        let mut i: usize = 0;
        while i < self.entries.len()
            invariant
                i <= self.entries@.len(),
                forall|j: int| 0 <= j < i ==> (#[trigger] self.entries@[j]).0 != *a,
            decreases self.entries@.len() - i,
        {
            if self.entries[i].0 == *a {
                return Some(i);
            }
            i = i + 1;
        }
        None
    }

    /// Whether any account lives at the given address.
    pub fn contains(&self, a: &Address) -> (r: bool)
        ensures
            r == self@.contains_key(*a),
    {
        proof {
            lemma_entries_map_domain(self.entries@, *a);
        }
        self.find(a).is_some()
    }

    /// The account at the given address, if any.
    pub fn get(&self, a: &Address) -> (r: Option<&AccountData>)
        requires
            self.wf(),
        ensures
            match r {
                Some(acct) => self@.contains_key(*a) && acct@ == self@[*a],
                None => !self@.contains_key(*a),
            },
    {
        proof {
            lemma_entries_map_domain(self.entries@, *a);
        }
        match self.find(a) {
            Some(i) => {
                proof {
                    lemma_entries_map_index(self.entries@, i as int);
                }
                Some(&self.entries[i].1)
            },
            None => None,
        }
    }

    /// Write an account at an address, creating it if absent.  This is the
    /// host's primitive for committing one account's new state.
    pub fn put(&mut self, a: Address, acct: AccountData)
        requires
            old(self).wf(),
            fits(a, acct@),
        ensures
            final(self).wf(),
            final(self)@ == old(self)@.insert(a, acct@),
    {
        let ghost s0 = self.entries@;
        match self.find(&a) {
            Some(i) => {
                proof {
                    lemma_entries_map_update(s0, i as int, acct);
                }
                self.entries[i] = (a, acct);
                assert(self.entries@ =~= s0.update(i as int, (s0[i as int].0, acct)));
                assert forall|p: int, q: int| 0 <= p < q < self.entries@.len() implies (
                #[trigger] self.entries@[p]).0 != (#[trigger] self.entries@[q]).0 by {
                    assert(s0[p].0 != s0[q].0);
                }
            },
            None => {
                self.entries.push((a, acct));
                proof {
                    assert(self.entries@.drop_last() =~= s0);
                    assert(self.entries@.last() == (a, acct));
                    assert(entries_to_map(self.entries@) == entries_to_map(s0).insert(a, acct@));
                }
            },
        }
    }

    /// The mint account at the given mint address, if any.
    pub fn get_mint(&self, mint: u64) -> (r: Option<MintAccount>)
        requires
            self.wf(),
        ensures
            match r {
                Some(m) => self@.contains_key(Address::TokenMint(mint)) && self@[Address::TokenMint(
                    mint,
                )] == (AccountV::TokenMint {
                    supply: m.supply,
                    decimals: m.decimals,
                    authority: m.authority,
                    freeze_authority: m.freeze_authority,
                    sealed: m.sealed,
                }),
                None => !self@.contains_key(Address::TokenMint(mint)),
            },
    {
        match self.get(&Address::TokenMint(mint)) {
            Some(acct) => match acct {
                AccountData::TokenMint(m) => Some(*m),
                _ => {
                    proof {
                        self.lemma_wf_fits(Address::TokenMint(mint));
                    }
                    assert(false);
                    None
                },
            },
            None => None,
        }
    }

    /// The holding account derived from (owner, mint), if any.
    pub fn get_holding(&self, owner: u64, mint: u64) -> (r: Option<TokenHolding>)
        requires
            self.wf(),
        ensures
            match r {
                Some(h) => self@.contains_key(Address::Holding(owner, mint)) && self@[
                    Address::Holding(owner, mint)
                ] == (AccountV::Holding { mint: h.mint, owner: h.owner, amount: h.amount }),
                None => !self@.contains_key(Address::Holding(owner, mint)),
            },
    {
        match self.get(&Address::Holding(owner, mint)) {
            Some(acct) => match acct {
                AccountData::Holding(h) => Some(*h),
                _ => {
                    proof {
                        self.lemma_wf_fits(Address::Holding(owner, mint));
                    }
                    assert(false);
                    None
                },
            },
            None => None,
        }
    }

    /// The metadata record derived from the mint, if any.
    pub fn get_metadata(&self, mint: u64) -> (r: Option<&MetadataRecord>)
        requires
            self.wf(),
        ensures
            match r {
                Some(md) => self@.contains_key(Address::MetadataRecord(mint)) && self@[
                    Address::MetadataRecord(mint)
                ] == AccountV::Metadata(md@),
                None => !self@.contains_key(Address::MetadataRecord(mint)),
            },
    {
        match self.get(&Address::MetadataRecord(mint)) {
            Some(acct) => match acct {
                AccountData::Metadata(md) => Some(md),
                _ => {
                    proof {
                        self.lemma_wf_fits(Address::MetadataRecord(mint));
                    }
                    assert(false);
                    None
                },
            },
            None => None,
        }
    }

    /// The master edition record derived from the mint, if any.
    pub fn get_edition(&self, mint: u64) -> (r: Option<EditionRecord>)
        requires
            self.wf(),
        ensures
            match r {
                Some(e) => self@.contains_key(Address::MasterEdition(mint)) && self@[
                    Address::MasterEdition(mint)
                ] == (AccountV::Edition { mint: e.mint, max_supply: e.max_supply }),
                None => !self@.contains_key(Address::MasterEdition(mint)),
            },
    {
        match self.get(&Address::MasterEdition(mint)) {
            Some(acct) => match acct {
                AccountData::Edition(e) => Some(*e),
                _ => {
                    proof {
                        self.lemma_wf_fits(Address::MasterEdition(mint));
                    }
                    assert(false);
                    None
                },
            },
            None => None,
        }
    }

    /// The lamports the wallet at the given address holds, if the wallet
    /// exists.
    pub fn get_wallet(&self, wallet: u64) -> (r: Option<u64>)
        requires
            self.wf(),
        ensures
            match r {
                Some(lamports) => self@.contains_key(Address::Wallet(wallet)) && self@[
                    Address::Wallet(wallet)
                ] == (AccountV::Wallet { lamports }),
                None => !self@.contains_key(Address::Wallet(wallet)),
            },
    {
        match self.get(&Address::Wallet(wallet)) {
            Some(acct) => match acct {
                AccountData::Wallet { lamports } => Some(*lamports),
                _ => {
                    proof {
                        self.lemma_wf_fits(Address::Wallet(wallet));
                    }
                    assert(false);
                    None
                },
            },
            None => None,
        }
    }
}

} // verus!
