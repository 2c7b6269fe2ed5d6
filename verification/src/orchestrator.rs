//! The mint-and-attest workflow: one invocation issues one unit of a fresh
//! mint to the caller's holding account, attaches a metadata record, and
//! seals the mint with a master edition record capped at zero further
//! editions.  The whole invocation applies atomically or not at all.

use vstd::prelude::*;

use crate::ledger::{
    AccountData, AccountV, Address, EditionRecord, Ledger, MetadataRecord, MetadataV, MintAccount,
    TokenHolding,
};

verus! {

/// Why an invocation was rejected.  Every failure leaves the world unchanged.
#[derive(Clone, Copy, Debug, PartialEq, Eq, Structural)]
pub enum MintError {
    /// The caller did not sign the transaction.
    MissingSignature,
    /// An account that had to be freshly created already exists.
    AccountAlreadyExists,
    /// The caller cannot pay the rent for the accounts to be created.
    InsufficientFunds,
    /// The token ledger rejected the issuance itself.
    IssuanceRejected,
}

/// The identities one invocation touches: the caller (payer, mint authority,
/// freeze authority and sole creator in one), whether the caller signed, and
/// the freshly chosen mint address.  Every other address is derived.
#[derive(Clone, Copy, Debug)]
pub struct MintNFT {
    pub authority: u64,
    pub authority_is_signer: bool,
    pub mint: u64,
}

/// The fixed name every minted token carries.
pub open spec fn nft_name() -> Seq<char> {
    "Xoxo NFT"@
}

/// The fixed symbol every minted token carries.
pub open spec fn nft_symbol() -> Seq<char> {
    "XOXO"@
}

/// The lamport balance of a wallet; a wallet that does not exist holds
/// nothing.
pub open spec fn balance_of(l: Map<Address, AccountV>, w: u64) -> u64 {
    if l.contains_key(Address::Wallet(w)) {
        match l[Address::Wallet(w)] {
            AccountV::Wallet { lamports } => lamports,
            _ => 0,
        }
    } else {
        0
    }
}

/// The units the holding account derived from (wallet, mint) already holds;
/// an absent holding account holds nothing.
pub open spec fn holding_amount(l: Map<Address, AccountV>, w: u64, m: u64) -> u64 {
    if l.contains_key(Address::Holding(w, m)) {
        match l[Address::Holding(w, m)] {
            AccountV::Holding { amount, .. } => amount,
            _ => 0,
        }
    } else {
        0
    }
}

/// How many accounts the invocation must create and fund: the mint, the
/// metadata record, the master edition record, and the holding account
/// unless it already exists (created-if-absent).
pub open spec fn accounts_created(l: Map<Address, AccountV>, w: u64, m: u64) -> int {
    if l.contains_key(Address::Holding(w, m)) {
        3
    } else {
        4
    }
}

/// The rent the caller owes for one invocation.
pub open spec fn rent_due(l: Map<Address, AccountV>, w: u64, m: u64, rent: u64) -> int {
    rent * accounts_created(l, w, m)
}

/// The world after a successful invocation: the caller's wallet debited by
/// the rent, the fresh sealed mint with supply 1, the credited holding
/// account, the metadata record with the fixed name and symbol, the
/// caller-supplied URI and the caller as sole verified creator with a 100%
/// share, and the master edition record capped at zero further editions.
pub open spec fn success_state(
    l: Map<Address, AccountV>,
    req: MintNFT,
    uri: Seq<char>,
    rent: u64,
) -> Map<Address, AccountV> {
    l.insert(
        Address::Wallet(req.authority),
        AccountV::Wallet {
            lamports: (balance_of(l, req.authority) - rent_due(l, req.authority, req.mint, rent)) as u64,
        },
    ).insert(
        Address::TokenMint(req.mint),
        AccountV::TokenMint {
            supply: 1,
            decimals: 0,
            authority: req.authority,
            freeze_authority: req.authority,
            sealed: true,
        },
    ).insert(
        Address::Holding(req.authority, req.mint),
        AccountV::Holding {
            mint: req.mint,
            owner: req.authority,
            amount: (holding_amount(l, req.authority, req.mint) + 1) as u64,
        },
    ).insert(
        Address::MetadataRecord(req.mint),
        AccountV::Metadata(
            MetadataV {
                mint: req.mint,
                update_authority: req.authority,
                name: nft_name(),
                symbol: nft_symbol(),
                uri,
                creator: req.authority,
                creator_verified: true,
                creator_share: 100,
                seller_fee_basis_points: 0,
                is_mutable: true,
            },
        ),
    ).insert(
        Address::MasterEdition(req.mint),
        AccountV::Edition { mint: req.mint, max_supply: 0 },
    )
}

/// What one invocation does to the world: either the success state, or the
/// error of the first step that rejects it.  The checks stand in the order
/// the steps run: the host verifies the signature before anything executes,
/// the mint must be freshly allocated, the caller must afford the rent for
/// everything the invocation creates, and the token ledger and the registry
/// each reject a delegated call whose target account is unusable.
pub open spec fn mint_outcome(
    l: Map<Address, AccountV>,
    req: MintNFT,
    uri: Seq<char>,
    rent: u64,
) -> Result<Map<Address, AccountV>, MintError> {
    if !req.authority_is_signer {
        Err(MintError::MissingSignature)
    } else if l.contains_key(Address::TokenMint(req.mint)) {
        Err(MintError::AccountAlreadyExists)
    } else if balance_of(l, req.authority) < rent_due(l, req.authority, req.mint, rent) {
        Err(MintError::InsufficientFunds)
    } else if holding_amount(l, req.authority, req.mint) == u64::MAX {
        Err(MintError::IssuanceRejected)
    } else if l.contains_key(Address::MetadataRecord(req.mint)) {
        Err(MintError::AccountAlreadyExists)
    } else if l.contains_key(Address::MasterEdition(req.mint)) {
        Err(MintError::AccountAlreadyExists)
    } else {
        Ok(success_state(l, req, uri, rent))
    }
}

/// The caller's wallet balance, read from the world.
fn read_balance(world: &Ledger, w: u64) -> (r: u64)
    requires
        world.wf(),
    ensures
        r == balance_of(world@, w),
{
    match world.get(&Address::Wallet(w)) {
        Some(acct) => match acct {
            AccountData::Wallet { lamports } => *lamports,
            _ => {
                proof {
                    world.lemma_wf_fits(Address::Wallet(w));
                }
                assert(false);
                0
            },
        },
        None => 0,
    }
}

/// The units already held by the holding account derived from (wallet, mint).
fn read_holding_amount(world: &Ledger, w: u64, m: u64) -> (r: u64)
    requires
        world.wf(),
    ensures
        r == holding_amount(world@, w, m),
{
    match world.get(&Address::Holding(w, m)) {
        Some(acct) => match acct {
            AccountData::Holding(h) => h.amount,
            _ => {
                proof {
                    world.lemma_wf_fits(Address::Holding(w, m));
                }
                assert(false);
                0
            },
        },
        None => 0,
    }
}

/// One mint request: create the mint, issue one unit to the caller's holding
/// account, attach the metadata record, and seal the master edition — all of
/// it, or nothing.  `rent` is the rent the host charges per created account.
pub fn mint_nft(world: &mut Ledger, accounts: &MintNFT, uri: String, rent: u64) -> (r: Result<
    (),
    MintError,
>)
    requires
        old(world).wf(),
    ensures
        final(world).wf(),
        match r {
            Ok(_) => mint_outcome(old(world)@, *accounts, uri@, rent) == Ok::<
                Map<Address, AccountV>,
                MintError,
            >(final(world)@),
            Err(e) => mint_outcome(old(world)@, *accounts, uri@, rent) == Err::<
                Map<Address, AccountV>,
                MintError,
            >(e) && final(world)@ == old(world)@,
        },
{
    let ghost l0 = world@;
    let ghost uri_v = uri@;
    if !accounts.authority_is_signer {
        return Err(MintError::MissingSignature);
    }
    if world.contains(&Address::TokenMint(accounts.mint)) {
        return Err(MintError::AccountAlreadyExists);
    }
    let balance = read_balance(world, accounts.authority);
    let holding_present = world.contains(&Address::Holding(accounts.authority, accounts.mint));
    let created: u64 = if holding_present {
        3
    } else {
        4
    };
    let due: u128 = (rent as u128) * (created as u128);
    proof {
        assert(due == rent_due(l0, accounts.authority, accounts.mint, rent));
    }
    if (balance as u128) < due {
        return Err(MintError::InsufficientFunds);
    }
    let prior = read_holding_amount(world, accounts.authority, accounts.mint);
    if prior == u64::MAX {
        return Err(MintError::IssuanceRejected);
    }
    if world.contains(&Address::MetadataRecord(accounts.mint)) {
        return Err(MintError::AccountAlreadyExists);
    }
    if world.contains(&Address::MasterEdition(accounts.mint)) {
        return Err(MintError::AccountAlreadyExists);
    }
    proof {
        assert(due <= u64::MAX);
    }
    let debit: u64 = due as u64;
    world.put(
        Address::Wallet(accounts.authority),
        AccountData::Wallet { lamports: balance - debit },
    );
    world.put(
        Address::TokenMint(accounts.mint),
        AccountData::TokenMint(
            MintAccount {
                supply: 1,
                decimals: 0,
                authority: accounts.authority,
                freeze_authority: accounts.authority,
                sealed: true,
            },
        ),
    );
    world.put(
        Address::Holding(accounts.authority, accounts.mint),
        AccountData::Holding(
            TokenHolding { mint: accounts.mint, owner: accounts.authority, amount: prior + 1 },
        ),
    );
    world.put(
        Address::MetadataRecord(accounts.mint),
        AccountData::Metadata(
            MetadataRecord {
                mint: accounts.mint,
                update_authority: accounts.authority,
                name: "Xoxo NFT".to_owned(),
                symbol: "XOXO".to_owned(),
                uri,
                creator: accounts.authority,
                creator_verified: true,
                creator_share: 100,
                seller_fee_basis_points: 0,
                is_mutable: true,
            },
        ),
    );
    world.put(
        Address::MasterEdition(accounts.mint),
        AccountData::Edition(EditionRecord { mint: accounts.mint, max_supply: 0 }),
    );
    proof {
        assert(world@ =~= success_state(l0, *accounts, uri_v, rent));
    }
    Ok(())
}

/// A successful invocation creates exactly one new mint (sealed, supply 1,
/// both authorities the caller), credits the holding account by one unit,
/// creates the metadata record and the master edition record, debits the
/// caller's wallet by the rent due — and touches no other account.
pub proof fn lemma_success_frame(l: Map<Address, AccountV>, req: MintNFT, uri: Seq<char>, rent: u64)
    requires
        mint_outcome(l, req, uri, rent) is Ok,
    ensures
        ({
            let l2 = mint_outcome(l, req, uri, rent)->Ok_0;
            &&& !l.contains_key(Address::TokenMint(req.mint))
            &&& l2.contains_key(Address::TokenMint(req.mint))
            &&& l2[Address::TokenMint(req.mint)] == (AccountV::TokenMint {
                supply: 1,
                decimals: 0,
                authority: req.authority,
                freeze_authority: req.authority,
                sealed: true,
            })
            &&& l2[Address::Holding(req.authority, req.mint)] == (AccountV::Holding {
                mint: req.mint,
                owner: req.authority,
                amount: (holding_amount(l, req.authority, req.mint) + 1) as u64,
            })
            &&& !l.contains_key(Address::Holding(req.authority, req.mint))
                ==> l2[Address::Holding(req.authority, req.mint)] == (AccountV::Holding {
                mint: req.mint,
                owner: req.authority,
                amount: 1,
            })
            &&& l2[Address::MetadataRecord(req.mint)] == AccountV::Metadata(
                MetadataV {
                    mint: req.mint,
                    update_authority: req.authority,
                    name: nft_name(),
                    symbol: nft_symbol(),
                    uri,
                    creator: req.authority,
                    creator_verified: true,
                    creator_share: 100,
                    seller_fee_basis_points: 0,
                    is_mutable: true,
                },
            )
            &&& l2[Address::MasterEdition(req.mint)] == (AccountV::Edition {
                mint: req.mint,
                max_supply: 0,
            })
            &&& l2[Address::Wallet(req.authority)] == (AccountV::Wallet {
                lamports: (balance_of(l, req.authority) - rent_due(
                    l,
                    req.authority,
                    req.mint,
                    rent,
                )) as u64,
            })
            &&& forall|a: Address|
                a != Address::Wallet(req.authority) && a != Address::TokenMint(req.mint)
                    && a != Address::Holding(req.authority, req.mint) && a
                    != Address::MetadataRecord(req.mint) && a != Address::MasterEdition(req.mint)
                    ==> #[trigger] l2.contains_key(a) == l.contains_key(a) && (l.contains_key(a)
                    ==> l2[a] == l[a])
        }),
{
}

/// Re-invoking with a mint address that already exists always fails with the
/// account-already-exists condition, whatever else the world holds.
pub proof fn lemma_existing_mint_rejected(
    l: Map<Address, AccountV>,
    req: MintNFT,
    uri: Seq<char>,
    rent: u64,
)
    requires
        req.authority_is_signer,
        l.contains_key(Address::TokenMint(req.mint)),
    ensures
        mint_outcome(l, req, uri, rent) == Err::<Map<Address, AccountV>, MintError>(
            MintError::AccountAlreadyExists,
        ),
{
}

/// After a successful invocation, a second signed invocation naming the same
/// mint address always fails with the account-already-exists condition — for
/// any caller, URI and rent the second time around.
pub proof fn lemma_reinvoke_same_mint_rejected(
    l: Map<Address, AccountV>,
    req: MintNFT,
    uri: Seq<char>,
    rent: u64,
    req2: MintNFT,
    uri2: Seq<char>,
    rent2: u64,
)
    requires
        mint_outcome(l, req, uri, rent) is Ok,
        req2.mint == req.mint,
        req2.authority_is_signer,
    ensures
        mint_outcome(mint_outcome(l, req, uri, rent)->Ok_0, req2, uri2, rent2) == Err::<
            Map<Address, AccountV>,
            MintError,
        >(MintError::AccountAlreadyExists),
{
    let l2 = mint_outcome(l, req, uri, rent)->Ok_0;
    assert(l2.contains_key(Address::TokenMint(req2.mint)));
    lemma_existing_mint_rejected(l2, req2, uri2, rent2);
}

/// An invocation the caller did not sign is rejected before anything runs.
pub proof fn lemma_unsigned_rejected(
    l: Map<Address, AccountV>,
    req: MintNFT,
    uri: Seq<char>,
    rent: u64,
)
    requires
        !req.authority_is_signer,
    ensures
        mint_outcome(l, req, uri, rent) == Err::<Map<Address, AccountV>, MintError>(
            MintError::MissingSignature,
        ),
{
}

/// A caller who cannot pay the rent for everything the invocation creates
/// never reaches the success state: the invocation fails, whichever check
/// rejects it first.
pub proof fn lemma_underfunded_rejected(
    l: Map<Address, AccountV>,
    req: MintNFT,
    uri: Seq<char>,
    rent: u64,
)
    requires
        balance_of(l, req.authority) < rent_due(l, req.authority, req.mint, rent),
    ensures
        mint_outcome(l, req, uri, rent) is Err,
{
}

/// The master edition record a successful invocation creates always caps
/// further editions at zero, the mint comes out sealed, and no other mint's
/// master edition record is touched.
pub proof fn lemma_edition_capped_at_zero(
    l: Map<Address, AccountV>,
    req: MintNFT,
    uri: Seq<char>,
    rent: u64,
)
    requires
        mint_outcome(l, req, uri, rent) is Ok,
    ensures
        ({
            let l2 = mint_outcome(l, req, uri, rent)->Ok_0;
            &&& l2[Address::MasterEdition(req.mint)] == (AccountV::Edition {
                mint: req.mint,
                max_supply: 0,
            })
            &&& l2[Address::TokenMint(req.mint)] matches AccountV::TokenMint { sealed, .. }
                && sealed
            &&& forall|m: u64|
                m != req.mint ==> #[trigger] l2.contains_key(Address::MasterEdition(m))
                    == l.contains_key(Address::MasterEdition(m)) && (l.contains_key(
                    Address::MasterEdition(m),
                ) ==> l2[Address::MasterEdition(m)] == l[Address::MasterEdition(m)])
        }),
{
}

} // verus!

