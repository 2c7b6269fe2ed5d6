use xoxo_nft::ledger::{AccountData, Address, Ledger, MetadataRecord, TokenHolding};
use xoxo_nft::orchestrator::{mint_nft, MintError, MintNFT};
use xoxo_nft::plan::mint_nft_plan;

fn funded_world(wallet: u64, lamports: u64) -> Ledger {
    let mut world = Ledger::new();
    world.put(Address::Wallet(wallet), AccountData::Wallet { lamports });
    world
}

fn request(authority: u64, mint: u64) -> MintNFT {
    MintNFT { authority, authority_is_signer: true, mint }
}

#[test]
fn mints_one_nft_for_funded_caller() {
    let mut world = funded_world(1, 1000);
    let r = mint_nft(&mut world, &request(1, 7), "https://example.com/meta.json".to_string(), 10);
    assert_eq!(r, Ok(()));

    let mint = world.get_mint(7).expect("the mint exists");
    assert_eq!(mint.supply, 1);
    assert_eq!(mint.decimals, 0);
    assert_eq!(mint.authority, 1);
    assert_eq!(mint.freeze_authority, 1);
    assert!(mint.sealed);

    let holding = world.get_holding(1, 7).expect("the holding account exists");
    assert_eq!(holding.amount, 1);
    assert_eq!(holding.owner, 1);
    assert_eq!(holding.mint, 7);

    let md = world.get_metadata(7).expect("the metadata record exists");
    assert_eq!(md.name, "Xoxo NFT");
    assert_eq!(md.symbol, "XOXO");
    assert_eq!(md.uri, "https://example.com/meta.json");
    assert_eq!(md.creator, 1);
    assert!(md.creator_verified);
    assert_eq!(md.creator_share, 100);
    assert_eq!(md.seller_fee_basis_points, 0);
    assert!(md.is_mutable);
    assert_eq!(md.update_authority, 1);
    assert_eq!(md.mint, 7);

    let edition = world.get_edition(7).expect("the master edition record exists");
    assert_eq!(edition.max_supply, 0);
    assert_eq!(edition.mint, 7);

    // Four fresh accounts were paid for: mint, holding, metadata, edition.
    assert_eq!(world.get_wallet(1), Some(960));
}

#[test]
fn reinvoking_same_mint_fails_and_changes_nothing() {
    let mut world = funded_world(1, 1000);
    assert_eq!(mint_nft(&mut world, &request(1, 7), "uri-a".to_string(), 10), Ok(()));

    let r = mint_nft(&mut world, &request(1, 7), "uri-b".to_string(), 10);
    assert_eq!(r, Err(MintError::AccountAlreadyExists));

    // The first invocation's state is untouched.
    assert_eq!(world.get_mint(7).unwrap().supply, 1);
    assert_eq!(world.get_holding(1, 7).unwrap().amount, 1);
    assert_eq!(world.get_metadata(7).unwrap().uri, "uri-a");
    assert_eq!(world.get_wallet(1), Some(960));
}

#[test]
fn another_caller_reusing_the_mint_fails() {
    let mut world = funded_world(1, 1000);
    world.put(Address::Wallet(2), AccountData::Wallet { lamports: 1000 });
    assert_eq!(mint_nft(&mut world, &request(1, 7), "uri-a".to_string(), 10), Ok(()));

    let r = mint_nft(&mut world, &request(2, 7), "uri-c".to_string(), 10);
    assert_eq!(r, Err(MintError::AccountAlreadyExists));
    assert_eq!(world.get_wallet(2), Some(1000));
}

#[test]
fn unsigned_invocation_creates_nothing() {
    let mut world = funded_world(1, 1000);
    let req = MintNFT { authority: 1, authority_is_signer: false, mint: 7 };
    let r = mint_nft(&mut world, &req, "uri".to_string(), 10);
    assert_eq!(r, Err(MintError::MissingSignature));

    assert!(world.get_mint(7).is_none());
    assert!(world.get_holding(1, 7).is_none());
    assert!(world.get_metadata(7).is_none());
    assert!(world.get_edition(7).is_none());
    assert_eq!(world.get_wallet(1), Some(1000));
}

#[test]
fn underfunded_invocation_creates_nothing() {
    // Four accounts at 10 lamports each need 40; the caller holds 39.
    let mut world = funded_world(1, 39);
    let r = mint_nft(&mut world, &request(1, 7), "uri".to_string(), 10);
    assert_eq!(r, Err(MintError::InsufficientFunds));

    assert!(world.get_mint(7).is_none());
    assert!(world.get_holding(1, 7).is_none());
    assert!(world.get_metadata(7).is_none());
    assert!(world.get_edition(7).is_none());
    assert_eq!(world.get_wallet(1), Some(39));
}

#[test]
fn absent_caller_wallet_cannot_pay() {
    let mut world = Ledger::new();
    let r = mint_nft(&mut world, &request(1, 7), "uri".to_string(), 10);
    assert_eq!(r, Err(MintError::InsufficientFunds));
    assert!(world.get_mint(7).is_none());
}

#[test]
fn existing_holding_account_is_credited_not_recreated() {
    let mut world = funded_world(1, 1000);
    world.put(
        Address::Holding(1, 7),
        AccountData::Holding(TokenHolding { mint: 7, owner: 1, amount: 5 }),
    );
    let r = mint_nft(&mut world, &request(1, 7), "uri".to_string(), 10);
    assert_eq!(r, Ok(()));

    assert_eq!(world.get_holding(1, 7).unwrap().amount, 6);
    // Only three fresh accounts were paid for this time.
    assert_eq!(world.get_wallet(1), Some(970));
}

#[test]
fn overfull_holding_account_rejects_issuance() {
    let mut world = funded_world(1, 1000);
    world.put(
        Address::Holding(1, 7),
        AccountData::Holding(TokenHolding { mint: 7, owner: 1, amount: u64::MAX }),
    );
    let r = mint_nft(&mut world, &request(1, 7), "uri".to_string(), 10);
    assert_eq!(r, Err(MintError::IssuanceRejected));
    assert_eq!(world.get_holding(1, 7).unwrap().amount, u64::MAX);
    assert_eq!(world.get_wallet(1), Some(1000));
    assert!(world.get_mint(7).is_none());
}

#[test]
fn existing_metadata_record_is_rejected() {
    let mut world = funded_world(1, 1000);
    world.put(
        Address::MetadataRecord(7),
        AccountData::Metadata(MetadataRecord {
            mint: 7,
            update_authority: 9,
            name: "Other".to_string(),
            symbol: "OTH".to_string(),
            uri: "elsewhere".to_string(),
            creator: 9,
            creator_verified: false,
            creator_share: 0,
            seller_fee_basis_points: 0,
            is_mutable: false,
        }),
    );
    let r = mint_nft(&mut world, &request(1, 7), "uri".to_string(), 10);
    assert_eq!(r, Err(MintError::AccountAlreadyExists));
    assert!(world.get_mint(7).is_none());
    assert_eq!(world.get_metadata(7).unwrap().name, "Other");
    assert_eq!(world.get_wallet(1), Some(1000));
}

#[test]
fn distinct_mints_coexist() {
    let mut world = funded_world(1, 1000);
    assert_eq!(mint_nft(&mut world, &request(1, 7), "uri-7".to_string(), 10), Ok(()));
    assert_eq!(mint_nft(&mut world, &request(1, 8), "uri-8".to_string(), 10), Ok(()));

    assert_eq!(world.get_mint(7).unwrap().supply, 1);
    assert_eq!(world.get_mint(8).unwrap().supply, 1);
    assert_eq!(world.get_metadata(7).unwrap().uri, "uri-7");
    assert_eq!(world.get_metadata(8).unwrap().uri, "uri-8");
    assert_eq!(world.get_wallet(1), Some(920));
}

#[test]
fn plan_is_three_ordered_instructions() {
    let caller = [1u8; 32];
    let mint = [2u8; 32];
    let plan = mint_nft_plan(&caller, &mint, "https://example.com/meta.json");
    assert_eq!(plan.len(), 3);

    // Step 1 goes to the token ledger, steps 2 and 3 to the metadata registry.
    assert_ne!(plan[0].program, plan[1].program);
    assert_eq!(plan[1].program, plan[2].program);
    assert_eq!(plan[0].program, spl_token::id().to_bytes().to_vec());
    assert_eq!(plan[1].program, mpl_token_metadata::ID.to_bytes().to_vec());

    // Issue exactly one unit: the token ledger's mint-to opcode and amount 1.
    assert_eq!(plan[0].data, vec![7u8, 1, 0, 0, 0, 0, 0, 0, 0]);
    // The registry's create-metadata opcode, and the full create-master-edition
    // payload: its opcode, the some-tag, and the zero cap's little-endian bytes.
    assert_eq!(plan[1].data[0], 33);
    assert_eq!(plan[2].data, vec![17u8, 1, 0, 0, 0, 0, 0, 0, 0, 0]);
    // The metadata payload carries the fixed name.
    let name_bytes = "Xoxo NFT".as_bytes();
    assert!(plan[1].data.windows(name_bytes.len()).any(|w| w == name_bytes));
}

#[test]
fn plan_derives_fresh_addresses_and_caller_signs() {
    let caller = [1u8; 32];
    let mint = [2u8; 32];
    let plan = mint_nft_plan(&caller, &mint, "uri");

    // The issuance touches the mint, the derived holding account, and the
    // caller as sole signer.
    assert_eq!(plan[0].accounts.len(), 3);
    assert_eq!(plan[0].accounts[0].addr, mint.to_vec());
    let holding = plan[0].accounts[1].addr.clone();
    assert_eq!(holding.len(), 32);
    assert_ne!(holding, caller.to_vec());
    assert_ne!(holding, mint.to_vec());
    assert!(plan[0].accounts[2].signer);
    assert_eq!(plan[0].accounts[2].addr, caller.to_vec());

    // The derived metadata and edition addresses are fresh and distinct.
    let metadata = plan[1].accounts[0].addr.clone();
    let edition = plan[2].accounts[0].addr.clone();
    assert_eq!(metadata.len(), 32);
    assert_eq!(edition.len(), 32);
    assert_ne!(metadata, edition);
    assert_ne!(metadata, mint.to_vec());
    assert_ne!(edition, mint.to_vec());
    assert_ne!(metadata, holding);

    // The caller signs the metadata call (authority, payer, update authority)
    // and the edition call (update authority, mint authority, payer).
    for i in [2, 3, 4] {
        assert!(plan[1].accounts[i].signer);
        assert_eq!(plan[1].accounts[i].addr, caller.to_vec());
        assert!(plan[2].accounts[i].signer);
        assert_eq!(plan[2].accounts[i].addr, caller.to_vec());
    }

    // The edition call references the derived metadata record.
    assert_eq!(plan[2].accounts[5].addr, metadata);
}
