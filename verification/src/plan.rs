//! The concrete delegated calls of one invocation, built through the token
//! ledger's and the metadata registry's own published interfaces.  The
//! orchestrator issues exactly three instructions, in a fixed order: issue
//! one unit of the mint, attach the metadata record, seal the master
//! edition.  Address derivation and instruction encoding are the external
//! authorities' own; each is called behind a trusted wrapper and named, and
//! the verified planner pins the order and every argument handed over.

use vstd::prelude::*;

use crate::orchestrator::{nft_name, nft_symbol};
use mpl_token_metadata::accounts::{MasterEdition, Metadata};
use mpl_token_metadata::instructions::{
    CreateMasterEditionV3, CreateMasterEditionV3InstructionArgs, CreateMetadataAccountV3,
    CreateMetadataAccountV3InstructionArgs,
};
use mpl_token_metadata::types::{Creator, DataV2};
use solana_program::pubkey::Pubkey;
use solana_program::system_program::id as system_id;
use vstd::bytes::spec_u64_to_le_bytes;
use vstd::slice::slice_to_vec;

verus! {

/// One account a delegated instruction touches: its 32-byte address, whether
/// it must sign, and whether it may be written.
pub struct AccountRef {
    pub addr: Vec<u8>,
    pub signer: bool,
    pub writable: bool,
}

impl View for AccountRef {
    type V = (Seq<u8>, bool, bool);

    open spec fn view(&self) -> (Seq<u8>, bool, bool) {
        (self.addr@, self.signer, self.writable)
    }
}

/// One instruction ready to hand to the host: the program to run, the
/// accounts it touches in order, and its serialized data.
pub struct InstructionPlan {
    pub program: Vec<u8>,
    pub accounts: Vec<AccountRef>,
    pub data: Vec<u8>,
}

impl View for InstructionPlan {
    type V = (Seq<u8>, Seq<(Seq<u8>, bool, bool)>, Seq<u8>);

    open spec fn view(&self) -> (Seq<u8>, Seq<(Seq<u8>, bool, bool)>, Seq<u8>) {
        (self.program@, self.accounts@.map_values(|a: AccountRef| a@), self.data@)
    }
}

/// One converted account entry of a host instruction.
fn meta_ref(addr: &[u8; 32], signer: bool, writable: bool) -> (r: AccountRef)
    ensures
        r@ == (addr@, signer, writable),
{
    AccountRef { addr: slice_to_vec(addr.as_slice()), signer, writable }
}

/// The token ledger program's key (base58
/// TokenkegQfeZyiNwAJbNbGKPFXCWuBvf9Ss623VQ5DA).
pub open spec fn token_program_key() -> Seq<u8> {
    seq![6u8, 221, 246, 225, 215, 101, 161, 147, 217, 203, 225, 70, 206, 235, 121, 172, 28, 180,
        133, 237, 95, 91, 55, 145, 58, 140, 245, 133, 126, 255, 0, 169]
}

/// The metadata registry program's key (base58
/// metaqbxxUerdq28cj1RbAWkYQm3ybzjb6a8bt518x1s).
pub open spec fn registry_program_key() -> Seq<u8> {
    seq![11u8, 112, 101, 177, 227, 209, 124, 69, 56, 157, 82, 127, 107, 4, 195, 205, 88, 184, 108,
        115, 26, 160, 253, 181, 73, 182, 209, 188, 3, 248, 41, 70]
}

/// The holding account address the associated-account scheme derives from a
/// wallet and a mint.
pub uninterp spec fn holding_address_of(wallet: Seq<u8>, mint: Seq<u8>) -> Seq<u8>;

/// The metadata record address the registry derives from a mint.
pub uninterp spec fn metadata_address_of(mint: Seq<u8>) -> Seq<u8>;

/// The master edition record address the registry derives from a mint.
pub uninterp spec fn edition_address_of(mint: Seq<u8>) -> Seq<u8>;

/// The token ledger's instruction that issues `amount` units of `mint` into
/// `holding` on the authority's signature.
pub uninterp spec fn issue_instruction(
    mint: Seq<u8>,
    holding: Seq<u8>,
    authority: Seq<u8>,
    amount: u64,
) -> (Seq<u8>, Seq<(Seq<u8>, bool, bool)>, Seq<u8>);

/// The registry's instruction that creates the metadata record for `mint`
/// with the given descriptive fields, the authority being mint authority,
/// payer, update authority and sole creator at once.
pub uninterp spec fn metadata_instruction(
    metadata: Seq<u8>,
    mint: Seq<u8>,
    authority: Seq<u8>,
    name: Seq<char>,
    symbol: Seq<char>,
    uri: Seq<char>,
    seller_fee_basis_points: u16,
    creator_share: u8,
    creator_verified: bool,
    is_mutable: bool,
) -> (Seq<u8>, Seq<(Seq<u8>, bool, bool)>, Seq<u8>);

/// The registry's instruction that creates the master edition record for
/// `mint`, capping further editions at `max_supply`.
pub uninterp spec fn edition_instruction(
    edition: Seq<u8>,
    mint: Seq<u8>,
    metadata: Seq<u8>,
    authority: Seq<u8>,
    max_supply: u64,
) -> (Seq<u8>, Seq<(Seq<u8>, bool, bool)>, Seq<u8>);

/// Relies on spl_associated_token_account::get_associated_token_address: the
/// holding account address is a deterministic derivation from the wallet and
/// the mint under the official token program.  The underlying
/// find_program_address aborts in the astronomically unlikely case that no
/// bump seed yields a valid derived address; no such input is known.
#[verifier::external_body]
fn derive_holding_address(wallet: &[u8; 32], mint: &[u8; 32]) -> (r: [u8; 32])
    ensures
        r@ == holding_address_of(wallet@, mint@),
{
    spl_associated_token_account::get_associated_token_address(
        &Pubkey::new_from_array(*wallet),
        &Pubkey::new_from_array(*mint),
    ).to_bytes()
}

/// Relies on mpl_token_metadata::accounts::Metadata::find_pda: the metadata
/// record address is a deterministic derivation from the mint alone.  The
/// underlying find_program_address aborts in the astronomically unlikely
/// case that no bump seed yields a valid derived address; no such input is
/// known.
#[verifier::external_body]
fn derive_metadata_address(mint: &[u8; 32]) -> (r: [u8; 32])
    ensures
        r@ == metadata_address_of(mint@),
{
    Metadata::find_pda(&Pubkey::new_from_array(*mint)).0.to_bytes()
}

/// Relies on mpl_token_metadata::accounts::MasterEdition::find_pda: the
/// master edition record address is a deterministic derivation from the mint
/// alone.  The underlying find_program_address aborts in the astronomically
/// unlikely case that no bump seed yields a valid derived address; no such
/// input is known.
#[verifier::external_body]
fn derive_edition_address(mint: &[u8; 32]) -> (r: [u8; 32])
    ensures
        r@ == edition_address_of(mint@),
{
    MasterEdition::find_pda(&Pubkey::new_from_array(*mint)).0.to_bytes()
}

/// Relies on spl_token::instruction::mint_to, called for the official token
/// program (so it cannot reject): the instruction targets the token program,
/// its data is the mint-to opcode byte followed by the amount's
/// little-endian bytes, and its three account entries are the mint
/// (writable), the holding account (writable), and the authority as the sole
/// signer.
#[verifier::external_body]
fn build_issue_instruction(mint: &[u8; 32], holding: &[u8; 32], authority: &[u8; 32], amount: u64) -> (r:
    InstructionPlan)
    ensures
        r@ == issue_instruction(mint@, holding@, authority@, amount),
        r.program@ == token_program_key(),
        r.data@ == seq![7u8] + spec_u64_to_le_bytes(amount),
        r.accounts@.len() == 3,
        r.accounts@[0]@ == (mint@, false, true),
        r.accounts@[1]@ == (holding@, false, true),
        r.accounts@[2]@ == (authority@, true, false),
{
    let k = Pubkey::new_from_array;
    let ix = spl_token::instruction::mint_to(&spl_token::id(), &k(*mint), &k(*holding),
        &k(*authority), &[], amount).unwrap();
    InstructionPlan {
        program: ix.program_id.to_bytes().to_vec(),
        accounts: ix.accounts.iter().map(|m| meta_ref(&m.pubkey.to_bytes(), m.is_signer, m.is_writable)).collect(),
        data: ix.data,
    }
}

/// Relies on mpl_token_metadata::instructions::CreateMetadataAccountV3
/// (called with no collection, uses, or collection details): the returned
/// instruction targets the registry program, is a function of its arguments
/// alone, and the authority signs it as mint authority, payer and update
/// authority.  The registry interface's serializer refuses a string of 2^32
/// bytes or more, and the generated builder aborts on that refusal; a
/// character encodes to at most four bytes, so the bounds below keep every
/// string under the cap.
#[verifier::external_body]
fn build_metadata_instruction(
    metadata: &[u8; 32],
    mint: &[u8; 32],
    authority: &[u8; 32],
    name: String,
    symbol: String,
    uri: String,
    seller_fee_basis_points: u16,
    share: u8,
    verified: bool,
    is_mutable: bool,
) -> (r: InstructionPlan)
    requires
        name@.len() < 0x4000_0000,
        symbol@.len() < 0x4000_0000,
        uri@.len() < 0x4000_0000,
    ensures
        r@ == metadata_instruction(metadata@, mint@, authority@, name@, symbol@, uri@,
            seller_fee_basis_points, share, verified, is_mutable),
        r.program@ == registry_program_key(),
        r.accounts@.len() == 6,
        r.accounts@[2]@ == (authority@, true, false),
        r.accounts@[3]@ == (authority@, true, true),
        r.accounts@[4]@ == (authority@, true, false),
{
    let k = Pubkey::new_from_array;
    let a = k(*authority);
    let data = DataV2 { name, symbol, uri, seller_fee_basis_points, collection: None, uses: None,
        creators: Some(vec![Creator { address: a, verified, share }]) };
    let ix = CreateMetadataAccountV3 { metadata: k(*metadata), mint: k(*mint), mint_authority: a,
        payer: a, update_authority: (a, true), system_program: system_id(), rent: None }
        .instruction(CreateMetadataAccountV3InstructionArgs { data, is_mutable, collection_details: None });
    InstructionPlan {
        program: ix.program_id.to_bytes().to_vec(),
        accounts: ix.accounts.iter().map(|m| meta_ref(&m.pubkey.to_bytes(), m.is_signer, m.is_writable)).collect(),
        data: ix.data,
    }
}

/// Relies on mpl_token_metadata::instructions::CreateMasterEditionV3: the
/// instruction targets the registry program, its data is the
/// create-master-edition opcode byte, the some-tag, and the cap's
/// little-endian bytes, and the authority signs it as update authority,
/// mint authority and payer.
#[verifier::external_body]
fn build_edition_instruction(
    edition: &[u8; 32],
    mint: &[u8; 32],
    metadata: &[u8; 32],
    authority: &[u8; 32],
    max_supply: u64,
) -> (r: InstructionPlan)
    ensures
        r@ == edition_instruction(edition@, mint@, metadata@, authority@, max_supply),
        r.program@ == registry_program_key(),
        r.data@ == seq![17u8, 1u8] + spec_u64_to_le_bytes(max_supply),
        r.accounts@.len() == 8,
        r.accounts@[2]@ == (authority@, true, false),
        r.accounts@[3]@ == (authority@, true, false),
        r.accounts@[4]@ == (authority@, true, true),
{
    let k = Pubkey::new_from_array;
    let a = k(*authority);
    let ix = CreateMasterEditionV3 { edition: k(*edition), mint: k(*mint), update_authority: a,
        mint_authority: a, payer: a, metadata: k(*metadata), token_program: spl_token::id(),
        system_program: system_id(), rent: None }
        .instruction(CreateMasterEditionV3InstructionArgs { max_supply: Some(max_supply) });
    InstructionPlan {
        program: ix.program_id.to_bytes().to_vec(),
        accounts: ix.accounts.iter().map(|m| meta_ref(&m.pubkey.to_bytes(), m.is_signer, m.is_writable)).collect(),
        data: ix.data,
    }
}

/// The three delegated instructions of one invocation, in the strict order
/// the orchestrator issues them: issue exactly one unit of the mint into the
/// caller's derived holding account, attach the metadata record with the
/// fixed name and symbol, the caller-supplied URI and the caller as sole
/// verified creator with a 100% share and no seller fee, then seal the
/// master edition capped at zero further editions.  The URI bound keeps its
/// byte form under the registry serializer's cap.
pub fn mint_nft_plan(caller: &[u8; 32], mint: &[u8; 32], uri: &str) -> (r: Vec<InstructionPlan>)
    requires
        uri@.len() < 0x4000_0000,
    ensures
        r@.len() == 3,
        r@[0]@.0 == token_program_key(),
        r@[1]@.0 == registry_program_key(),
        r@[2]@.0 == registry_program_key(),
        r@[0]@ == issue_instruction(mint@, holding_address_of(caller@, mint@), caller@, 1),
        r@[1]@ == metadata_instruction(metadata_address_of(mint@), mint@, caller@, nft_name(),
            nft_symbol(), uri@, 0, 100, true, true),
        r@[2]@ == edition_instruction(edition_address_of(mint@), mint@, metadata_address_of(mint@),
            caller@, 0),
{
    proof {
        reveal_strlit("Xoxo NFT");
        reveal_strlit("XOXO");
    }
    let holding = derive_holding_address(caller, mint);
    let metadata = derive_metadata_address(mint);
    let edition = derive_edition_address(mint);
    let mut r: Vec<InstructionPlan> = Vec::new();
    r.push(build_issue_instruction(mint, &holding, caller, 1));
    r.push(build_metadata_instruction(&metadata, mint, caller, "Xoxo NFT".to_owned(),
        "XOXO".to_owned(), uri.to_owned(), 0, 100, true, true));
    r.push(build_edition_instruction(&edition, mint, &metadata, caller, 0));
    r
}

} // verus!
