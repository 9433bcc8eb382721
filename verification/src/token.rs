//! What the lifecycle asks of the token service, and what it hands to it.
//!
//! The service itself lives outside this library: the caller performs each
//! operation and reports how it went.

use vstd::prelude::*;

verus! {

/// Ticker symbol of every identity token.
pub const DEFAULT_SYMBOL: &'static str = "BVID";

/// Where the off-chain description of every identity token lives.
pub const DEFAULT_URI: &'static str = "https://app.ardrive.io/soulbound_example.json";

/// An identity token cannot be split.
pub const DECIMALS: u8 = 0;

/// One request to the token service.
#[derive(Clone, Copy, Debug, PartialEq, Eq, Structural)]
pub enum TokenOp {
    /// Attach the display fields to the mint.
    CreateMetadata,
    /// Mint exactly one unit to the destination account.
    MintOne,
    /// Give up the authority to mint, for good.
    RevokeMintAuthority,
    /// Hand the destination account's authority to the mint itself, so the
    /// unit can never be moved.
    LockAccountAuthority,
    /// Destroy exactly one unit held by the destination account; the
    /// request whose outcome `burn_token` settles.
    BurnOne,
}

/// How the token service answered one request.
#[derive(Clone, Copy, Debug, PartialEq, Eq, Structural)]
pub enum TokenOutcome {
    Success,
    /// The request failed, with the service's own code.
    Failure(u64),
}

/// The display fields of a token.
#[derive(Clone, Debug, PartialEq, Eq)]
pub struct TokenMetadata {
    pub name: String,
    pub symbol: String,
    pub uri: String,
    pub seller_fee_basis_points: u16,
}

/// The display name of a token: name, date of birth and gender on one line.
pub open spec fn display_name(name: Seq<char>, dob: Seq<char>, gender: Seq<char>) -> Seq<char> {
    name + " | DOB: "@ + dob + " | "@ + gender
}

/// The display fields of the token minted for a person.
pub fn display_fields(name: &str, dob: &str, gender: &str) -> (fields: TokenMetadata)
    ensures
        fields.name@ == display_name(name@, dob@, gender@),
        fields.symbol@ == DEFAULT_SYMBOL@,
        fields.uri@ == DEFAULT_URI@,
        fields.seller_fee_basis_points == 0,
{
    let mut combined = name.to_owned();
    combined.append(" | DOB: ");
    combined.append(dob);
    combined.append(" | ");
    combined.append(gender);
    TokenMetadata {
        name: combined,
        symbol: DEFAULT_SYMBOL.to_owned(),
        uri: DEFAULT_URI.to_owned(),
        seller_fee_basis_points: 0,
    }
}

/// The seeds under which the mint signs for itself: the tag `mint`, the
/// payer's address and the bump.
pub open spec fn mint_seeds(payer: [u8; 32], bump: u8) -> Seq<Seq<u8>> {
    seq![seq![109u8, 105u8, 110u8, 116u8], payer@, seq![bump]]
}

/// The signing context of the mint that belongs to `payer`.
pub fn mint_signer_seeds(payer: &[u8; 32], bump: u8) -> (seeds: Vec<Vec<u8>>)
    ensures
        seeds@.len() == 3,
        forall|i: int| 0 <= i < 3 ==> (#[trigger] seeds@[i])@ == mint_seeds(*payer, bump)[i],
{
    let mut tag: Vec<u8> = Vec::new();
    tag.push(109);
    tag.push(105);
    tag.push(110);
    tag.push(116);
    let mut address: Vec<u8> = Vec::new();
    let mut i: usize = 0;
    while i < 32
        invariant
            i <= 32,
            address@ == payer@.take(i as int),
        decreases 32 - i,
    {
        address.push(payer[i]);
        assert(payer@.take(i + 1) == payer@.take(i as int).push(payer@[i as int]));
        i += 1;
    }
    assert(payer@.take(32) == payer@);
    let mut bump_seed: Vec<u8> = Vec::new();
    bump_seed.push(bump);
    let mut seeds: Vec<Vec<u8>> = Vec::new();
    seeds.push(tag);
    seeds.push(address);
    seeds.push(bump_seed);
    assert(seeds@[0]@ == seq![109u8, 105u8, 110u8, 116u8]);
    assert(seeds@[2]@ == seq![bump]);
    seeds
}

} // verus!
