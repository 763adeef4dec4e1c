//! Mint accounts: the supply and decimals of a currency, as the token program
//! stores them.
use vstd::prelude::*;
use vstd::bytes::{spec_u64_from_le_bytes, spec_u64_to_le_bytes, u64_to_le_bytes};

verus! {

/// A 4-byte option tag as the token program writes it: 0 for none, 1 for some.
pub open spec fn option_tag_valid(t: Seq<u8>) -> bool {
    t == seq![0u8, 0, 0, 0] || t == seq![1u8, 0, 0, 0]
}

/// Whether mint account bytes decode as a mint: 82 bytes or more, with valid
/// option tags for the two authorities and a 0 or 1 initialized flag.
pub open spec fn mint_readable(s: Seq<u8>) -> bool {
    &&& s.len() >= 82
    &&& option_tag_valid(s.subrange(0, 4))
    &&& (s[45] == 0 || s[45] == 1)
    &&& option_tag_valid(s.subrange(46, 50))
}

/// The supply stored in mint bytes.
pub open spec fn stored_supply(s: Seq<u8>) -> u64 {
    spec_u64_from_le_bytes(s.subrange(36, 44))
}

/// The decimals stored in mint bytes.
pub open spec fn stored_decimals(s: Seq<u8>) -> u8 {
    s[44]
}

/// Mint bytes with the supply replaced.
pub open spec fn with_supply(s: Seq<u8>, supply: u64) -> Seq<u8> {
    s.subrange(0, 36) + spec_u64_to_le_bytes(supply) + s.subrange(44, s.len() as int)
}

/// Relies on `spl_token::state::Mint::unpack_from_slice` (the `Pack` trait of
/// `solana_program`): it reads 82 bytes as `[mint authority: tag 4 + key 32]
/// [supply: 8 LE][decimals: 1][initialized: 1][freeze authority: tag 4 + key 32]`,
/// and refuses a tag other than `[0,0,0,0]` or `[1,0,0,0]` and an initialized
/// byte other than 0 or 1. It panics on fewer than 82 bytes.
#[verifier::external_body]
fn unpack_mint(data: &Vec<u8>) -> (r: Option<(u64, u8)>)
    requires
        data@.len() >= 82,
    ensures
        r is Some <==> mint_readable(data@),
        r matches Some((supply, decimals)) ==> supply == stored_supply(data@) && decimals
            == stored_decimals(data@),
{
    match <spl_token::state::Mint as solana_program::program_pack::Pack>::unpack_from_slice(data.as_slice()) {
        Ok(mint) => Some((mint.supply, mint.decimals)),
        Err(_) => None,
    }
}

/// The supply and decimals of a mint account's bytes; `None` where they do not
/// decode as a mint.
pub fn read_mint(data: &Vec<u8>) -> (r: Option<(u64, u8)>)
    ensures
        r is Some <==> mint_readable(data@),
        r matches Some((supply, decimals)) ==> supply == stored_supply(data@) && decimals
            == stored_decimals(data@),
{
    if data.len() < 82 {
        return None;
    }
    unpack_mint(data)
}

/// Mint bytes with the supply replaced.
pub fn replace_supply(data: &Vec<u8>, supply: u64) -> (r: Vec<u8>)
    requires
        data@.len() >= 82,
    ensures
        r@ == with_supply(data@, supply),
{
    let mut out: Vec<u8> = Vec::new();
    let mut i: usize = 0;
    while i < 36
        invariant
            i <= 36,
            data@.len() >= 82,
            out@ == data@.subrange(0, i as int),
        decreases 36 - i,
    {
        out.push(data[i]);
        i = i + 1;
        assert(out@ =~= data@.subrange(0, i as int));
    }
    let mut supply_bytes = u64_to_le_bytes(supply);
    out.append(&mut supply_bytes);
    let ghost head = out@;
    let mut k: usize = 44;
    while k < data.len()
        invariant
            44 <= k <= data@.len(),
            out@ == head + data@.subrange(44, k as int),
        decreases data@.len() - k,
    {
        out.push(data[k]);
        k = k + 1;
        assert(out@ =~= head + data@.subrange(44, k as int));
    }
    assert(out@ =~= with_supply(data@, supply));
    out
}

} // verus!
