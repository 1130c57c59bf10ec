//! How an agent's id and wallet address are derived.
use vstd::prelude::*;
use vstd::string::*;
use vstd::utf8::*;

use crate::text::{decimal, lowercase_of, owned, push_decimal, push_str, to_lowercase};

verus! {

broadcast use {vstd::utf8::encode_utf8_decode_utf8, vstd::utf8::encode_utf8_valid_utf8};

/// The first eight bytes of an address, taken as text.
pub open spec fn address_prefix(creator: Seq<char>) -> Seq<char> {
    decode_utf8(encode_utf8(creator).subrange(0, 8))
}

/// Whether the first eight bytes of an address end on a character boundary,
/// so that they can be taken as text (this fails for addresses shorter than
/// eight bytes).
pub open spec fn has_address_prefix(creator: Seq<char>) -> bool {
    is_char_boundary(encode_utf8(creator), 8)
}

/// The id of an agent minted by `creator` at block `height`:
/// `AI-<height>-<first eight bytes of the creator's address>`.
pub open spec fn agent_id_text(creator: Seq<char>, height: u64) -> Seq<char> {
    "AI-"@ + decimal(height as nat) + "-"@ + address_prefix(creator)
}

/// The wallet address of an agent: `inj1` followed by its id in lower case.
pub open spec fn wallet_text(agent_id: Seq<char>) -> Seq<char> {
    "inj1"@ + lowercase_of(agent_id)
}

/// Checks whether the first eight bytes of an address can be taken as text.
pub fn has_prefix_boundary(creator: &String) -> (r: bool)
    ensures
        r == has_address_prefix(creator@),
{
    creator.as_str().is_char_boundary(8)
}

/// Derives the id of an agent from its creator's address and the block height.
pub fn generate_agent_id(creator: &String, height: u64) -> (id: String)
    requires
        has_address_prefix(creator@),
    ensures
        id@ == agent_id_text(creator@, height),
{
    let mut id = owned("AI-");
    push_decimal(&mut id, height as u128);
    push_str(&mut id, "-");
    let creator_text = creator.as_str();
    let (prefix, _rest) = creator_text.split_at(8);
    proof {
        assert(encode_utf8(prefix@) == encode_utf8(creator@).subrange(0, 8));
        assert(decode_utf8(encode_utf8(prefix@)) == prefix@);
    }
    push_str(&mut id, prefix);
    proof {
        assert(id@ =~= agent_id_text(creator@, height));
    }
    id
}

/// Derives the wallet address of an agent from its id.
pub fn generate_agent_wallet(agent_id: &str) -> (wallet: String)
    ensures
        wallet@ == wallet_text(agent_id@),
{
    let mut wallet = owned("inj1");
    let lower = to_lowercase(agent_id);
    push_str(&mut wallet, lower.as_str());
    wallet
}

} // verus!
