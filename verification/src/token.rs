//! Bearer tokens: 32 characters drawn from letters and digits.

use rand::Rng;
use vstd::prelude::*;
use crate::rules::{is_alphanumeric, is_minted_token, TOKEN_LENGTH};

verus! {

/// Draws `len` characters from rand's thread-local generator with its
/// `Alphanumeric` distribution, which yields only `a-z`, `A-Z` and `0-9`.
/// Which characters come is left open. rand aborts the thread if the
/// operating system cannot seed the generator.
#[verifier::external_body]
fn random_alphanumeric(len: usize) -> (text: String)
    ensures
        text@.len() == len,
        is_alphanumeric(text@),
{
    rand::rng().sample_iter(&rand::distr::Alphanumeric).take(len).map(char::from).collect()
}

/// Mints a token for a node that registers without one.
pub fn mint_token() -> (token: String)
    ensures
        is_minted_token(token@),
{
    random_alphanumeric(TOKEN_LENGTH)
}

} // verus!
