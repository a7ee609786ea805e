//! Bearer-token authentication of the local API.

use vstd::prelude::*;

use crate::text::{
    hex_lower, is_hex_lower_digit, lemma_hex_lower_shape, str_eq, strip_prefix, to_hex, trim,
    trim_str,
};

verus! {

/// Whether an `Authorization` header value carries the expected bearer token:
/// it must start with `Bearer `, and the rest, trimmed, must equal the token.
pub open spec fn bearer_matches(header: Option<Seq<char>>, expected: Seq<char>) -> bool {
    match header {
        Some(h) => match strip_prefix(h, "Bearer "@) {
            Some(rest) => trim(rest) == expected,
            None => false,
        },
        None => false,
    }
}

pub fn token_matches(header: Option<&str>, expected: &str) -> (b: bool)
    ensures
        b == bearer_matches(
            match header {
                Some(h) => Some(h@),
                None => None,
            },
            expected@,
        ),
{
    match header {
        Some(h) => {
            if crate::text::starts_with(h, "Bearer ") {
                proof {
                    reveal_strlit("Bearer ");
                }
                let n = crate::text::chars_of(h).len();
                let rest = h.substring_char(7, n);
                assert(rest@ =~= h@.skip(7));
                str_eq(trim_str(rest), expected)
            } else {
                false
            }
        },
        None => false,
    }
}

/// `n` bytes from the thread-local random generator (`rand::Rng::fill`).
/// Only the length is stated: the bytes are random.
#[verifier::external_body]
fn random_bytes(n: usize) -> (r: Vec<u8>)
    ensures
        r@.len() == n,
{
    let mut v = vec![0u8; n];
    rand::Rng::fill(&mut rand::thread_rng(), &mut v[..]);
    v
}

/// A fresh API token: 32 random bytes in lowercase hex.
pub fn generate_token() -> (t: String)
    ensures
        exists|bytes: Seq<u8>| bytes.len() == 32 && t@ == hex_lower(bytes),
        t@.len() == 64,
        forall|i: int| 0 <= i < t@.len() ==> is_hex_lower_digit(#[trigger] t@[i]),
{
    let bytes = random_bytes(32);
    let t = to_hex(&bytes);
    proof {
        lemma_hex_lower_shape(bytes@);
    }
    t
}

/// A request that sends `Bearer ` followed by the expected token is
/// accepted (when the token has no surrounding whitespace); a request with
/// no header is refused.
pub proof fn lemma_bearer_round_trip(token: Seq<char>)
    requires
        trim(token) == token,
    ensures
        bearer_matches(Some("Bearer "@ + token), token),
        !bearer_matches(None, token),
{
    let h = "Bearer "@ + token;
    assert(h.take("Bearer "@.len() as int) =~= "Bearer "@);
    assert(h.skip("Bearer "@.len() as int) =~= token);
}

} // verus!
