use vstd::prelude::*;
use rand::Rng;

verus! {

/// The 62-symbol alphabet a subscription token is drawn from.
pub open spec fn token_char(c: char) -> bool {
    ('a' <= c && c <= 'z') || ('A' <= c && c <= 'Z') || ('0' <= c && c <= '9')
}

/// A well-formed confirmation token: exactly 25 alphanumeric characters.
pub open spec fn is_token(s: Seq<char>) -> bool {
    &&& s.len() == 25
    &&& forall|i: int| 0 <= i < s.len() ==> token_char(#[trigger] s[i])
}

/// Relies on rand's `Alphanumeric` distribution, sampled from `thread_rng`:
/// every sample is one of the 62 ASCII alphanumeric characters. Nothing more
/// is assumed of the value: it is random.
#[verifier::external_body]
fn sample_alphanumeric() -> (c: char)
    ensures
        token_char(c),
{
    char::from(rand::thread_rng().sample(rand::distributions::Alphanumeric))
}

/// A fresh confirmation token: 25 characters drawn independently from the
/// alphanumeric alphabet by a cryptographically secure generator. Uniqueness
/// is not the generator's concern; the storage step enforces it.
pub fn generate_subscription_token() -> (t: String)
    ensures
        is_token(t@),
{
    let mut t = String::new();
    for k in 0..25usize
        invariant
            t@.len() == k,
            forall|i: int| 0 <= i < t@.len() ==> token_char(#[trigger] t@[i]),
    {
        let c = sample_alphanumeric();
        t.push(c);
    }
    t
}

} // verus!
