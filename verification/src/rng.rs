use vstd::prelude::*;

verus! {

/// The cryptographically secure generator the service shares across
/// allocation and issuance calls.  The caller holds it exclusively and
/// passes it in wherever randomness is drawn.
#[verifier::external_type_specification]
#[verifier::external_body]
pub struct ExStdRng(rand::rngs::StdRng);

/// Relies on rand's `Rng::random` for `u64`.  Nothing can be promised of a
/// random value.
#[verifier::external_body]
pub(crate) fn draw_u64(rng: &mut rand::rngs::StdRng) -> u64 {
    rand::Rng::random(rng)
}

/// One character rand's `Alphanumeric` distribution can produce: an ASCII
/// digit or letter.
pub open spec fn is_token_char(c: char) -> bool {
    (48 <= c as u32 && c as u32 <= 57) || (65 <= c as u32 && c as u32 <= 90) || (97 <= c as u32
        && c as u32 <= 122)
}

/// Relies on rand's `Alphanumeric` distribution through `SampleString`:
/// every outcome is exactly `len` characters, each an ASCII digit or
/// letter.
#[verifier::external_body]
pub(crate) fn sample_alphanumeric(rng: &mut rand::rngs::StdRng, len: usize) -> (r: String)
    ensures
        r@.len() == len,
        forall|i: int| 0 <= i < r@.len() ==> is_token_char(#[trigger] r@[i]),
{
    rand::distr::SampleString::sample_string(&rand::distr::Alphanumeric, rng, len)
}

} // verus!
