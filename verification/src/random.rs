//! The random source behind the animation.
//!
//! The generator is `rand`'s `StdRng`, handed in by the caller so that a run
//! can be repeated from a seed. The three functions below are the only places
//! where it is sampled; their contracts are taken on trust from `rand`.

use rand::distributions::Alphanumeric;
use rand::rngs::StdRng;
use rand::Rng;
use vstd::prelude::*;

verus! {

#[verifier::external_type_specification]
#[verifier::external_body]
pub struct ExStdRng(StdRng);

/// The characters that `Alphanumeric` draws from: `A`-`Z`, `a`-`z` and `0`-`9`.
pub open spec fn is_alphanumeric(c: char) -> bool {
    ||| 'A' <= c <= 'Z'
    ||| 'a' <= c <= 'z'
    ||| '0' <= c <= '9'
}

/// Calls `Rng::gen_range` on the half-open range `0..width`.
///
/// Trusted: the sample lies in the range. `gen_range` panics on an empty
/// range, so `width` must be positive.
#[verifier::external_body]
pub(crate) fn random_column(rng: &mut StdRng, width: u16) -> (column: u16)
    requires
        width > 0,
    ensures
        column < width,
{
    rng.gen_range(0..width)
}

/// Calls `Rng::gen_range` on the closed range `0..=255` to pick an index into
/// the 256-colour palette. Every index may come back, so nothing is promised of
/// the result.
#[verifier::external_body]
pub(crate) fn generate_random_color(rng: &mut StdRng) -> (index: u8) {
    rng.gen_range(0..=255)
}

/// Calls `Rng::sample` with the `Alphanumeric` distribution.
///
/// Trusted: the sampled byte is one of the 62 ASCII letters and digits.
#[verifier::external_body]
pub(crate) fn random_glyph(rng: &mut StdRng) -> (glyph: char)
    ensures
        is_alphanumeric(glyph),
{
    char::from(rng.sample(Alphanumeric))
}

} // verus!
