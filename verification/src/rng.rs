use vstd::prelude::*;

verus! {

#[verifier::external_type_specification]
#[verifier::external_body]
pub struct ExRandomNumberGenerator(rltk::RandomNumberGenerator);

/// Relies on rltk::RandomNumberGenerator::roll_dice: it sums `n` draws, each
/// uniform in 1..=die_type, so the total lies between `n` and `n * die_type`.
/// (It draws from the half-open range 1..die_type + 1, which panics when
/// empty and must not overflow: hence `die_type` is at least 1 and strictly
/// below `i32::MAX`.)
#[verifier::external_body]
pub(crate) fn roll_dice(rng: &mut rltk::RandomNumberGenerator, n: i32, die_type: i32) -> (r: i32)
    requires
        1 <= n,
        1 <= die_type < i32::MAX,
        n * die_type <= i32::MAX,
    ensures
        n <= r <= n * die_type,
{
    rng.roll_dice(n, die_type)
}

} // verus!
