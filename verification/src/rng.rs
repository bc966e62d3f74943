use vstd::prelude::*;
use rltk::RandomNumberGenerator;

verus! {

#[verifier::external_type_specification]
#[verifier::external_body]
pub struct ExRandomNumberGenerator(RandomNumberGenerator);

/// Rolls `n` dice with `die_type` faces each and sums them
/// (`rltk::RandomNumberGenerator::roll_dice`). Each die is drawn from `1..die_type + 1`,
/// so the sum lies between `n` and `n * die_type`; with no dice it is 0.
/// Which value comes out depends on the generator's state, and nothing more is said of it.
#[verifier::external_body]
pub fn roll_dice(rng: &mut RandomNumberGenerator, n: i32, die_type: i32) -> (r: i32)
    requires
        n > 0 ==> 1 <= die_type < i32::MAX && n * die_type <= i32::MAX,
    ensures
        n <= 0 ==> r == 0,
        n > 0 ==> n <= r <= n * die_type,
{
    rng.roll_dice(n, die_type)
}

/// The cells of a Bresenham line from `(x1, y1)` to `(x2, y2)`, as `rltk::line2d` draws it.
pub uninterp spec fn bresenham_line(x1: i32, y1: i32, x2: i32, y2: i32) -> Seq<(i32, i32)>;

/// The cells of the Bresenham line from `(x1, y1)` to `(x2, y2)`
/// (`rltk::line2d` with `LineAlg::Bresenham`): the start first and the end last.
/// Which cells lie between is the algorithm's own and is only named here.
#[verifier::external_body]
pub fn line_bresenham(x1: i32, y1: i32, x2: i32, y2: i32) -> (r: Vec<(i32, i32)>)
    requires
        -0x3FFF_FFFF <= x1 <= 0x3FFF_FFFF,
        -0x3FFF_FFFF <= y1 <= 0x3FFF_FFFF,
        -0x3FFF_FFFF <= x2 <= 0x3FFF_FFFF,
        -0x3FFF_FFFF <= y2 <= 0x3FFF_FFFF,
    ensures
        r@ == bresenham_line(x1, y1, x2, y2),
        r.len() >= 1,
        r@[0] == (x1, y1),
        r@.last() == (x2, y2),
{
    rltk::line2d(rltk::LineAlg::Bresenham, rltk::Point::new(x1, y1), rltk::Point::new(x2, y2))
        .iter()
        .map(|p| (p.x, p.y))
        .collect()
}

} // verus!
