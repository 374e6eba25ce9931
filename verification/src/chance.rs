//! The random part of a tick: one Bernoulli trial per column, drawn from the
//! `rand` crate's thread-local generator.

use vstd::prelude::*;
use rand::Rng;
use rand::rngs::ThreadRng;

verus! {

/// The spawn probability per column per tick, as a ratio: 1 in 10.
pub const SPAWN_NUMERATOR: u32 = 1;

/// See [`SPAWN_NUMERATOR`].
pub const SPAWN_DENOMINATOR: u32 = 10;

/// `rand::rngs::ThreadRng`, a handle to the generator of the current thread.
/// Nothing is known of its state.
#[verifier::external_type_specification]
#[verifier::external_body]
pub struct ExThreadRng(rand::rngs::ThreadRng);

/// `rand::thread_rng` hands out the handle of the current thread's generator,
/// which the system seeds on first use (and which panics there if the system
/// has no entropy to give). Nothing is claimed of the handle.
pub assume_specification[ rand::thread_rng ]() -> (rng: ThreadRng)
;

/// One call of `rand::Rng::gen_ratio`, which panics unless
/// `0 < denominator` and `numerator <= denominator`. Its documentation
/// promises `false` for a numerator of 0 and `true` for a numerator equal to
/// the denominator; of every other ratio only that a `bool` comes back.
#[verifier::external_body]
fn gen_ratio(rng: &mut ThreadRng, numerator: u32, denominator: u32) -> (hit: bool)
    requires
        0 < denominator,
        numerator <= denominator,
    ensures
        numerator == 0 ==> !hit,
        numerator == denominator ==> hit,
{
    rng.gen_ratio(numerator, denominator)
}

/// Draws the spawn trials of one tick: one independent trial per column, each
/// succeeding with probability `numerator / denominator`. The result has one
/// entry per column. What the entries are is up to chance, except at the two
/// ends: with a numerator of 0 no column spawns, with a numerator equal to the
/// denominator every column does.
pub fn draw_spawns(width: u16, numerator: u32, denominator: u32) -> (spawns: Vec<bool>)
    requires
        0 < denominator,
        numerator <= denominator,
    ensures
        spawns@.len() == width,
        numerator == 0 ==> forall|x: int| 0 <= x < width ==> !spawns@[x],
        numerator == denominator ==> forall|x: int| 0 <= x < width ==> spawns@[x],
{
    let mut rng = rand::thread_rng();
    let mut spawns: Vec<bool> = Vec::new();
    let mut x: u16 = 0;
    while x < width
        invariant
            x <= width,
            0 < denominator,
            numerator <= denominator,
            spawns@.len() == x,
            numerator == 0 ==> forall|c: int| 0 <= c < x ==> !spawns@[c],
            numerator == denominator ==> forall|c: int| 0 <= c < x ==> spawns@[c],
        decreases width - x,
    {
        let hit = gen_ratio(&mut rng, numerator, denominator);
        spawns.push(hit);
        x += 1;
    }
    spawns
}

} // verus!
