//! Elapsed time as hours, minutes, seconds and milliseconds.
use vstd::prelude::*;
use vstd::arithmetic::div_mod::{lemma_fundamental_div_mod, lemma_mod_mod};

verus! {

/// `ms` milliseconds as whole hours, then the minutes, seconds and milliseconds
/// left over.
pub fn split_millis(ms: u128) -> (r: (u128, u128, u128, u128))
    ensures
        r.0 == ms / 3_600_000,
        r.1 == ms % 3_600_000 / 60_000,
        r.2 == ms % 60_000 / 1_000,
        r.3 == ms % 1_000,
        r.1 < 60 && r.2 < 60 && r.3 < 1000,
        ms == r.0 * 3_600_000 + r.1 * 60_000 + r.2 * 1_000 + r.3,
{
    let hours = ms / 3_600_000;
    let minutes = ms % 3_600_000 / 60_000;
    let seconds = ms % 60_000 / 1_000;
    let millis = ms % 1_000;
    proof {
        let x = ms as int;
        lemma_fundamental_div_mod(x, 3_600_000);
        lemma_fundamental_div_mod(x % 3_600_000, 60_000);
        lemma_mod_mod(x, 60_000, 60);
        lemma_fundamental_div_mod(x % 60_000, 1_000);
        lemma_mod_mod(x, 1_000, 60);
        assert((x % 3_600_000) % 60_000 == x % 60_000);
        assert((x % 60_000) % 1_000 == x % 1_000);
    }
    (hours, minutes, seconds, millis)
}

} // verus!
