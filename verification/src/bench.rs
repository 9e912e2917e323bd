//! Tick timing reports.

use vstd::arithmetic::div_mod::{lemma_fundamental_div_mod, lemma_mod_multiples_basic};
use vstd::prelude::*;

verus! {

/// Reports the time a tick took, twice per second of game time.
pub struct BenchPlugin;

/// A report is due at every tick that is a multiple of half the tick rate.
pub open spec fn report_due(tick: int, tick_rate: int) -> bool {
    tick % (tick_rate / 2) == 0
}

/// A number is a multiple of `period` exactly if its negative is.
proof fn lemma_multiples_mirror(tick: int, period: int)
    requires
        period > 0,
    ensures
        ((-tick) % period == 0) == (tick % period == 0),
{
    lemma_negative_of_multiple(tick, period);
    lemma_negative_of_multiple(-tick, period);
}

proof fn lemma_negative_of_multiple(tick: int, period: int)
    requires
        period > 0,
    ensures
        tick % period == 0 ==> (-tick) % period == 0,
{
    if tick % period == 0 {
        let k = tick / period;
        lemma_fundamental_div_mod(tick, period);
        assert(tick == period * k);
        assert(-tick == (-k) * period) by (nonlinear_arith)
            requires
                tick == period * k,
        ;
        lemma_mod_multiples_basic(-k, period);
    }
}

impl BenchPlugin {
    /// Whether the time of the tick `tick` is to be reported. The tick rate
    /// has to be at least two ticks per second, so that half of it is a
    /// whole number of ticks.
    pub fn reports_at(tick: i64, tick_rate: u32) -> (due: bool)
        requires
            2 <= tick_rate,
        ensures
            due == report_due(tick as int, tick_rate as int),
    {
        let half: u32 = tick_rate / 2;
        let period: i64 = half as i64;
        proof {
            lemma_multiples_mirror(tick as int, period as int);
        }
        tick % period == 0
    }
}

} // verus!
