//! Upsampling modulator: symbol slots to sample slots.
//!
//! For each input slot the modulator emits exactly `sps` identical
//! output slots; the caller maps an occupied slot to its constellation
//! point and an idle slot to the zero sample.  Symbols are consumed
//! only when a full `sps`-sized chunk fits in the output, so consumed
//! always equals produced divided by `sps`.

use vstd::prelude::*;

use crate::sym::Symbol;

verus! {

/// Stream-in (symbol slots), stream-out (sample slots), upsampling by
/// the fixed factor `sps`.
pub struct QamMod {
    /// Samples per symbol; at least 4.
    pub sps: usize,
}

impl QamMod {
    /// A modulator emitting `sps` samples per symbol.
    pub fn new(sps: usize) -> (q: QamMod)
        requires
            sps >= 4,
        ensures
            q.sps == sps,
    {
        QamMod { sps }
    }

    /// Fill an output slice of `out_capacity` slots from `input`: each
    /// consumed input slot appears `sps` times in order.  Consumption
    /// stops at the first input slot whose full chunk no longer fits.
    pub fn work(&self, input: &Vec<Symbol>, out_capacity: usize) -> (r: (Vec<Symbol>, usize))
        requires
            self.sps >= 4,
        ensures
            ({
                let (out, consumed) = r;
                &&& consumed == if input@.len() <= out_capacity / self.sps {
                    input@.len() as int
                } else {
                    out_capacity as int / self.sps as int
                }
                &&& out@.len() == consumed * self.sps
                &&& out@.len() <= out_capacity
                &&& forall|j: int| 0 <= j < out@.len() ==> out@[j] == input@[j / self.sps as int]
            }),
    {
        let limit = out_capacity / self.sps;
        let consumed = if input.len() <= limit {
            input.len()
        } else {
            limit
        };
        proof {
            assert(consumed * self.sps <= limit * self.sps <= out_capacity) by (nonlinear_arith)
                requires
                    limit == out_capacity as int / self.sps as int,
                    consumed <= limit,
                    self.sps >= 4,
            ;
        }
        let mut out: Vec<Symbol> = Vec::new();
        let mut i: usize = 0;
        while i < consumed
            invariant
                i <= consumed,
                consumed <= input@.len(),
                self.sps >= 4,
                out@.len() == i * self.sps,
                forall|j: int| 0 <= j < out@.len() ==> out@[j] == input@[j / self.sps as int],
            decreases consumed - i,
        {
            let s = input[i];
            let mut t: usize = 0;
            while t < self.sps
                invariant
                    t <= self.sps,
                    i < consumed <= input@.len(),
                    self.sps >= 4,
                    s == input@[i as int],
                    out@.len() == i * self.sps + t,
                    forall|j: int| 0 <= j < out@.len() ==> out@[j] == input@[j / self.sps as int],
                decreases self.sps - t,
            {
                out.push(s);
                proof {
                    assert((i * self.sps + t) / self.sps as int == i as int) by (nonlinear_arith)
                        requires
                            self.sps >= 4,
                            0 <= t < self.sps,
                            0 <= i,
                    ;
                }
                t += 1;
            }
            proof {
                assert((i as int + 1) * self.sps == i as int * self.sps + self.sps)
                    by (nonlinear_arith);
            }
            i += 1;
        }
        (out, consumed)
    }
}

} // verus!
