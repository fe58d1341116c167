//! Block bookkeeping of the vocoder's signal path.
use vstd::prelude::*;

verus! {

/// How many samples a block call processes: as many as all three buffers have.
pub fn block_len(modulator: usize, carrier: usize, output: usize) -> (len: usize)
    ensures
        len <= modulator,
        len <= carrier,
        len <= output,
        len == modulator || len == carrier || len == output,
{
    let shorter: usize = if modulator < carrier {
        modulator
    } else {
        carrier
    };
    if shorter < output {
        shorter
    } else {
        output
    }
}

} // verus!
