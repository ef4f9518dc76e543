use vstd::prelude::*;

verus! {

/// Stable identifier of a timeline pass.
#[derive(Debug, Clone, Copy, PartialEq, Eq, Structural)]
pub enum PassId {
    MtsdfPass01,
    MtsdfPass02,
    MtsdfPass03,
    Recovery,
}

/// Index of the pass that follows pass `index` in a looping sequence of
/// `len` passes: the next one, or the first after the last.
pub fn next_pass_index(index: usize, len: usize) -> (r: usize)
    requires
        index < len,
    ensures
        r == (index + 1) % (len as int),
        r < len,
{
    (index + 1) % len
}

} // verus!
