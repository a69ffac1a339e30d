//! Parameters of a network.

use vstd::prelude::*;

verus! {

/// The number of elders that a section has by default.
pub const ELDER_SIZE: usize = 7;

/// The number of members with which a section is safe by default.
pub const SAFE_SECTION_SIZE: usize = 100;

/// Parameters that all nodes of a network agree on.
#[derive(Clone, Copy, Debug, PartialEq, Eq, Structural)]
pub struct NetworkParams {
    pub elder_size: usize,
    pub safe_section_size: usize,
}

impl Default for NetworkParams {
    fn default() -> (r: Self)
        ensures
            r == (NetworkParams { elder_size: ELDER_SIZE, safe_section_size: SAFE_SECTION_SIZE }),
    {
        NetworkParams { elder_size: ELDER_SIZE, safe_section_size: SAFE_SECTION_SIZE }
    }
}

} // verus!
