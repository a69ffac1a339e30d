//! What the user of a node is told.

use vstd::prelude::*;

verus! {

/// Something that the user of a node is told, in its serialised form.
#[derive(Debug, PartialEq, Eq)]
pub struct Event {
    pub payload: Vec<u8>,
}

impl View for Event {
    type V = Seq<u8>;

    open spec fn view(&self) -> Seq<u8> {
        self.payload@
    }
}

} // verus!
