//! Tells new messages from those that have already arrived.

use vstd::prelude::*;

use crate::messages::{RoutingMessage, RoutingMessageView};
use crate::value::{self, Value};

verus! {

/// Whether a message has arrived before.
#[derive(Clone, Copy, Debug, PartialEq, Eq, Structural)]
pub enum FilteringResult {
    NewMessage,
    KnownMessage,
}

impl FilteringResult {
    /// Whether the message has not arrived before.
    pub fn is_new(&self) -> (r: bool)
        ensures
            r == (*self == FilteringResult::NewMessage),
    {
        match self {
            FilteringResult::NewMessage => true,
            FilteringResult::KnownMessage => false,
        }
    }
}

/// Remembers the messages that have arrived.
pub struct RoutingMessageFilter {
    incoming: Vec<RoutingMessage>,
}

impl View for RoutingMessageFilter {
    type V = Set<RoutingMessageView>;

    closed spec fn view(&self) -> Set<RoutingMessageView> {
        value::views(self.incoming@).to_set()
    }
}

impl RoutingMessageFilter {
    /// A filter for which every message is new.
    pub fn new() -> (r: Self)
        ensures
            r@ == Set::<RoutingMessageView>::empty(),
    {
        let r = RoutingMessageFilter { incoming: Vec::new() };
        assert(r@ =~= Set::<RoutingMessageView>::empty());
        r
    }

    /// Whether the message is new; from now on it is not.
    pub fn filter_incoming(&mut self, msg: &RoutingMessage) -> (r: FilteringResult)
        ensures
            final(self)@ == old(self)@.insert(msg@),
            r == (if old(self)@.contains(msg@) {
                FilteringResult::KnownMessage
            } else {
                FilteringResult::NewMessage
            }),
    {
        let ghost known = value::views(self.incoming@);
        for i in 0..self.incoming.len()
            invariant
                self@ == old(self)@,
                known == value::views(self.incoming@),
                self@ == known.to_set(),
                forall|j: int| 0 <= j < i ==> #[trigger] known[j] != msg@,
        {
            if self.incoming[i].same(msg) {
                assert(known[i as int] == msg@);
                assert(self@ =~= self@.insert(msg@));
                return FilteringResult::KnownMessage;
            }
            assert(known[i as int] != msg@);
        }
        assert(!known.contains(msg@));
        self.incoming.push(msg.duplicate());
        proof {
            assert(value::views(self.incoming@) =~= known.push(msg@));
            known.lemma_push_to_set_commute(msg@);
        }
        FilteringResult::NewMessage
    }
}

} // verus!
