//! What a node wants done on the network. The requests are queued here in order; whoever drives the
//! node takes them from here and carries them out.

use vstd::prelude::*;

use crate::id::{ConnectionInfo, ConnectionInfoView, PeerAddr};
use crate::messages::{DirectMessage, DirectMessageView};
use crate::value;

verus! {

/// Something to be done on the network.
pub enum NetworkAction {
    /// Send the message to the peer.
    SendDirect { dst: ConnectionInfo, msg: DirectMessage },
    /// Disconnect from the peer.
    Disconnect { peer_addr: PeerAddr },
}

#[verifier::ext_equal]
pub enum NetworkActionView {
    SendDirect { dst: ConnectionInfoView, msg: DirectMessageView },
    Disconnect { peer_addr: PeerAddr },
}

impl View for NetworkAction {
    type V = NetworkActionView;

    open spec fn view(&self) -> NetworkActionView {
        match *self {
            NetworkAction::SendDirect { dst, msg } => NetworkActionView::SendDirect {
                dst: dst@,
                msg: msg@,
            },
            NetworkAction::Disconnect { peer_addr } => NetworkActionView::Disconnect { peer_addr },
        }
    }
}

/// The queue of what is to be done on the network.
pub struct NetworkService {
    actions: Vec<NetworkAction>,
}

impl View for NetworkService {
    type V = Seq<NetworkActionView>;

    closed spec fn view(&self) -> Seq<NetworkActionView> {
        value::views(self.actions@)
    }
}

impl NetworkService {
    /// A queue with nothing to do.
    pub fn new() -> (r: Self)
        ensures
            r@ == Seq::<NetworkActionView>::empty(),
    {
        let r = NetworkService { actions: Vec::new() };
        assert(r@ =~= Seq::<NetworkActionView>::empty());
        r
    }

    /// Asks for a message to be sent.
    pub fn send_direct(&mut self, dst: ConnectionInfo, msg: DirectMessage)
        ensures
            final(self)@ == old(self)@.push(
                NetworkActionView::SendDirect { dst: dst@, msg: msg@ },
            ),
    {
        self.actions.push(NetworkAction::SendDirect { dst, msg });
        assert(self@ =~= old(self)@.push(NetworkActionView::SendDirect { dst: dst@, msg: msg@ }));
    }

    /// Asks for a peer to be disconnected.
    pub fn disconnect_from(&mut self, peer_addr: PeerAddr)
        ensures
            final(self)@ == old(self)@.push(NetworkActionView::Disconnect { peer_addr }),
    {
        self.actions.push(NetworkAction::Disconnect { peer_addr });
        assert(self@ =~= old(self)@.push(NetworkActionView::Disconnect { peer_addr }));
    }

    /// Hands out what is to be done and starts with an empty queue again.
    pub fn take_actions(&mut self) -> (r: Vec<NetworkAction>)
        ensures
            value::views(r@) == old(self)@,
            final(self)@ == Seq::<NetworkActionView>::empty(),
    {
        let mut actions: Vec<NetworkAction> = Vec::new();
        std::mem::swap(&mut actions, &mut self.actions);
        assert(self@ =~= Seq::<NetworkActionView>::empty());
        actions
    }
}

} // verus!
