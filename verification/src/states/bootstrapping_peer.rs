//! A node that looks for the network.

use vstd::prelude::*;

use crate::chain::network_params::NetworkParams;
use crate::id::{FullId, FullIdView};
use crate::network_service::{NetworkActionView, NetworkService};
use crate::timer::{Timer, TimerView};

verus! {

/// State of a node while it looks for a section to join.
pub struct BootstrappingPeer {
    network_service: NetworkService,
    full_id: FullId,
    network_cfg: NetworkParams,
    timer: Timer,
}

#[verifier::ext_equal]
pub struct BootstrappingPeerView {
    pub network_service: Seq<NetworkActionView>,
    pub full_id: FullIdView,
    pub network_cfg: NetworkParams,
    pub timer: TimerView,
}

impl View for BootstrappingPeer {
    type V = BootstrappingPeerView;

    closed spec fn view(&self) -> BootstrappingPeerView {
        BootstrappingPeerView {
            network_service: self.network_service@,
            full_id: self.full_id@,
            network_cfg: self.network_cfg,
            timer: self.timer@,
        }
    }
}

impl BootstrappingPeer {
    /// The state of a node that starts to look for the network.
    pub fn new(
        network_service: NetworkService,
        full_id: FullId,
        network_cfg: NetworkParams,
        timer: Timer,
    ) -> (r: Self)
        ensures
            r@ == (BootstrappingPeerView {
                network_service: network_service@,
                full_id: full_id@,
                network_cfg,
                timer: timer@,
            }),
    {
        BootstrappingPeer { network_service, full_id, network_cfg, timer }
    }

    /// The node's identity.
    pub fn full_id(&self) -> (r: &FullId)
        ensures
            r@ == self@.full_id,
    {
        &self.full_id
    }

    /// The parameters of the network.
    pub fn network_cfg(&self) -> (r: &NetworkParams)
        ensures
            *r == self@.network_cfg,
    {
        &self.network_cfg
    }

    /// What is to be done on the network.
    pub fn network_service_mut(&mut self) -> (r: &mut NetworkService)
        ensures
            r@ == old(self)@.network_service,
            final(self)@ == (BootstrappingPeerView {
                network_service: final(r)@,
                ..old(self)@
            }),
    {
        &mut self.network_service
    }
}

} // verus!
