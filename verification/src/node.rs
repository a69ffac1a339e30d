//! A node as its user sees it.

use vstd::prelude::*;

use crate::chain::chain::{self, Chain, ChainView};
use crate::chain::elders_info::EldersInfoView;
use crate::chain::network_params::{NetworkParams, ELDER_SIZE, SAFE_SECTION_SIZE};
use crate::chain::proof_chain::SectionProofChain;
use crate::closeness;
use crate::error::RoutingError;
use crate::id::{ConnectionInfo, FullId, PublicId};
use crate::messages::Authority;
use crate::network_service::NetworkService;
use crate::ordered_map::{OrderedMap, OrderedSet};
use crate::prefix::Prefix;
use crate::state_machine::{State, StateMachine};
use crate::states::bootstrapping_peer::{BootstrappingPeer, BootstrappingPeerView};
use crate::states::elder::{Elder, ElderView, XorTargetInterval};
use crate::timer::Timer;
use crate::value::{self, Value};
use crate::xor_name::{self, XorName};

verus! {

/// How a node takes part in the network.
#[derive(Clone, Copy, Debug, PartialEq, Eq, Structural)]
pub enum OurType {
    Client,
    Node,
}

/// How a node connects to others.
pub struct NetworkConfig {
    pub our_type: OurType,
    pub port: Option<u16>,
    pub hard_coded_contacts: Vec<ConnectionInfo>,
}

impl Default for NetworkConfig {
    fn default() -> (r: Self)
        ensures
            r.our_type == OurType::Client,
            r.port is None,
            r.hard_coded_contacts@.len() == 0,
    {
        NetworkConfig {
            our_type: OurType::Client,
            port: None,
            hard_coded_contacts: Vec::new(),
        }
    }
}

/// A builder to configure and create a new `Node`.
pub struct NodeBuilder {
    first: bool,
    network_config: Option<NetworkConfig>,
    full_id: Option<FullId>,
    network_cfg: NetworkParams,
}

/// What the builder was told.
pub struct NodeBuilderView {
    pub first: bool,
    pub network_config: Option<NetworkConfig>,
    pub full_id: Option<FullId>,
    pub network_cfg: NetworkParams,
}

impl View for NodeBuilder {
    type V = NodeBuilderView;

    closed spec fn view(&self) -> NodeBuilderView {
        NodeBuilderView {
            first: self.first,
            network_config: self.network_config,
            full_id: self.full_id,
            network_cfg: self.network_cfg,
        }
    }
}

impl NodeBuilderView {
    pub open spec fn with_first(self, first: bool) -> NodeBuilderView {
        NodeBuilderView { first, ..self }
    }

    pub open spec fn with_network_config(self, config: NetworkConfig) -> NodeBuilderView {
        NodeBuilderView { network_config: Some(config), ..self }
    }

    pub open spec fn with_full_id(self, full_id: FullId) -> NodeBuilderView {
        NodeBuilderView { full_id: Some(full_id), ..self }
    }

    pub open spec fn with_network_cfg(self, network_cfg: NetworkParams) -> NodeBuilderView {
        NodeBuilderView { network_cfg, ..self }
    }

    /// `config` is what the network is started with: the config that the builder was given, or
    /// else the default one, but always as a node.
    pub open spec fn starts_with(self, config: NetworkConfig) -> bool {
        &&& config.our_type == OurType::Node
        &&& match self.network_config {
            Some(given) => config == (NetworkConfig { our_type: OurType::Node, ..given }),
            None => config.port is None && config.hard_coded_contacts@.len() == 0,
        }
    }
}

impl NodeBuilder {
    /// Configures the node to start a new network instead of joining an existing one.
    pub fn first(self, first: bool) -> (r: Self)
        ensures
            r@ == self@.with_first(first),
    {
        NodeBuilder { first, ..self }
    }

    /// The node will use the given network config rather than default.
    pub fn network_config(self, config: NetworkConfig) -> (r: Self)
        ensures
            r@ == self@.with_network_config(config),
    {
        NodeBuilder { network_config: Some(config), ..self }
    }

    /// The node will use the given full id rather than default, randomly generated one.
    pub fn full_id(self, full_id: FullId) -> (r: Self)
        ensures
            r@ == self@.with_full_id(full_id),
    {
        NodeBuilder { full_id: Some(full_id), ..self }
    }

    /// Override the default network config.
    pub fn network_cfg(self, network_cfg: NetworkParams) -> (r: Self)
        ensures
            r@ == self@.with_network_cfg(network_cfg),
    {
        NodeBuilder { network_cfg, ..self }
    }

    /// Makes the state machine of a new node. `new_id` gives an identity if none was set,
    /// `start_network` starts the network with a config, and `first_elder` makes the elder of a new
    /// network. A node that does not start a network looks for one; one that fails to start a
    /// network has terminated.
    pub fn make_state_machine<
        I: FnOnce() -> FullId,
        S: FnOnce(NetworkConfig) -> (NetworkService, Timer),
        E: FnOnce(NetworkService, FullId, NetworkParams, Timer) -> Result<Elder, RoutingError>,
    >(self, new_id: I, start_network: S, first_elder: E) -> (r: StateMachine)
        requires
            call_requires(new_id, ()),
            forall|config: NetworkConfig| call_requires(start_network, (config,)),
            forall|service: NetworkService, id: FullId, cfg: NetworkParams, timer: Timer|
                call_requires(first_elder, (service, id, cfg, timer)),
        ensures
            exists|id: FullId, config: NetworkConfig, started: (NetworkService, Timer)|
                {
                    &&& match self@.full_id {
                        Some(given) => id == given,
                        None => call_ensures(new_id, (), id),
                    }
                    &&& self@.starts_with(config)
                    &&& #[trigger] call_ensures(start_network, (config,), started)
                    &&& #[trigger] initial_state(
                        self@.first,
                        id,
                        self@.network_cfg,
                        started,
                        first_elder,
                        r.spec_current(),
                    )
                },
    {
        let full_id = match self.full_id {
            Some(full_id) => full_id,
            None => new_id(),
        };
        let network_cfg = self.network_cfg;
        let mut network_config = match self.network_config {
            Some(config) => config,
            None => NetworkConfig::default(),
        };
        network_config.our_type = OurType::Node;
        let ghost config = network_config;
        assert(self@.starts_with(config));
        let started = start_network(network_config);
        let ghost started_view = started;
        let (network_service, timer) = started;
        let state = if self.first {
            match first_elder(network_service, full_id, network_cfg, timer) {
                Ok(elder) => State::Elder(elder),
                Err(_) => State::Terminated,
            }
        } else {
            State::BootstrappingPeer(
                BootstrappingPeer::new(network_service, full_id, network_cfg, timer),
            )
        };
        assert(initial_state(
            self@.first,
            full_id,
            self@.network_cfg,
            started_view,
            first_elder,
            state,
        ));
        StateMachine::new(state)
    }
}

/// `state` is what a new node starts in: that of an elder, if it is to start a network and
/// `first_elder` makes one, or else that of a terminated node; if it is not to start a network, it
/// looks for one.
pub open spec fn initial_state<
    E: FnOnce(NetworkService, FullId, NetworkParams, Timer) -> Result<Elder, RoutingError>,
>(
    first: bool,
    id: FullId,
    network_cfg: NetworkParams,
    started: (NetworkService, Timer),
    first_elder: E,
    state: State,
) -> bool {
    if first {
        exists|elder: Result<Elder, RoutingError>|
            {
                &&& #[trigger] call_ensures(
                    first_elder,
                    (started.0, id, network_cfg, started.1),
                    elder,
                )
                &&& state == (match elder {
                    Ok(elder) => State::Elder(elder),
                    Err(_) => State::Terminated,
                })
            }
    } else {
        state matches State::BootstrappingPeer(peer) && peer@ == (BootstrappingPeerView {
            network_service: started.0@,
            full_id: id@,
            network_cfg,
            timer: started.1@,
        })
    }
}

/// Interface to what a node knows and decides, in the role of a full routing node.
pub struct Node {
    machine: StateMachine,
}

impl Node {
    /// The state that the node is in.
    pub closed spec fn spec_state(self) -> State {
        self.machine.spec_current()
    }

    /// What the node knows of its section, if it is a member of one.
    pub open spec fn spec_chain(self) -> Option<ChainView> {
        self.spec_state().spec_chain()
    }

    /// The state of the node after `change` was made to the state of the elder, if it is one.
    pub open spec fn elder_changed(
        before: Self,
        after: Self,
        change: spec_fn(ElderView) -> ElderView,
    ) -> bool {
        match before.spec_state() {
            State::Elder(elder) => after.spec_state() matches State::Elder(e) && e@ == change(
                elder@,
            ),
            other => after.spec_state() == other,
        }
    }

    /// Creates a new builder to configure and create a `Node`.
    pub fn builder() -> (r: NodeBuilder)
        ensures
            r@ == (NodeBuilderView {
                first: false,
                network_config: None,
                full_id: None,
                network_cfg: NetworkParams {
                    elder_size: ELDER_SIZE,
                    safe_section_size: SAFE_SECTION_SIZE,
                },
            }),
    {
        NodeBuilder {
            first: false,
            network_config: None,
            full_id: None,
            network_cfg: NetworkParams::default(),
        }
    }

    /// The node with the given state machine.
    pub fn new(machine: StateMachine) -> (r: Self)
        ensures
            r.spec_state() == machine.spec_current(),
    {
        Node { machine }
    }

    /// The state that the node is in.
    pub fn state(&self) -> (r: &State)
        ensures
            *r == self.spec_state(),
    {
        self.machine.current()
    }

    /// The state that the node is in, to be changed.
    pub fn state_mut(&mut self) -> (r: &mut State)
        ensures
            *r == old(self).spec_state(),
            final(self).spec_state() == *final(r),
    {
        self.machine.current_mut()
    }

    /// Returns the first `count` names of the nodes in the routing table which are closest
    /// to the given one.
    pub fn close_group(&self, name: XorName, count: usize) -> (r: Option<Vec<XorName>>)
        ensures
            match r {
                Some(names) => self.spec_chain() matches Some(c) && closeness::are_closest(
                    value::views(names@),
                    chain::names_of(c.elders()).to_set(),
                    name@,
                    count as int,
                ),
                None => self.spec_chain() is None,
            },
    {
        match self.chain() {
            Some(chain) => Some(chain.close_group(&name, count)),
            None => None,
        }
    }

    /// Returns the `PublicId` of this node.
    pub fn id(&self) -> (r: Result<PublicId, RoutingError>)
        ensures
            match r {
                Ok(id) => self.spec_state().spec_id() == Some(id@),
                Err(error) => error == RoutingError::Terminated
                    && self.spec_state().spec_id() is None,
            },
    {
        match self.machine.current().id() {
            Some(id) => Ok(id),
            None => Err(RoutingError::Terminated),
        }
    }

    /// Vote for a custom event.
    pub fn vote_for(&mut self, event: Vec<u8>)
        ensures
            Node::elder_changed(
                *old(self),
                *final(self),
                |e: ElderView| ElderView { user_votes: e.user_votes.push(event@), ..e },
            ),
    {
        if let Some(elder) = self.machine.current_mut().elder_state_mut() {
            elder.vote_for_user_event(event);
        }
    }
}

impl Node {
    /// Returns the chain for this node.
    fn chain(&self) -> (r: Option<&Chain>)
        ensures
            match r {
                Some(chain) => self.spec_chain() == Some(chain@),
                None => self.spec_chain() is None,
            },
    {
        self.machine.current().chain()
    }

    /// Returns the underlying Elder state.
    pub fn elder_state(&self) -> (r: Option<&Elder>)
        ensures
            r == (match self.spec_state() {
                State::Elder(elder) => Some(&elder),
                _ => None,
            }),
    {
        self.machine.current().elder_state()
    }

    /// Returns mutable reference to the underlying Elder state.
    pub fn elder_state_mut(&mut self) -> (r: Option<&mut Elder>)
        ensures
            match r {
                Some(elder) => {
                    &&& old(self).spec_state() == State::Elder(*elder)
                    &&& final(self).spec_state() == State::Elder(*final(elder))
                },
                None => {
                    &&& !(old(self).spec_state() is Elder)
                    &&& final(self).spec_state() == old(self).spec_state()
                },
            },
    {
        self.machine.current_mut().elder_state_mut()
    }

    /// Returns the underlying Elder state unwrapped.
    pub fn elder_state_unchecked(&self) -> (r: &Elder)
        requires
            self.spec_state() is Elder,
        ensures
            self.spec_state() == State::Elder(*r),
    {
        self.elder_state().unwrap()
    }

    /// Returns whether the current state is `Elder`.
    pub fn is_elder(&self) -> (r: bool)
        ensures
            r == self.spec_state() is Elder,
    {
        self.elder_state().is_some()
    }

    /// Our `Prefix` once we are a part of the section.
    pub fn our_prefix(&self) -> (r: Option<&Prefix>)
        ensures
            match r {
                Some(prefix) => self.spec_chain() matches Some(c) && prefix@
                    == c.state.our_info().prefix,
                None => self.spec_chain() is None,
            },
    {
        match self.chain() {
            Some(chain) => Some(chain.our_prefix()),
            None => None,
        }
    }

    /// Our `XorName`.
    pub fn our_name(&self) -> (r: Option<&XorName>)
        ensures
            match r {
                Some(name) => self.spec_chain() matches Some(c) && name@ == c.our_id,
                None => self.spec_chain() is None,
            },
    {
        match self.chain() {
            Some(chain) => Some(chain.our_id().name()),
            None => None,
        }
    }

    /// Returns the prefixes of all our neighbours signed by our section
    pub fn neighbour_prefixes(&self) -> (r: OrderedSet<Prefix>)
        ensures
            r@ == (match self.spec_chain() {
                Some(c) => c.neighbour_prefixes(),
                None => Set::empty(),
            }),
    {
        match self.chain() {
            Some(chain) => chain.neighbour_prefixes(),
            None => OrderedSet::new(),
        }
    }

    /// Collects prefixes of all sections known by the routing table.
    pub fn prefixes(&self) -> (r: OrderedSet<Prefix>)
        ensures
            r@ == (match self.spec_chain() {
                Some(c) => c.prefixes(),
                None => Set::empty(),
            }),
    {
        match self.chain() {
            Some(chain) => chain.prefixes(),
            None => OrderedSet::new(),
        }
    }

    /// Returns the elder info version of a section with the given prefix.
    /// Prefix must be either our prefix or of one of our neighbours. 0 otherwise.
    pub fn section_elder_info_version(&self, prefix: &Prefix) -> (r: u64)
        ensures
            r == (match self.spec_section(prefix@) {
                Some(info) => info.version,
                None => 0,
            }),
    {
        match self.chain() {
            Some(chain) => match chain.get_section(prefix) {
                Some(info) => *info.version(),
                None => 0,
            },
            None => 0,
        }
    }

    /// Returns the elder of a section with the given prefix.
    /// Prefix must be either our prefix or of one of our neighbours. Returns empty set otherwise.
    pub fn section_elders(&self, prefix: &Prefix) -> (r: OrderedSet<XorName>)
        ensures
            r@ == (match self.spec_section(prefix@) {
                Some(info) => info.members.dom(),
                None => Set::empty(),
            }),
    {
        match self.chain() {
            Some(chain) => match chain.get_section(prefix) {
                Some(info) => info.member_names(),
                None => OrderedSet::new(),
            },
            None => OrderedSet::new(),
        }
    }

    /// The info of the section with the given prefix, if the node knows it.
    pub open spec fn spec_section(self, prefix: Seq<bool>) -> Option<EldersInfoView> {
        match self.spec_chain() {
            Some(c) => c.section(prefix),
            None => None,
        }
    }

    /// Returns the elders we should be connected to.
    pub fn elders(&self) -> (r: Vec<&PublicId>)
        ensures
            match self.spec_chain() {
                Some(c) => {
                    &&& r@.len() == c.elders().len()
                    &&& forall|i: int|
                        0 <= i < r@.len() ==> (#[trigger] r@[i])@ == c.elders()[i].public_id
                },
                None => r@.len() == 0,
            },
    {
        let mut r: Vec<&PublicId> = Vec::new();
        if let Some(chain) = self.chain() {
            let nodes = chain.elders();
            let ghost all = chain@.elders();
            for i in 0..nodes.len()
                invariant
                    nodes@.len() == all.len(),
                    forall|j: int| 0 <= j < nodes@.len() ==> (#[trigger] nodes@[j])@ == all[j],
                    r@.len() == i,
                    forall|j: int| 0 <= j < i ==> (#[trigger] r@[j])@ == all[j].public_id,
            {
                assert(nodes@[i as int]@ == all[i as int]);
                r.push(nodes[i].public_id());
            }
        }
        r
    }

    /// Returns their knowledge
    pub fn get_their_knowledge(&self) -> (r: OrderedMap<Prefix, u64>)
        ensures
            r@ == (match self.spec_chain() {
                Some(c) => c.state.their_knowledge,
                None => Map::empty(),
            }),
    {
        match self.chain() {
            Some(chain) => chain.get_their_knowledge().duplicate(),
            None => OrderedMap::new(),
        }
    }

    /// If our section is the closest one to `name`, returns all names in our section *including
    /// ours*, otherwise returns `None`.
    pub fn close_names(&self, name: &XorName) -> (r: Option<Vec<XorName>>)
        ensures
            match r {
                Some(names) => self.spec_chain() matches Some(c) && c.close_names(name@) == Some(
                    value::views(names@),
                ),
                None => self.spec_chain() matches Some(c) ==> c.close_names(name@) is None,
            },
    {
        match self.chain() {
            Some(chain) => chain.close_names(name),
            None => None,
        }
    }

    /// Returns the number of elders this vault is using.
    /// Only if we have a chain (meaning we are elders or adults) we will process this API
    pub fn elder_size(&self) -> (r: Option<usize>)
        ensures
            r == (match self.spec_chain() {
                Some(c) => Some(c.elder_size),
                None => None,
            }),
    {
        match self.chain() {
            Some(chain) => Some(chain.elder_size),
            None => None,
        }
    }

    /// Size at which our section splits. Since this is configurable, this method is used to
    /// obtain it.
    ///
    /// Only if we have a chain (meaning we are elders) we will process this API
    pub fn min_split_size(&self) -> (r: Option<usize>)
        ensures
            r == (match self.spec_chain() {
                Some(c) => Some(c.min_split_size),
                None => None,
            }),
    {
        match self.chain() {
            Some(chain) => Some(chain.min_split_size),
            None => None,
        }
    }

    /// Sets a name to be used when the next node relocation request is received by this node.
    pub fn set_next_relocation_dst(&mut self, dst: Option<XorName>)
        ensures
            Node::elder_changed(
                *old(self),
                *final(self),
                |e: ElderView| ElderView { next_relocation_dst: dst, ..e },
            ),
    {
        if let Some(elder) = self.elder_state_mut() {
            elder.set_next_relocation_dst(dst);
        }
    }

    /// Sets an interval to be used when a node is required to generate a new name.
    pub fn set_next_relocation_interval(&mut self, interval: Option<XorTargetInterval>)
        ensures
            Node::elder_changed(
                *old(self),
                *final(self),
                |e: ElderView| ElderView { next_relocation_interval: interval, ..e },
            ),
    {
        if let Some(elder) = self.elder_state_mut() {
            elder.set_next_relocation_interval(interval);
        }
    }

    /// Indicates if there is anything that the elders have yet to agree on.
    pub fn has_unpolled_observations(&self) -> (r: bool)
        ensures
            r == (match self.spec_state() {
                State::Elder(elder) => elder@.has_unpolled_observations,
                _ => false,
            }),
    {
        match self.elder_state() {
            Some(elder) => elder.has_unpolled_observations,
            None => false,
        }
    }

    /// Indicates if this node has the connection info to the given peer.
    pub fn is_connected(&self, name: &XorName) -> (r: bool)
        ensures
            r == self.spec_state().spec_peers().contains_key(name@),
    {
        self.machine.current().is_connected(name)
    }

    /// `prove` can find the given proof in what the node knows of its section.
    pub open spec fn proves<F: FnOnce(&Chain, &Authority) -> SectionProofChain>(
        self,
        target: &Authority,
        prove: F,
        proof_chain: SectionProofChain,
    ) -> bool {
        exists|chain: &Chain|
            self.spec_chain() == Some(chain@) && #[trigger] call_ensures(
                prove,
                (chain, target),
                proof_chain,
            )
    }

    /// Provide a SectionProofChain that proves the given signature to the section with a given
    /// prefix, as `prove` finds it in what the node knows of its section.
    pub fn prove<F: FnOnce(&Chain, &Authority) -> SectionProofChain>(
        &self,
        target: &Authority,
        prove: F,
    ) -> (r: Option<SectionProofChain>)
        requires
            forall|chain: &Chain| call_requires(prove, (chain, target)),
        ensures
            match r {
                Some(proof_chain) => self.proves(target, prove, proof_chain),
                None => self.spec_chain() is None,
            },
    {
        match self.chain() {
            Some(chain) => {
                let proof_chain = prove(chain, target);
                Some(proof_chain)
            },
            None => None,
        }
    }

    /// Checks whether the given authority represents self.
    pub fn in_authority(&self, auth: &Authority) -> (r: bool)
        ensures
            r == self.spec_state().spec_in_authority(auth@),
    {
        self.machine.current().in_authority(auth)
    }

    /// Get the number of accumulated `ParsecPrune` events. This is only used until we have
    /// implemented acting on the accumulated events, at which point this function will be removed.
    pub fn parsec_prune_accumulated(&self) -> (r: Option<usize>)
        ensures
            r == (match self.spec_chain() {
                Some(c) => Some(c.parsec_prune_accumulated),
                None => None,
            }),
    {
        match self.chain() {
            Some(chain) => Some(chain.parsec_prune_accumulated),
            None => None,
        }
    }

    /// Trigger relocation of the given node to a section matching the given destination address.
    pub fn trigger_relocation(&mut self, node_id: PublicId, destination_address: XorName)
        ensures
            Node::elder_changed(
                *old(self),
                *final(self),
                |e: ElderView|
                    ElderView {
                        relocations: e.relocations.push((node_id@, destination_address@)),
                        ..e
                    },
            ),
    {
        if let Some(elder) = self.elder_state_mut() {
            elder.trigger_relocation(node_id, destination_address);
        }
    }
}

/// What the builder is told last counts, whatever else it is told in between: the settings do not
/// depend on each other or on the order in which they are made.
pub proof fn law_settings_are_independent(
    builder: NodeBuilderView,
    first: bool,
    config: NetworkConfig,
    full_id: FullId,
    network_cfg: NetworkParams,
    other_first: bool,
    other_config: NetworkConfig,
    other_full_id: FullId,
    other_network_cfg: NetworkParams,
)
    ensures
        ({
            let set = builder.with_first(first).with_network_config(config).with_full_id(
                full_id,
            ).with_network_cfg(network_cfg);
            &&& set == builder.with_network_cfg(other_network_cfg).with_full_id(
                other_full_id,
            ).with_network_config(other_config).with_first(other_first).with_network_cfg(
                network_cfg,
            ).with_full_id(full_id).with_network_config(config).with_first(first)
            &&& set.first == first
            &&& set.network_config == Some(config)
            &&& set.full_id == Some(full_id)
            &&& set.network_cfg == network_cfg
        }),
{
}

/// The network is always started as a node. The port and the contacts are those that the builder
/// was given; without a config there are none.
pub proof fn law_network_is_started_as_node(builder: NodeBuilderView, config: NetworkConfig)
    requires
        builder.starts_with(config),
    ensures
        config.our_type == OurType::Node,
        builder.network_config matches Some(given) ==> config.port == given.port
            && config.hard_coded_contacts == given.hard_coded_contacts,
        builder.network_config is None ==> config.port is None
            && config.hard_coded_contacts@.len() == 0,
{
}

/// What a new node starts in. If it is not to start a network, it looks for one with just what it
/// was given. If it is, it starts as the elder that was made for it, or has terminated because none
/// could be made.
pub proof fn law_start_of_a_node<
    E: FnOnce(NetworkService, FullId, NetworkParams, Timer) -> Result<Elder, RoutingError>,
>(
    first: bool,
    id: FullId,
    network_cfg: NetworkParams,
    service: NetworkService,
    timer: Timer,
    first_elder: E,
    state: State,
)
    requires
        initial_state(first, id, network_cfg, (service, timer), first_elder, state),
    ensures
        !first ==> {
            &&& state is BootstrappingPeer
            &&& state->BootstrappingPeer_0@.network_service == service@
            &&& state->BootstrappingPeer_0@.full_id == id@
            &&& state->BootstrappingPeer_0@.network_cfg == network_cfg
            &&& state->BootstrappingPeer_0@.timer == timer@
        },
        first ==> state is Elder || state is Terminated,
        first && state is Elder ==> call_ensures(
            first_elder,
            (service, id, network_cfg, timer),
            Ok(state->Elder_0),
        ),
        first && state is Terminated ==> exists|error: RoutingError| #[trigger]
            call_ensures(first_elder, (service, id, network_cfg, timer), Err(error)),
{
    if first {
        let elder = choose|elder: Result<Elder, RoutingError>|
            {
                &&& #[trigger] call_ensures(
                    first_elder,
                    (service, id, network_cfg, timer),
                    elder,
                )
                &&& state == (match elder {
                    Ok(elder) => State::Elder(elder),
                    Err(_) => State::Terminated,
                })
            };
        match elder {
            Ok(e) => {
                assert(call_ensures(first_elder, (service, id, network_cfg, timer), Ok(e)));
            },
            Err(e) => {
                assert(call_ensures(first_elder, (service, id, network_cfg, timer), Err(e)));
            },
        }
    }
}

/// A change that is meant for an elder reaches the elder, which stays one; a node that is none
/// stays exactly as it is.
pub proof fn law_only_elders_are_changed(
    before: Node,
    after: Node,
    change: spec_fn(ElderView) -> ElderView,
)
    requires
        Node::elder_changed(before, after, change),
    ensures
        before.spec_state() is Elder <==> after.spec_state() is Elder,
        before.spec_state() is Elder ==> after.spec_state()->Elder_0@ == change(
            before.spec_state()->Elder_0@,
        ),
        !(before.spec_state() is Elder) ==> after.spec_state() == before.spec_state(),
{
}

/// A node knows its own section and those that it has registered around its own, and no others. A
/// node that is no member of a section knows none.
pub proof fn law_sections_of_a_node(node: Node, p: Seq<bool>)
    ensures
        node.spec_chain() is None ==> node.spec_section(p) is None,
        node.spec_chain() matches Some(c) ==> {
            let ours = c.state.our_infos[c.state.our_infos.len() - 1];
            &&& node.spec_section(ours.prefix) == Some(ours)
            &&& p != ours.prefix ==> (node.spec_section(p) is Some
                <==> c.state.neighbour_infos.contains_key(p))
            &&& p != ours.prefix && node.spec_section(p) is Some ==> node.spec_section(p)->0
                == c.state.neighbour_infos[p]
        },
        node.spec_chain() is Some <==> node.spec_state() is Adult || node.spec_state() is Elder,
{
}

/// A proof is what `prove` has found for the target in what the node itself knows of its section; a
/// node that is no member of a section proves nothing.
pub proof fn law_proofs_come_from_own_section<
    F: FnOnce(&Chain, &Authority) -> SectionProofChain,
>(node: Node, target: &Authority, prove: F, proof_chain: SectionProofChain)
    requires
        node.proves(target, prove, proof_chain),
    ensures
        node.spec_chain() is Some,
        exists|chain: &Chain| #[trigger]
            call_ensures(prove, (chain, target), proof_chain) && chain@ == node.spec_chain()->0,
{
    let chain = choose|chain: &Chain|
        node.spec_chain() == Some(chain@) && #[trigger] call_ensures(
            prove,
            (chain, target),
            proof_chain,
        );
    assert(call_ensures(prove, (chain, target), proof_chain));
}

/// The answers of a node that is a member of a section fit together. It counts its own prefix, and
/// those of its neighbours, among the known ones. The elders of the section with its own prefix,
/// the version of that section and the close names are all those of its current info.
pub proof fn law_answers_of_a_member_fit_together(
    node: &Node,
    prefix: &Prefix,
    known: OrderedSet<Prefix>,
    around: OrderedSet<Prefix>,
    elders: OrderedSet<XorName>,
    version: u64,
    name: &XorName,
    close: Option<Vec<XorName>>,
    p: Seq<bool>,
    id: Seq<u8>,
)
    requires
        call_ensures(Node::our_prefix, (node,), Some(prefix)),
        call_ensures(Node::prefixes, (node,), known),
        call_ensures(Node::neighbour_prefixes, (node,), around),
        call_ensures(Node::section_elders, (node, prefix), elders),
        call_ensures(Node::section_elder_info_version, (node, prefix), version),
        call_ensures(Node::close_names, (node, name), close),
        elders@.finite(),
    ensures
        node.spec_state() is Adult || node.spec_state() is Elder,
        known@.contains(p) <==> p == prefix@ || around@.contains(p),
        ({
            let infos = node.spec_chain()->0.state.our_infos;
            let ours = infos[infos.len() - 1];
            let bits = xor_name::name_bits(name@);
            &&& prefix@ == ours.prefix
            &&& version == ours.version
            &&& elders@.contains(id) <==> ours.members.contains_key(id)
            &&& close is Some <==> prefix@.len() <= bits.len() && forall|i: int|
                0 <= i < prefix@.len() ==> prefix@[i] == bits[i]
            &&& close is Some ==> (value::views(close->0@).contains(id) <==> elders@.contains(id))
        }),
{
    let c = node.spec_chain()->0;
    chain::law_close_names_are_ours(c, name@, id);
}

/// What a member of a section tells of itself is what it knows of its section.
pub proof fn law_answers_of_a_member(
    node: &Node,
    name: Option<&XorName>,
    elders: Vec<&PublicId>,
    knowledge: OrderedMap<Prefix, u64>,
    elder_size: Option<usize>,
    min_split_size: Option<usize>,
    pruned: Option<usize>,
    i: int,
)
    requires
        node.spec_chain() is Some,
        call_ensures(Node::our_name, (node,), name),
        call_ensures(Node::elders, (node,), elders),
        call_ensures(Node::get_their_knowledge, (node,), knowledge),
        call_ensures(Node::elder_size, (node,), elder_size),
        call_ensures(Node::min_split_size, (node,), min_split_size),
        call_ensures(Node::parsec_prune_accumulated, (node,), pruned),
    ensures
        ({
            let c = node.spec_chain()->0;
            &&& name matches Some(n) && n@ == c.our_id
            &&& elders@.len() == c.elders().len()
            &&& 0 <= i < elders@.len() ==> elders@[i]@ == c.elders()[i].public_id
            &&& knowledge@ == c.state.their_knowledge
            &&& elder_size == Some(c.elder_size)
            &&& min_split_size == Some(c.min_split_size)
            &&& pruned == Some(c.parsec_prune_accumulated)
        }),
{
}

/// A node that is no member of a section knows of none, has no elders to connect to and nothing to
/// tell of itself.
pub proof fn law_answers_of_an_outsider(
    node: &Node,
    prefix: &Prefix,
    own_prefix: Option<&Prefix>,
    name: Option<&XorName>,
    known: OrderedSet<Prefix>,
    around: OrderedSet<Prefix>,
    section_elders: OrderedSet<XorName>,
    version: u64,
    elders: Vec<&PublicId>,
    knowledge: OrderedMap<Prefix, u64>,
    elder_size: Option<usize>,
    p: Seq<bool>,
    id: Seq<u8>,
)
    requires
        !(node.spec_state() is Adult) && !(node.spec_state() is Elder),
        call_ensures(Node::our_prefix, (node,), own_prefix),
        call_ensures(Node::our_name, (node,), name),
        call_ensures(Node::prefixes, (node,), known),
        call_ensures(Node::neighbour_prefixes, (node,), around),
        call_ensures(Node::section_elders, (node, prefix), section_elders),
        call_ensures(Node::section_elder_info_version, (node, prefix), version),
        call_ensures(Node::elders, (node,), elders),
        call_ensures(Node::get_their_knowledge, (node,), knowledge),
        call_ensures(Node::elder_size, (node,), elder_size),
    ensures
        own_prefix is None,
        name is None,
        !known@.contains(p),
        !around@.contains(p),
        !section_elders@.contains(id),
        version == 0,
        elders@.len() == 0,
        !knowledge@.contains_key(p),
        elder_size is None,
{
}

/// What a node tells of its role: its id unless it has terminated, whether it is an elder, whom it
/// is connected to, and whether the elders have yet to agree on something.
pub proof fn law_answers_about_the_role(
    node: &Node,
    id: Result<PublicId, RoutingError>,
    is_elder: bool,
    unpolled: bool,
    name: &XorName,
    connected: bool,
)
    requires
        call_ensures(Node::id, (node,), id),
        call_ensures(Node::is_elder, (node,), is_elder),
        call_ensures(Node::has_unpolled_observations, (node,), unpolled),
        call_ensures(Node::is_connected, (node, name), connected),
    ensures
        id is Err <==> node.spec_state() is Terminated,
        id matches Err(error) ==> error == RoutingError::Terminated,
        is_elder <==> node.spec_state() is Elder,
        unpolled ==> is_elder,
        node.spec_state() matches State::Elder(elder) ==> {
            &&& unpolled == elder.has_unpolled_observations
            &&& connected == elder.peer_map@.contains_key(name@)
            &&& id matches Ok(i) && i@ == elder.full_id@.public_id
        },
        node.spec_state() matches State::Adult(adult) ==> {
            &&& connected == adult.details.peer_map@.contains_key(name@)
            &&& id matches Ok(i) && i@ == adult.details.full_id@.public_id
        },
        node.spec_state() matches State::JoiningPeer(peer) ==> {
            &&& connected == peer@.peer_map.contains_key(name@)
            &&& id matches Ok(i) && i@ == peer@.full_id.public_id
        },
        node.spec_state() matches State::BootstrappingPeer(peer) ==> {
            &&& !connected
            &&& id matches Ok(i) && i@ == peer@.full_id.public_id
        },
        node.spec_state() is Terminated ==> !connected,
{
}

/// The close group of a member consists of elders that it should be connected to, as many as were
/// asked for or else all of them, and no other elder is closer.
pub proof fn law_close_group_of_a_member(
    node: &Node,
    name: XorName,
    count: usize,
    group: Option<Vec<XorName>>,
    other: Seq<u8>,
    i: int,
)
    requires
        call_ensures(Node::close_group, (node, name, count), group),
    ensures
        group is Some <==> node.spec_state() is Adult || node.spec_state() is Elder,
        group matches Some(close) ==> {
            let elders = chain::names_of(node.spec_chain()->0.elders());
            let names = value::views(close@);
            &&& names.len() <= count
            &&& 0 <= i < names.len() ==> elders.contains(names[i])
            &&& elders.contains(other) && !names.contains(other) ==> names.len() == count
            &&& elders.contains(other) && !names.contains(other) && 0 <= i < names.len()
                ==> xor_name::bytes_before(
                xor_name::distance(names[i], name@),
                xor_name::distance(other, name@),
            )
        },
{
    if let Some(close) = group {
        let elders = chain::names_of(node.spec_chain()->0.elders());
        let names = value::views(close@);
        let all = elders.to_set();
        closeness::law_left_out_names_are_farther(names, all, name@, count as int, other);
        vstd::seq_lib::seq_to_set_is_finite(elders);
        closeness::law_closest_names_in_order(names, all, name@, count as int, i, i);
    }
}

} // verus!
