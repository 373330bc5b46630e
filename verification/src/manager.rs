//! The registry of peers: one address book, filled once from the
//! configuration at start-up and then changed and read by requests only.
//!
//! The registry does no waiting of its own. Its caller tells it that it runs
//! ([`PeersManager::started`]), fetches the configuration when asked to, and
//! hands the answer over ([`PeersManager::bootstrap`]). The three requests are
//! meant to be handed over one at a time once the registry is ready; a caller
//! that receives requests earlier keeps them until then. The handlers
//! themselves answer in every phase, from the address book as it stands.

use crate::address::PeerAddress;
use crate::messages::{AddPeer, GetPeer, PeersSocketAddrResult, RemovePeer};
use crate::peers::{
    add_all_results, add_result, after_add, after_add_all, after_remove, is_pick_of,
    lemma_after_add_all_contents, lemma_after_remove_well_formed, lemma_pick_of_empty,
    remove_result, well_formed, Peers,
};
use vstd::prelude::*;

verus! {

/// Where the registry stands in its life. It only ever moves forward, from
/// `Uninitialized` over `Bootstrapping` to `Ready`, and stays there.
#[derive(Clone, Copy, Debug, PartialEq, Eq, Structural)]
pub enum Phase {
    /// Constructed; the configuration was not asked for yet.
    Uninitialized,
    /// The configuration was asked for and is awaited.
    Bootstrapping,
    /// The bootstrap peers were absorbed, or the attempt was given up.
    Ready,
}

/// What the caller of [`PeersManager::started`] has to do next.
#[derive(Clone, Copy, Debug, PartialEq, Eq, Structural)]
pub enum StartupAction {
    /// Ask the configuration provider, once, and hand its answer to
    /// [`PeersManager::bootstrap`].
    RequestConfig,
    /// The registry is ready: nothing is to be done.
    Nothing,
}

/// The part of the configuration that the registry reads.
#[derive(Debug)]
pub struct Config {
    /// The peers to begin with.
    pub known_peers: Vec<PeerAddress>,
}

/// Why no configuration was had.
#[derive(Clone, Copy, Debug, PartialEq, Eq, Structural)]
pub enum ConfigError {
    /// The provider did not answer.
    Unavailable,
    /// The provider answered with nothing usable.
    Malformed,
}

/// The bootstrap peers that an answer of the configuration provider carries:
/// those of the configuration, and none where the provider failed.
pub open spec fn bootstrap_peers(response: Result<Config, ConfigError>) -> Seq<PeerAddress> {
    match response {
        Ok(config) => config.known_peers@,
        Err(_) => Seq::empty(),
    }
}

/// The registry as a mathematical value: its phase and the known peers in
/// their order of arrival.
pub struct RegistryState {
    pub phase: Phase,
    pub book: Seq<PeerAddress>,
}

impl RegistryState {
    /// The registry as constructed.
    pub open spec fn initial() -> RegistryState {
        RegistryState { phase: Phase::Uninitialized, book: Seq::empty() }
    }

    /// The registry after it was told that it runs: it awaits the
    /// configuration, unless it is ready.
    pub open spec fn started(self) -> RegistryState {
        if self.phase == Phase::Ready {
            self
        } else {
            RegistryState { phase: Phase::Bootstrapping, book: self.book }
        }
    }

    /// What the registry asks of its caller when it is told that it runs. A
    /// registry that awaits the configuration already asks for it again:
    /// it is told so only where the earlier request was given up.
    pub open spec fn startup_action(self) -> StartupAction {
        if self.phase == Phase::Ready {
            StartupAction::Nothing
        } else {
            StartupAction::RequestConfig
        }
    }

    /// The registry after the configuration provider answered with `peers`.
    /// Only a registry that awaits the answer takes it.
    pub open spec fn bootstrapped(self, peers: Seq<PeerAddress>) -> RegistryState {
        if self.phase == Phase::Bootstrapping {
            RegistryState { phase: Phase::Ready, book: after_add_all(self.book, peers) }
        } else {
            self
        }
    }

    /// What became of each bootstrap peer, in the order of `peers`.
    pub open spec fn bootstrap_outcomes(self, peers: Seq<PeerAddress>) -> Seq<
        PeersSocketAddrResult,
    > {
        if self.phase == Phase::Bootstrapping {
            add_all_results(self.book, peers)
        } else {
            Seq::empty()
        }
    }

    /// The registry after a request to add `address`.
    pub open spec fn add_peer(self, address: PeerAddress) -> RegistryState {
        RegistryState { phase: self.phase, book: after_add(self.book, address) }
    }

    /// The registry after a request to remove `address`.
    pub open spec fn remove_peer(self, address: PeerAddress) -> RegistryState {
        RegistryState { phase: self.phase, book: after_remove(self.book, address) }
    }
}

/// Manages the list of peers that the node may connect to.
pub struct PeersManager {
    /// Known peers
    peers: Peers,
    phase: Phase,
}

impl View for PeersManager {
    type V = RegistryState;

    closed spec fn view(&self) -> RegistryState {
        RegistryState { phase: self.phase, book: self.peers@ }
    }
}

impl PeersManager {
    /// A registry that knows no peer and was not started yet.
    pub fn new() -> (manager: PeersManager)
        ensures
            manager@ == RegistryState::initial(),
    {
        PeersManager { peers: Peers::new(), phase: Phase::Uninitialized }
    }

    /// Tells the registry that it runs. A registry that is not ready yet
    /// awaits the configuration from then on and asks for it, also where it
    /// was told so before: its caller then gave the earlier request up, and
    /// of two answers the first is taken. A registry that is ready stays as
    /// it is and asks for nothing.
    pub fn started(&mut self) -> (action: StartupAction)
        ensures
            action == old(self)@.startup_action(),
            final(self)@ == old(self)@.started(),
    {
        match self.phase {
            Phase::Ready => StartupAction::Nothing,
            _ => {
                self.phase = Phase::Bootstrapping;
                StartupAction::RequestConfig
            },
        }
    }

    /// Takes the answer of the configuration provider. A registry that
    /// awaits it adds each bootstrap peer on its own, in the order of the
    /// configuration, and is ready afterwards, also where the provider
    /// failed or a peer was refused. The outcomes of the additions are
    /// returned in that order. A registry that does not await the answer
    /// ignores it.
    pub fn bootstrap(&mut self, response: Result<Config, ConfigError>) -> (outcomes: Vec<
        PeersSocketAddrResult,
    >)
        ensures
            final(self)@ == old(self)@.bootstrapped(bootstrap_peers(response)),
            outcomes@ == old(self)@.bootstrap_outcomes(bootstrap_peers(response)),
    {
        let mut outcomes: Vec<PeersSocketAddrResult> = Vec::new();
        match self.phase {
            Phase::Bootstrapping => {},
            _ => {
                return outcomes;
            },
        }
        let ghost before = self.peers@;
        if let Ok(config) = response {
            let ghost known = config.known_peers@;
            let mut next: usize = 0;
            while next < config.known_peers.len()
                invariant
                    next <= known.len(),
                    known == config.known_peers@,
                    self.phase == Phase::Bootstrapping,
                    self.peers@ == after_add_all(before, known.take(next as int)),
                    outcomes@ == add_all_results(before, known.take(next as int)),
                decreases known.len() - next,
            {
                let peer: PeerAddress = config.known_peers[next];
                let outcome: PeersSocketAddrResult = self.peers.add(peer);
                outcomes.push(outcome);
                proof {
                    let done = known.take(next as int);
                    let taken = known.take(next as int + 1);
                    assert(taken.drop_last() == done);
                    assert forall|i: int| 0 <= i <= next implies #[trigger] taken.take(i)
                        == done.take(i) by {
                        assert(taken.take(i) =~= done.take(i));
                    }
                    assert(outcomes@ =~= add_all_results(before, taken));
                }
                next += 1;
            }
            assert(known.take(next as int) == known);
        }
        self.phase = Phase::Ready;
        outcomes
    }

    /// Answers a request to add a peer: the address book decides, and the
    /// phase of the registry stays.
    pub fn handle_add_peer(&mut self, msg: AddPeer) -> (result: PeersSocketAddrResult)
        ensures
            result == add_result(old(self)@.book, msg.address),
            final(self)@ == old(self)@.add_peer(msg.address),
    {
        self.peers.add(msg.address)
    }

    /// Answers a request to remove a peer. A peer that is not known is no
    /// error: the answer is then `Ok(None)`.
    pub fn handle_remove_peer(&mut self, msg: RemovePeer) -> (result: PeersSocketAddrResult)
        ensures
            result == remove_result(old(self)@.book, msg.address),
            final(self)@ == old(self)@.remove_peer(msg.address),
    {
        self.peers.remove(msg.address)
    }

    /// Answers a request for a peer with one of the known peers, drawn at
    /// random, or with `Ok(None)` where none is known.
    pub fn handle_get_peer(&self, _msg: GetPeer) -> (result: PeersSocketAddrResult)
        ensures
            is_pick_of(self@.book, result),
    {
        self.peers.get_random()
    }

    /// The phase of the registry.
    pub fn phase(&self) -> (phase: Phase)
        ensures
            phase == self@.phase,
    {
        self.phase
    }

    /// The address book of the registry, which is well-formed at all times.
    pub fn peers(&self) -> (peers: &Peers)
        ensures
            peers@ == self@.book,
            well_formed(peers@),
    {
        proof {
            use_type_invariant(&self.peers);
        }
        &self.peers
    }
}

impl Default for PeersManager {
    fn default() -> (manager: PeersManager)
        ensures
            manager@ == RegistryState::initial(),
    {
        PeersManager::new()
    }
}

/// How far a phase is along the life of the registry.
pub open spec fn progress(phase: Phase) -> nat {
    match phase {
        Phase::Uninitialized => 0,
        Phase::Bootstrapping => 1,
        Phase::Ready => 2,
    }
}

/// No step takes the registry back to an earlier phase, and every step
/// leaves the address book well-formed.
pub proof fn lemma_steps_go_forward(
    state: RegistryState,
    peers: Seq<PeerAddress>,
    address: PeerAddress,
)
    requires
        well_formed(state.book),
    ensures
        progress(state.phase) <= progress(state.started().phase),
        progress(state.phase) <= progress(state.bootstrapped(peers).phase),
        state.add_peer(address).phase == state.phase,
        state.remove_peer(address).phase == state.phase,
        well_formed(state.started().book),
        well_formed(state.bootstrapped(peers).book),
        well_formed(state.add_peer(address).book),
        well_formed(state.remove_peer(address).book),
{
    lemma_after_add_all_contents(state.book, peers);
    lemma_after_remove_well_formed(state.book, address);
}

/// A registry that is ready stays ready: starting it again or handing it
/// another configuration changes nothing, and requests change the address
/// book only.
pub proof fn lemma_ready_is_final(
    state: RegistryState,
    peers: Seq<PeerAddress>,
    address: PeerAddress,
)
    requires
        state.phase == Phase::Ready,
    ensures
        state.started() == state,
        state.startup_action() == StartupAction::Nothing,
        state.bootstrapped(peers) == state,
        state.bootstrap_outcomes(peers) == Seq::<PeersSocketAddrResult>::empty(),
        state.add_peer(address).phase == Phase::Ready,
        state.remove_peer(address).phase == Phase::Ready,
{
}

/// A registry that was started before it was ready and got its
/// configuration is ready, and knows the peers it knew before and every
/// valid bootstrap peer, and no other. Starting it once more while it awaits
/// the configuration changes nothing but asks for the configuration again.
pub proof fn lemma_bootstrap_absorbs_configuration(state: RegistryState, peers: Seq<PeerAddress>)
    requires
        state.phase != Phase::Ready,
        well_formed(state.book),
    ensures
        state.started().startup_action() == StartupAction::RequestConfig,
        state.started().started() == state.started(),
        state.started().bootstrapped(peers).phase == Phase::Ready,
        forall|peer: PeerAddress|
            state.started().bootstrapped(peers).book.contains(peer) <==> state.book.contains(peer)
                || (peers.contains(peer) && peer.is_valid()),
{
    lemma_after_add_all_contents(state.book, peers);
}

/// A new registry knows no peer: a request for one is answered `Ok(None)`.
pub proof fn lemma_new_registry_picks_nothing(result: PeersSocketAddrResult)
    requires
        is_pick_of(RegistryState::initial().book, result),
    ensures
        result == Ok::<Option<PeerAddress>, crate::peers::PeersError>(None),
{
    lemma_pick_of_empty(result);
}

/// Where the configuration provider fails, a new registry still becomes
/// ready. It then knows no peer, and answers a request for one with
/// `Ok(None)`.
pub proof fn lemma_failed_bootstrap_is_survived(error: ConfigError, result: PeersSocketAddrResult)
    requires
        is_pick_of(
            RegistryState::initial().started().bootstrapped(
                bootstrap_peers(Err(error)),
            ).book,
            result,
        ),
    ensures
        RegistryState::initial().started().bootstrapped(bootstrap_peers(Err(error)))
            == (RegistryState { phase: Phase::Ready, book: Seq::empty() }),
        RegistryState::initial().started().bootstrap_outcomes(bootstrap_peers(Err(error)))
            == Seq::<PeersSocketAddrResult>::empty(),
        result == Ok::<Option<PeerAddress>, crate::peers::PeersError>(None),
{
    lemma_pick_of_empty(result);
}

} // verus!
