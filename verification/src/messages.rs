//! The requests that the registry answers.

use crate::address::PeerAddress;
use crate::peers::PeersResult;
use vstd::prelude::*;

verus! {

/// The answer to each of the three requests: the address that the request
/// touched or chose, nothing, or the reason for which the address book
/// refused the request.
pub type PeersSocketAddrResult = PeersResult<Option<PeerAddress>>;

/// Request to add a peer to the known ones.
#[derive(Clone, Copy, Debug)]
pub struct AddPeer {
    /// Address of the peer
    pub address: PeerAddress,
}

/// Request to remove a peer from the known ones.
#[derive(Clone, Copy, Debug)]
pub struct RemovePeer {
    /// Address of the peer
    pub address: PeerAddress,
}

/// Request for one of the known peers, chosen at random.
#[derive(Clone, Copy, Debug)]
pub struct GetPeer;

} // verus!
