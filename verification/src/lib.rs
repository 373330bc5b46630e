//! A registry of known peer addresses for a peer-to-peer node.
//!
//! The crate is organised in four modules:
//!
//! * [`address`]: the network address of a peer, held as plain integers;
//! * [`peers`]: the address book, a duplicate-free collection of valid
//!   addresses with `add`, `remove` and a random pick;
//! * [`messages`]: the three requests `AddPeer`, `RemovePeer` and `GetPeer`,
//!   and the form of their answer;
//! * [`manager`]: the registry that owns one address book, absorbs the
//!   bootstrap peers of the configuration once at start-up and then answers
//!   the requests.
//!
//! The functions are verified against contracts stated over the
//! mathematical model of each type: a sequence of addresses for the book, a
//! pair of lifecycle phase and book for the registry. The random number
//! behind a pick comes from the operating system; nothing is assumed of it,
//! not even that there is one, and no function of the crate panics.

pub mod address;
pub mod manager;
pub mod messages;
pub mod peers;
