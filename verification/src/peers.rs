//! The address book: the peers that the node knows of.

use crate::address::PeerAddress;
use rand::rngs::OsRng;
use rand::RngCore;
use vstd::prelude::*;

verus! {

/// Why the address book refused an operation.
#[derive(Clone, Copy, Debug, PartialEq, Eq, Structural)]
pub enum PeersError {
    /// The address is already in the book.
    DuplicateAddress,
    /// No connection to the address can be attempted.
    InvalidAddress,
}

/// The result of an operation of the address book.
pub type PeersResult<T> = Result<T, PeersError>;

/// A book holds each address once, and valid addresses only.
pub open spec fn well_formed(book: Seq<PeerAddress>) -> bool {
    &&& book.no_duplicates()
    &&& forall|i: int| 0 <= i < book.len() ==> (#[trigger] book[i]).is_valid()
}

/// What adding `address` to `book` answers: the address itself where it was
/// added, and the reason where it was not.
pub open spec fn add_result(book: Seq<PeerAddress>, address: PeerAddress) -> PeersResult<
    Option<PeerAddress>,
> {
    if !address.is_valid() {
        Err(PeersError::InvalidAddress)
    } else if book.contains(address) {
        Err(PeersError::DuplicateAddress)
    } else {
        Ok(Some(address))
    }
}

/// The book after `address` was added to `book`: the address goes to the
/// end where it is accepted, and a refused one leaves the book as it was.
pub open spec fn after_add(book: Seq<PeerAddress>, address: PeerAddress) -> Seq<PeerAddress> {
    if add_result(book, address) is Ok {
        book.push(address)
    } else {
        book
    }
}

/// The book after each of `addresses` was added to `book` in turn, each on
/// its own: one that is refused does not stop those that follow.
pub open spec fn after_add_all(book: Seq<PeerAddress>, addresses: Seq<PeerAddress>) -> Seq<
    PeerAddress,
>
    decreases addresses.len(),
{
    if addresses.len() == 0 {
        book
    } else {
        after_add(after_add_all(book, addresses.drop_last()), addresses.last())
    }
}

/// What adding each of `addresses` to `book` in turn answers: the answer at
/// place `i` is that of adding `addresses[i]` to the book as those before it
/// left it.
pub open spec fn add_all_results(book: Seq<PeerAddress>, addresses: Seq<PeerAddress>) -> Seq<
    PeersResult<Option<PeerAddress>>,
> {
    Seq::new(
        addresses.len(),
        |i: int| add_result(after_add_all(book, addresses.take(i)), addresses[i]),
    )
}

/// What removing `address` from `book` answers: the address where the book
/// held it, and nothing where it did not. Removal never fails.
pub open spec fn remove_result(book: Seq<PeerAddress>, address: PeerAddress) -> PeersResult<
    Option<PeerAddress>,
> {
    if book.contains(address) {
        Ok(Some(address))
    } else {
        Ok(None)
    }
}

/// The book after `address` was removed from `book`: the others keep their
/// order.
pub open spec fn after_remove(book: Seq<PeerAddress>, address: PeerAddress) -> Seq<PeerAddress> {
    if book.contains(address) {
        book.remove(book.index_of(address))
    } else {
        book
    }
}

/// The peer at place `index` of `book`, if the book has that many.
pub open spec fn peer_at(book: Seq<PeerAddress>, index: int) -> Option<PeerAddress> {
    if 0 <= index < book.len() {
        Some(book[index])
    } else {
        None
    }
}

/// Whether `result` can be the answer of a random pick from `book`: nothing
/// from an empty book, and otherwise one of its peers. A pick never fails.
pub open spec fn is_pick_of(
    book: Seq<PeerAddress>,
    result: PeersResult<Option<PeerAddress>>,
) -> bool {
    if book.len() == 0 {
        result == Ok::<Option<PeerAddress>, PeersError>(None)
    } else {
        exists|index: int|
            0 <= index < book.len() && result == Ok::<Option<PeerAddress>, PeersError>(
                peer_at(book, index),
            )
    }
}

/// The place that a draw falls on in a book of `len` peers: the drawn number
/// reduced modulo `len`, and the first place where no number was had.
pub open spec fn place_of(drawn: Option<u64>, len: nat) -> int
    recommends
        len > 0,
{
    match drawn {
        Some(word) => word as int % len as int,
        None => 0,
    }
}

/// What a pick from `book` answers when the draw gave `drawn`: nothing from
/// an empty book, and otherwise the peer at the place of the draw.
pub open spec fn pick_with(book: Seq<PeerAddress>, drawn: Option<u64>) -> PeersResult<
    Option<PeerAddress>,
> {
    if book.len() == 0 {
        Ok(None)
    } else {
        Ok(Some(book[place_of(drawn, book.len())]))
    }
}

/// Asks the operating system for eight random bytes, with
/// `rand::RngCore::try_fill_bytes` on `rand::rngs::OsRng`, and gives them as
/// one number. Where the operating system has no bytes to give, the call
/// returns its error, and the answer here is `None`. Nothing is claimed of
/// the answer: which number it is, and whether there is one, depends on the
/// machine and on chance.
#[verifier::external_body]
fn random_word() -> (drawn: Option<u64>) {
    let mut bytes = [0u8; 8];
    match OsRng.try_fill_bytes(&mut bytes) {
        Ok(()) => Some(u64::from_le_bytes(bytes)),
        Err(_) => None,
    }
}

/// The known peers, in the order in which they were added.
pub struct Peers {
    addresses: Vec<PeerAddress>,
}

impl View for Peers {
    type V = Seq<PeerAddress>;

    closed spec fn view(&self) -> Seq<PeerAddress> {
        self.addresses@
    }
}

impl Peers {
    /// The invariant of every address book.
    #[verifier::type_invariant]
    pub open spec fn wf(&self) -> bool {
        well_formed(self@)
    }

    /// An empty address book.
    pub fn new() -> (peers: Peers)
        ensures
            peers@ == Seq::<PeerAddress>::empty(),
    {
        Peers { addresses: Vec::new() }
    }

    /// The number of known peers.
    pub fn len(&self) -> (len: usize)
        ensures
            len == self@.len(),
    {
        self.addresses.len()
    }

    /// Whether no peer is known.
    pub fn is_empty(&self) -> (empty: bool)
        ensures
            empty == (self@.len() == 0),
    {
        self.addresses.len() == 0
    }

    /// Where in the book `address` stands, if it is there.
    fn position(&self, address: &PeerAddress) -> (found: Option<usize>)
        ensures
            match found {
                Some(index) => index < self@.len() && self@[index as int] == *address,
                None => !self@.contains(*address),
            },
    {
        let mut index: usize = 0;
        while index < self.addresses.len()
            invariant
                index <= self.addresses@.len(),
                forall|i: int| 0 <= i < index ==> self.addresses@[i] != *address,
            decreases self.addresses@.len() - index,
        {
            if self.addresses[index] == *address {
                return Some(index);
            }
            index += 1;
        }
        None
    }

    /// Whether `address` is a known peer.
    pub fn contains(&self, address: &PeerAddress) -> (known: bool)
        ensures
            known == self@.contains(*address),
    {
        self.position(address).is_some()
    }

    /// Adds `address` to the book. An address that cannot be connected to, or
    /// that the book already holds, is refused and the book stays as it was.
    pub fn add(&mut self, address: PeerAddress) -> (result: PeersResult<Option<PeerAddress>>)
        ensures
            result == add_result(old(self)@, address),
            final(self)@ == after_add(old(self)@, address),
    {
        proof {
            use_type_invariant(&*self);
        }
        if !address.is_valid() {
            return Err(PeersError::InvalidAddress);
        }
        if self.contains(&address) {
            return Err(PeersError::DuplicateAddress);
        }
        let mut addresses: Vec<PeerAddress> = Vec::new();
        std::mem::swap(&mut self.addresses, &mut addresses);
        addresses.push(address);
        self.addresses = addresses;
        Ok(Some(address))
    }

    /// Removes `address` from the book. An address that the book does not
    /// hold is no error: the answer is then `Ok(None)`.
    pub fn remove(&mut self, address: PeerAddress) -> (result: PeersResult<Option<PeerAddress>>)
        ensures
            result == remove_result(old(self)@, address),
            final(self)@ == after_remove(old(self)@, address),
    {
        proof {
            use_type_invariant(&*self);
        }
        match self.position(&address) {
            Some(index) => {
                let mut addresses: Vec<PeerAddress> = Vec::new();
                std::mem::swap(&mut self.addresses, &mut addresses);
                let _ = addresses.remove(index);
                proof {
                    lemma_after_remove_well_formed(old(self)@, address);
                }
                self.addresses = addresses;
                Ok(Some(address))
            },
            None => Ok(None),
        }
    }

    /// The peer at place `index` in the order of arrival, if there are that
    /// many.
    pub fn get(&self, index: usize) -> (peer: Option<PeerAddress>)
        ensures
            peer == peer_at(self@, index as int),
    {
        if index < self.addresses.len() {
            Some(self.addresses[index])
        } else {
            None
        }
    }

    /// The answer of a pick for which the draw gave `drawn`: the peer at the
    /// place of the draw, or nothing where the book is empty. A draw that
    /// gave no number falls on the first place.
    pub fn pick(&self, drawn: Option<u64>) -> (result: PeersResult<Option<PeerAddress>>)
        ensures
            result == pick_with(self@, drawn),
            is_pick_of(self@, result),
    {
        let len: usize = self.addresses.len();
        if len == 0 {
            return Ok(None);
        }
        let place: usize = match drawn {
            Some(word) => (word % (len as u64)) as usize,
            None => 0,
        };
        proof {
            lemma_pick_with_is_pick(self@, drawn);
        }
        Ok(Some(self.addresses[place]))
    }

    /// One of the known peers, drawn at random, or nothing where the book is
    /// empty. The pick never fails: where the operating system gives no
    /// random number, the first peer is the answer.
    pub fn get_random(&self) -> (result: PeersResult<Option<PeerAddress>>)
        ensures
            is_pick_of(self@, result),
    {
        let drawn: Option<u64> = random_word();
        self.pick(drawn)
    }
}

impl Default for Peers {
    fn default() -> (peers: Peers)
        ensures
            peers@ == Seq::<PeerAddress>::empty(),
    {
        Peers::new()
    }
}

/// Adding one address after another leaves a well-formed book. It holds
/// what the book held before and every valid one of the addresses, and
/// nothing else: the order in which the addresses arrive does not change
/// which peers are known afterwards.
pub proof fn lemma_after_add_all_contents(book: Seq<PeerAddress>, addresses: Seq<PeerAddress>)
    requires
        well_formed(book),
    ensures
        well_formed(after_add_all(book, addresses)),
        forall|peer: PeerAddress|
            after_add_all(book, addresses).contains(peer) <==> book.contains(peer) || (
            addresses.contains(peer) && peer.is_valid()),
    decreases addresses.len(),
{
    let after = after_add_all(book, addresses);
    if addresses.len() > 0 {
        let front = addresses.drop_last();
        let before = after_add_all(book, front);
        lemma_after_add_all_contents(book, front);
        assert forall|peer: PeerAddress|
            after.contains(peer) <==> book.contains(peer) || (addresses.contains(peer)
                && peer.is_valid()) by {
            if after.contains(peer) {
                let i = after.index_of(peer);
                if i < before.len() {
                    assert(before.contains(peer));
                    if front.contains(peer) {
                        assert(addresses[front.index_of(peer)] == peer);
                    }
                } else {
                    assert(addresses[addresses.len() - 1] == peer);
                }
            }
            if book.contains(peer) {
                assert(before.contains(peer));
                assert(after[before.index_of(peer)] == peer);
            }
            if addresses.contains(peer) && peer.is_valid() {
                let i = addresses.index_of(peer);
                if i < front.len() {
                    assert(front[i] == peer);
                    assert(before.contains(peer));
                    assert(after[before.index_of(peer)] == peer);
                } else if before.contains(peer) {
                    assert(after[before.index_of(peer)] == peer);
                } else {
                    assert(after[before.len() as int] == peer);
                }
            }
        }
    }
}

/// Two orders of arrival of the same addresses leave the same peers known,
/// and as many of them.
pub proof fn lemma_add_all_any_order(
    book: Seq<PeerAddress>,
    first: Seq<PeerAddress>,
    second: Seq<PeerAddress>,
)
    requires
        well_formed(book),
        forall|peer: PeerAddress| first.contains(peer) <==> second.contains(peer),
    ensures
        forall|peer: PeerAddress|
            after_add_all(book, first).contains(peer) <==> after_add_all(book, second).contains(
                peer,
            ),
        after_add_all(book, first).len() == after_add_all(book, second).len(),
{
    let one = after_add_all(book, first);
    let other = after_add_all(book, second);
    lemma_after_add_all_contents(book, first);
    lemma_after_add_all_contents(book, second);
    assert(one.to_set() =~= other.to_set());
    one.unique_seq_to_set();
    other.unique_seq_to_set();
}

/// Requests to add addresses that are valid, differ from one another and are
/// not yet known all succeed, whatever their number and order: each answers
/// its own address, and the book afterwards is the old one followed by the
/// new addresses, so that none is lost.
pub proof fn lemma_add_all_distinct(book: Seq<PeerAddress>, addresses: Seq<PeerAddress>)
    requires
        well_formed(book),
        well_formed(addresses),
        book.disjoint(addresses),
    ensures
        after_add_all(book, addresses) == book + addresses,
        after_add_all(book, addresses).len() == book.len() + addresses.len(),
        forall|i: int|
            0 <= i < addresses.len() ==> #[trigger] add_all_results(book, addresses)[i] == Ok::<
                Option<PeerAddress>,
                PeersError,
            >(Some(addresses[i])),
    decreases addresses.len(),
{
    if addresses.len() > 0 {
        let front = addresses.drop_last();
        let last = addresses.last();
        lemma_add_all_distinct(book, front);
        let before = book + front;
        assert(!before.contains(last)) by {
            if before.contains(last) {
                let i = before.index_of(last);
                if i < book.len() {
                    assert(book[i] == addresses[addresses.len() - 1]);
                } else {
                    assert(addresses[i - book.len()] == addresses[addresses.len() - 1]);
                }
            }
        }
        assert(before.push(last) =~= book + addresses);
        assert forall|i: int| 0 <= i < addresses.len() implies #[trigger] add_all_results(
            book,
            addresses,
        )[i] == Ok::<Option<PeerAddress>, PeersError>(Some(addresses[i])) by {
            if i < front.len() {
                assert(front.take(i) =~= addresses.take(i));
                assert(add_all_results(book, front)[i] == Ok::<Option<PeerAddress>, PeersError>(
                    Some(front[i]),
                ));
            } else {
                assert(addresses.take(i) =~= front);
            }
        }
    }
}

/// An address that is valid and not yet known is accepted once and refused
/// as a duplicate the second time. The second request changes nothing: the
/// address stands at one place of the book and no other, so that a pick from
/// the book meets it at one place only.
pub proof fn lemma_add_twice(book: Seq<PeerAddress>, address: PeerAddress)
    requires
        well_formed(book),
        address.is_valid(),
        !book.contains(address),
    ensures
        add_result(book, address) == Ok::<Option<PeerAddress>, PeersError>(Some(address)),
        add_result(after_add(book, address), address) == Err::<Option<PeerAddress>, PeersError>(
            PeersError::DuplicateAddress,
        ),
        after_add(after_add(book, address), address) == after_add(book, address),
        after_add(book, address).len() == book.len() + 1,
        forall|index: int|
            peer_at(after_add(after_add(book, address), address), index) == Some(address)
                <==> index == book.len(),
{
    let once = after_add(book, address);
    assert(once[book.len() as int] == address);
    assert(once.contains(address));
}

/// Once an address was added and removed again, no pick from the book gives
/// it, whichever place the draw falls on and however often it is made.
pub proof fn lemma_removed_is_never_picked(
    book: Seq<PeerAddress>,
    address: PeerAddress,
    result: PeersResult<Option<PeerAddress>>,
)
    requires
        well_formed(book),
        is_pick_of(after_remove(after_add(book, address), address), result),
    ensures
        result is Ok,
        result != Ok::<Option<PeerAddress>, PeersError>(Some(address)),
        !after_remove(after_add(book, address), address).contains(address),
{
    lemma_after_remove_well_formed(after_add(book, address), address);
    let left = after_remove(after_add(book, address), address);
    if left.len() > 0 {
        let index = choose|index: int|
            0 <= index < left.len() && result == Ok::<Option<PeerAddress>, PeersError>(
                peer_at(left, index),
            );
        assert(left.contains(left[index]));
    }
}

/// Whatever the draw gave, the answer of a pick is nothing from an empty
/// book and one of its peers otherwise.
pub proof fn lemma_pick_with_is_pick(book: Seq<PeerAddress>, drawn: Option<u64>)
    ensures
        is_pick_of(book, pick_with(book, drawn)),
        book.len() > 0 ==> 0 <= place_of(drawn, book.len()) < book.len(),
{
    if book.len() > 0 {
        let place = place_of(drawn, book.len());
        assert(0 <= place < book.len());
        assert(pick_with(book, drawn) == Ok::<Option<PeerAddress>, PeersError>(
            peer_at(book, place),
        ));
    }
}

/// A pick from an empty book gives nothing, and is no error.
pub proof fn lemma_pick_of_empty(result: PeersResult<Option<PeerAddress>>)
    requires
        is_pick_of(Seq::<PeerAddress>::empty(), result),
    ensures
        result == Ok::<Option<PeerAddress>, PeersError>(None),
{
}

/// Removing an address leaves a well-formed book that no longer holds it,
/// and keeps every other peer.
pub proof fn lemma_after_remove_well_formed(book: Seq<PeerAddress>, address: PeerAddress)
    requires
        well_formed(book),
    ensures
        well_formed(after_remove(book, address)),
        !after_remove(book, address).contains(address),
        forall|other: PeerAddress|
            other != address ==> (after_remove(book, address).contains(other) <==> book.contains(
                other,
            )),
{
    let after = after_remove(book, address);
    if book.contains(address) {
        let at = book.index_of(address);
        assert forall|other: PeerAddress|
            other != address && book.contains(other) implies after.contains(other) by {
            let i = book.index_of(other);
            if i < at {
                assert(after[i] == other);
            } else {
                assert(after[i - 1] == other);
            }
        }
    }
}

} // verus!
