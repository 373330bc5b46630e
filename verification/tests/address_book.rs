use peers_manager::address::{AddressV6, PeerAddress};
use peers_manager::peers::{Peers, PeersError};

fn peer(last: u8) -> PeerAddress {
    PeerAddress::v4(10, 0, 0, last, 21337)
}

#[test]
fn a_new_book_is_empty() {
    let peers = Peers::new();
    assert_eq!(peers.len(), 0);
    assert!(peers.is_empty());
    assert_eq!(peers.get(0), None);
    assert_eq!(peers.get_random(), Ok(None));
    let peers = Peers::default();
    assert!(peers.is_empty());
    assert_eq!(peers.get_random(), Ok(None));
}

#[test]
fn add_answers_the_added_address() {
    let mut peers = Peers::new();
    assert_eq!(peers.add(peer(1)), Ok(Some(peer(1))));
    assert_eq!(peers.len(), 1);
    assert!(!peers.is_empty());
    assert!(peers.contains(&peer(1)));
    assert!(!peers.contains(&peer(2)));
    assert_eq!(peers.get(0), Some(peer(1)));
    assert_eq!(peers.get(1), None);
}

#[test]
fn adding_twice_is_refused_the_second_time() {
    let mut peers = Peers::new();
    assert_eq!(peers.add(peer(1)), Ok(Some(peer(1))));
    assert_eq!(peers.add(peer(1)), Err(PeersError::DuplicateAddress));
    assert_eq!(peers.len(), 1);
    assert_eq!(peers.get(0), Some(peer(1)));
    assert_eq!(peers.get(1), None);
    for _ in 0..100 {
        assert_eq!(peers.get_random(), Ok(Some(peer(1))));
    }
}

#[test]
fn a_duplicate_among_others_keeps_its_one_place() {
    let mut peers = Peers::new();
    assert_eq!(peers.add(peer(1)), Ok(Some(peer(1))));
    assert_eq!(peers.add(peer(2)), Ok(Some(peer(2))));
    assert_eq!(peers.add(peer(1)), Err(PeersError::DuplicateAddress));
    assert_eq!(peers.add(peer(3)), Ok(Some(peer(3))));
    assert_eq!(peers.len(), 3);
    assert_eq!(peers.get(0), Some(peer(1)));
    assert_eq!(peers.get(1), Some(peer(2)));
    assert_eq!(peers.get(2), Some(peer(3)));
    assert_eq!(peers.get(3), None);
}

#[test]
fn an_invalid_address_is_refused() {
    let mut peers = Peers::new();
    assert_eq!(peers.add(PeerAddress::v4(0, 0, 0, 0, 21337)), Err(PeersError::InvalidAddress));
    assert_eq!(peers.add(PeerAddress::v4(10, 0, 0, 1, 0)), Err(PeersError::InvalidAddress));
    assert_eq!(peers.add(PeerAddress::v4(0, 0, 0, 0, 0)), Err(PeersError::InvalidAddress));
    let unspecified = PeerAddress::V6(AddressV6 { host: 0, port: 21337, flowinfo: 0, scope_id: 0 });
    assert_eq!(peers.add(unspecified), Err(PeersError::InvalidAddress));
    assert_eq!(peers.add(unspecified), Err(PeersError::InvalidAddress));
    assert!(peers.is_empty());
    assert_eq!(peers.get_random(), Ok(None));
}

#[test]
fn remove_answers_the_removed_address() {
    let mut peers = Peers::new();
    assert_eq!(peers.add(peer(1)), Ok(Some(peer(1))));
    assert_eq!(peers.remove(peer(1)), Ok(Some(peer(1))));
    assert!(peers.is_empty());
    assert!(!peers.contains(&peer(1)));
}

#[test]
fn removing_an_unknown_address_is_no_error() {
    let mut peers = Peers::new();
    assert_eq!(peers.remove(peer(1)), Ok(None));
    assert_eq!(peers.add(peer(1)), Ok(Some(peer(1))));
    assert_eq!(peers.remove(peer(2)), Ok(None));
    assert_eq!(peers.remove(PeerAddress::v4(0, 0, 0, 0, 0)), Ok(None));
    assert_eq!(peers.len(), 1);
    assert_eq!(peers.remove(peer(1)), Ok(Some(peer(1))));
    assert_eq!(peers.remove(peer(1)), Ok(None));
    assert_eq!(peers.len(), 0);
}

#[test]
fn remove_keeps_the_order_of_the_others() {
    let mut peers = Peers::new();
    for last in 1..=5 {
        assert_eq!(peers.add(peer(last)), Ok(Some(peer(last))));
    }
    assert_eq!(peers.remove(peer(3)), Ok(Some(peer(3))));
    assert_eq!(peers.len(), 4);
    assert_eq!(peers.get(0), Some(peer(1)));
    assert_eq!(peers.get(1), Some(peer(2)));
    assert_eq!(peers.get(2), Some(peer(4)));
    assert_eq!(peers.get(3), Some(peer(5)));
    assert_eq!(peers.get(4), None);
    assert_eq!(peers.remove(peer(1)), Ok(Some(peer(1))));
    assert_eq!(peers.remove(peer(5)), Ok(Some(peer(5))));
    assert_eq!(peers.get(0), Some(peer(2)));
    assert_eq!(peers.get(1), Some(peer(4)));
    assert_eq!(peers.get(2), None);
}

#[test]
fn a_removed_address_can_be_added_again() {
    let mut peers = Peers::new();
    assert_eq!(peers.add(peer(1)), Ok(Some(peer(1))));
    assert_eq!(peers.add(peer(2)), Ok(Some(peer(2))));
    assert_eq!(peers.remove(peer(1)), Ok(Some(peer(1))));
    assert_eq!(peers.add(peer(1)), Ok(Some(peer(1))));
    assert_eq!(peers.get(0), Some(peer(2)));
    assert_eq!(peers.get(1), Some(peer(1)));
}

#[test]
fn a_removed_address_is_never_picked() {
    let mut peers = Peers::new();
    assert_eq!(peers.add(peer(1)), Ok(Some(peer(1))));
    assert_eq!(peers.remove(peer(1)), Ok(Some(peer(1))));
    for _ in 0..50 {
        assert_eq!(peers.get_random(), Ok(None));
    }
    assert_eq!(peers.add(peer(2)), Ok(Some(peer(2))));
    assert_eq!(peers.add(peer(1)), Ok(Some(peer(1))));
    assert_eq!(peers.add(peer(3)), Ok(Some(peer(3))));
    assert_eq!(peers.remove(peer(1)), Ok(Some(peer(1))));
    for _ in 0..200 {
        let picked = peers.get_random();
        assert_ne!(picked, Ok(Some(peer(1))));
        assert!(picked == Ok(Some(peer(2))) || picked == Ok(Some(peer(3))));
    }
}

#[test]
fn get_beyond_the_end_gives_nothing() {
    let mut peers = Peers::new();
    assert_eq!(peers.add(peer(1)), Ok(Some(peer(1))));
    assert_eq!(peers.get(1), None);
    assert_eq!(peers.get(usize::MAX), None);
}

#[test]
fn pick_takes_the_place_of_the_draw_modulo_the_length() {
    let mut peers = Peers::new();
    for last in 1..=3 {
        assert_eq!(peers.add(peer(last)), Ok(Some(peer(last))));
    }
    assert_eq!(peers.pick(Some(0)), Ok(Some(peer(1))));
    assert_eq!(peers.pick(Some(1)), Ok(Some(peer(2))));
    assert_eq!(peers.pick(Some(2)), Ok(Some(peer(3))));
    assert_eq!(peers.pick(Some(3)), Ok(Some(peer(1))));
    assert_eq!(peers.pick(Some(1000)), Ok(Some(peer(2))));
    assert_eq!(peers.pick(Some(u64::MAX)), Ok(Some(peer(1))));
    assert_eq!(peers.pick(Some(u64::MAX - 1)), Ok(Some(peer(3))));
    assert_eq!(peers.remove(peer(1)), Ok(Some(peer(1))));
    assert_eq!(peers.pick(Some(0)), Ok(Some(peer(2))));
    assert_eq!(peers.pick(Some(7)), Ok(Some(peer(3))));
}

#[test]
fn pick_without_a_draw_takes_the_first_peer() {
    let mut peers = Peers::new();
    assert_eq!(peers.add(peer(7)), Ok(Some(peer(7))));
    assert_eq!(peers.add(peer(8)), Ok(Some(peer(8))));
    assert_eq!(peers.pick(None), Ok(Some(peer(7))));
    assert_eq!(peers.remove(peer(7)), Ok(Some(peer(7))));
    assert_eq!(peers.pick(None), Ok(Some(peer(8))));
}

#[test]
fn pick_from_an_empty_book_gives_nothing() {
    let peers = Peers::new();
    assert_eq!(peers.pick(None), Ok(None));
    assert_eq!(peers.pick(Some(0)), Ok(None));
    assert_eq!(peers.pick(Some(u64::MAX)), Ok(None));
}

#[test]
fn a_pick_is_one_of_the_known_peers() {
    let mut peers = Peers::new();
    for last in 1..=4 {
        assert_eq!(peers.add(peer(last)), Ok(Some(peer(last))));
    }
    for _ in 0..200 {
        match peers.get_random() {
            Ok(Some(picked)) => assert!(peers.contains(&picked)),
            other => panic!("a pick from four peers gave {:?}", other),
        }
    }
    assert_eq!(peers.len(), 4);
}

#[test]
fn every_peer_of_a_small_book_is_picked_in_the_end() {
    let mut peers = Peers::new();
    assert_eq!(peers.add(peer(1)), Ok(Some(peer(1))));
    assert_eq!(peers.add(peer(2)), Ok(Some(peer(2))));
    let mut seen_first = false;
    let mut seen_second = false;
    for _ in 0..2000 {
        match peers.get_random() {
            Ok(Some(picked)) if picked == peer(1) => seen_first = true,
            Ok(Some(picked)) if picked == peer(2) => seen_second = true,
            other => panic!("a pick from two peers gave {:?}", other),
        }
    }
    assert!(seen_first && seen_second);
}

#[test]
fn distinct_addresses_are_all_kept_in_any_order() {
    let count: u8 = 200;
    let mut forward = Peers::new();
    for last in 1..=count {
        assert_eq!(forward.add(peer(last)), Ok(Some(peer(last))));
    }
    assert_eq!(forward.len(), 200);
    let mut backward = Peers::new();
    for last in (1..=count).rev() {
        assert_eq!(backward.add(peer(last)), Ok(Some(peer(last))));
    }
    assert_eq!(backward.len(), 200);
    for last in 1..=count {
        assert!(forward.contains(&peer(last)));
        assert!(backward.contains(&peer(last)));
    }
    assert!(!forward.contains(&peer(201)));
    assert_eq!(forward.get(0), Some(peer(1)));
    assert_eq!(backward.get(0), Some(peer(200)));
}
