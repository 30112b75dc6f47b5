//! Tests of the supporting facilities: waker registration, the socket
//! set, time arithmetic, and address predicates.

use std::sync::atomic::{AtomicUsize, Ordering};
use std::sync::Arc;
use std::task::{Wake, Waker};

use dhcpv6_client::ip::{Ipv6Address, Ipv6Cidr};
use dhcpv6_client::socket::Socket;
use dhcpv6_client::socket_set::{SocketSet, SocketStorage};
use dhcpv6_client::time::{Duration, Instant};
use dhcpv6_client::waker::WakerRegistration;

struct CountingWaker {
    count: AtomicUsize,
}

impl Wake for CountingWaker {
    fn wake(self: Arc<Self>) {
        self.count.fetch_add(1, Ordering::SeqCst);
    }

    fn wake_by_ref(self: &Arc<Self>) {
        self.count.fetch_add(1, Ordering::SeqCst);
    }
}

fn counting_waker() -> (Arc<CountingWaker>, Waker) {
    let inner = Arc::new(CountingWaker { count: AtomicUsize::new(0) });
    let waker = Waker::from(inner.clone());
    (inner, waker)
}

#[test]
fn wake_all_wakes_and_drains() {
    let (c1, w1) = counting_waker();
    let (c2, w2) = counting_waker();
    let mut reg = WakerRegistration::new();
    reg.add(&w1);
    reg.add(&w2);
    reg.wake_all();
    assert_eq!(c1.count.load(Ordering::SeqCst), 1);
    assert_eq!(c2.count.load(Ordering::SeqCst), 1);
    // The list was drained: waking again does nothing but latch.
    reg.wake_all();
    assert_eq!(c1.count.load(Ordering::SeqCst), 1);
    assert_eq!(c2.count.load(Ordering::SeqCst), 1);
}

#[test]
fn add_deduplicates_same_target() {
    let (c1, w1) = counting_waker();
    let mut reg = WakerRegistration::new();
    reg.add(&w1);
    reg.add(&w1.clone());
    reg.wake_all();
    assert_eq!(c1.count.load(Ordering::SeqCst), 1);
}

#[test]
fn wake_requested_while_empty_fires_on_next_add() {
    let (c1, w1) = counting_waker();
    let mut reg = WakerRegistration::new();
    reg.wake_all();
    assert_eq!(c1.count.load(Ordering::SeqCst), 0);
    // The latched wake fires as soon as a waker arrives.
    reg.add(&w1);
    assert_eq!(c1.count.load(Ordering::SeqCst), 1);
    // And it fired once: the latch is cleared.
    reg.add(&w1);
    assert_eq!(c1.count.load(Ordering::SeqCst), 1);
}

#[test]
fn register_replaces_other_target() {
    let (c1, w1) = counting_waker();
    let (c2, w2) = counting_waker();
    let mut reg = WakerRegistration::new();
    reg.register(&w1);
    reg.register(&w2);
    reg.wake_all();
    assert_eq!(c1.count.load(Ordering::SeqCst), 0);
    assert_eq!(c2.count.load(Ordering::SeqCst), 1);
}

#[test]
fn clear_drops_without_waking() {
    let (c1, w1) = counting_waker();
    let mut reg = WakerRegistration::new();
    reg.add(&w1);
    reg.clear();
    reg.wake_all();
    assert_eq!(c1.count.load(Ordering::SeqCst), 0);
}

#[test]
fn socket_waker_woken_on_configuration_change() {
    let (c1, w1) = counting_waker();
    let mut socket = Socket::new();
    socket.register_waker(&w1);
    socket.reset();
    // Reset outside a lease does not change configuration.
    assert_eq!(c1.count.load(Ordering::SeqCst), 0);
    socket.clear_waker();
}

#[test]
fn socket_set_add_get_remove() {
    let mut set = SocketSet::new(Vec::new());
    let h1 = set.add(Socket::new());
    let h2 = set.add(Socket::new());
    assert_ne!(h1, h2);
    assert_eq!(set.get(h1).transaction_id, 1);
    let removed = set.remove(h1);
    assert_eq!(removed.transaction_id, 1);
    // The freed slot is reused.
    let h3 = set.add(Socket::new());
    assert_eq!(h3, h1);
    assert_eq!(set.iter().len(), 2);
}

#[test]
fn socket_set_starts_from_given_storage() {
    let storage = vec![SocketStorage::empty(), SocketStorage::empty()];
    let mut set = SocketSet::new(storage);
    let h = set.add_ext(Socket::new(), true);
    assert_eq!(h.0, 0);
    assert_eq!(set.iter().len(), 1);
}

#[test]
fn socket_set_swap_reseats_old_socket() {
    let mut set = SocketSet::new(Vec::new());
    let h1 = set.add(Socket::new());
    let mut replacement = Socket::new();
    replacement.set_ports(1547, 1546);
    let h_old = set.swap(h1, replacement);
    assert_ne!(h_old, h1);
    assert_eq!(set.get(h1).server_port, 1547);
    assert_eq!(set.get(h_old).server_port, 547);
}

#[test]
fn instant_arithmetic_saturates() {
    let t = Instant::from_millis(10);
    assert_eq!(t.plus(Duration::from_millis(5)).millis, 15);
    assert_eq!(t.plus(Duration::from_millis(u64::MAX)).millis, i64::MAX);
    assert_eq!(Instant::from_secs(2).millis, 2000);
    assert_eq!(t.min(Instant::from_millis(3)).millis, 3);
    assert_eq!(t.since(Instant::from_millis(4)).millis, 6);
}

#[test]
fn duration_shift_doubles_and_saturates() {
    let d = Duration::from_millis(3);
    assert_eq!(d.shl(0).millis, 3);
    assert_eq!(d.shl(4).millis, 48);
    assert_eq!(Duration::from_millis(u64::MAX / 2 + 1).shl(1).millis, u64::MAX);
    assert_eq!(Duration::from_millis(9).half().millis, 4);
    assert_eq!(Duration::from_millis(5).max(Duration::from_millis(7)).millis, 7);
    assert_eq!(Duration::from_millis(5).min(Duration::from_millis(7)).millis, 5);
}

#[test]
fn address_predicates() {
    assert!(Ipv6Address::unspecified().is_unspecified());
    assert!(!Ipv6Address::unspecified().is_unicast());
    assert!(Ipv6Address::link_local_all_routers().is_multicast());
    assert!(!Ipv6Address::link_local_all_routers().is_unicast());
    let mut octets = [0u8; 16];
    octets[0] = 0x20;
    let a = Ipv6Address::new(octets);
    assert!(a.is_unicast());
    assert!(a.same_as(&Ipv6Address::new(octets)));
    let mut other = octets;
    other[15] = 1;
    assert!(!a.same_as(&Ipv6Address::new(other)));
    let cidr = Ipv6Cidr::new(a, 64);
    assert_eq!(cidr.address().octets, octets);
    assert_eq!(cidr.prefix_len, 64);
}

#[test]
fn socket_set_get_mut_changes_the_stored_socket() {
    let mut set = SocketSet::new(Vec::new());
    let h = set.add(Socket::new());
    set.get_mut(h).set_ports(999, 998);
    assert_eq!(set.get(h).server_port, 999);
    assert_eq!(set.get(h).client_port, 998);
}
