use tcp_flows::address::{Endpoint, Ipv4Address};
use tcp_flows::bounded::{Admission, BoundedTcpDb};
use tcp_flows::connection::TcpConnection;
use tcp_flows::datagram::TcpDatagram;
use tcp_flows::flow::{resolve, Direction};
use tcp_flows::processor::{process_bounded, Outcome};
use tcp_flows::tcp_db::TcpDb;

fn local() -> Ipv4Address {
    Ipv4Address::new(10, 0, 0, 5)
}

fn peer() -> Ipv4Address {
    Ipv4Address::new(93, 184, 216, 34)
}

fn from_port(port: u16, bytes: u32) -> TcpDatagram {
    TcpDatagram {
        src_ip: local(),
        src_port: port,
        dst_ip: peer(),
        dst_port: 80,
        bytes,
        ack_num: 0,
        seq_num: 0,
        flags: 2,
        offset: 5,
    }
}

fn a() -> Endpoint {
    Endpoint::new(peer(), 80)
}

fn z(port: u16) -> Endpoint {
    Endpoint::new(local(), port)
}

#[test]
fn remove_takes_a_flow_out() {
    let mut db = TcpDb::new(local());
    db.add(from_port(1, 10));
    db.add(from_port(2, 20));
    db.add(from_port(3, 30));
    let removed = db.remove(a(), z(1)).expect("the flow is there");
    assert_eq!(removed.z_to_a_bytes, 10);
    assert_eq!(db.len(), 2);
    assert!(!db.contains(a(), z(1)));
    assert!(db.contains(a(), z(2)));
    assert!(db.contains(a(), z(3)));
    let all = db.snapshot();
    assert_eq!(all[0].z_endpoint, z(3));
    assert_eq!(all[1].z_endpoint, z(2));
    assert_eq!(db.get(a(), z(3)).map(|c| c.z_to_a_bytes), Some(30));
    assert_eq!(db.get(a(), z(2)).map(|c| c.z_to_a_bytes), Some(20));
    assert_eq!(db.latest().map(|c| c.z_endpoint), Some(z(3)));
}

#[test]
fn remove_of_an_unknown_flow_changes_nothing() {
    let mut db = TcpDb::new(local());
    db.add(from_port(1, 10));
    assert_eq!(db.remove(a(), z(9)), None);
    assert_eq!(db.remove(z(1), a()), None);
    assert_eq!(db.len(), 1);
    assert_eq!(db.latest().map(|c| c.z_endpoint), Some(z(1)));
}

#[test]
fn remove_of_the_latest_leaves_no_latest() {
    let mut db = TcpDb::new(local());
    db.add(from_port(1, 10));
    db.add(from_port(2, 20));
    assert!(db.remove(a(), z(2)).is_some());
    assert_eq!(db.latest(), None);
    assert_eq!(db.len(), 1);
    assert!(db.remove(a(), z(1)).is_some());
    assert_eq!(db.len(), 0);
    assert_eq!(db.latest(), None);
    assert!(db.add(from_port(1, 5)).expect("involves the local host").created);
    assert_eq!(db.get(a(), z(1)).map(|c| c.z_to_a_bytes), Some(5));
}

#[test]
fn removed_flows_are_found_no_more_among_many() {
    let mut db = TcpDb::new(local());
    for port in 1u16..=100 {
        db.add(from_port(port, u32::from(port)));
    }
    for port in (1u16..=100).filter(|p| p % 3 == 0) {
        assert_eq!(db.remove(a(), z(port)).map(|c| c.z_to_a_bytes), Some(u64::from(port)));
    }
    assert_eq!(db.len(), 67);
    for port in 1u16..=100 {
        let state = db.get(a(), z(port));
        if port % 3 == 0 {
            assert_eq!(state, None);
        } else {
            assert_eq!(state.map(|c| c.z_to_a_bytes), Some(u64::from(port)));
        }
    }
}

#[test]
fn full_table_lets_the_oldest_flow_go() {
    let mut table = BoundedTcpDb::new(local(), 2);
    assert_eq!(table.capacity(), 2);
    assert_eq!(table.add(from_port(1, 10)).evicted, None);
    assert_eq!(table.add(from_port(2, 20)).evicted, None);
    assert_eq!(table.len(), 2);
    let third = table.add(from_port(3, 30));
    assert_eq!(third.evicted.map(|c| (c.z_endpoint, c.z_to_a_bytes)), Some((z(1), 10)));
    assert!(third.seen.expect("involves the local host").created);
    assert_eq!(table.len(), 2);
    assert!(!table.table().contains(a(), z(1)));
    assert!(table.table().contains(a(), z(2)));
    assert!(table.table().contains(a(), z(3)));
    let fourth = table.add(from_port(1, 1));
    assert_eq!(fourth.evicted.map(|c| c.z_endpoint), Some(z(2)));
    assert_eq!(table.table().get(a(), z(1)).map(|c| c.z_to_a_bytes), Some(1));
}

#[test]
fn known_flow_needs_no_room() {
    let mut table = BoundedTcpDb::new(local(), 2);
    table.add(from_port(1, 10));
    table.add(from_port(2, 20));
    for _ in 0..5 {
        let again = table.add(from_port(1, 10));
        assert_eq!(again.evicted, None);
        assert!(!again.seen.expect("involves the local host").created);
    }
    assert_eq!(table.table().get(a(), z(1)).map(|c| c.z_to_a_bytes), Some(60));
    assert_eq!(table.table().get(a(), z(1)).map(|c| c.z_to_a_syn_counter), Some(6));
    let next = table.add(from_port(3, 0));
    assert_eq!(next.evicted.map(|c| c.z_endpoint), Some(z(1)));
}

#[test]
fn stranger_changes_nothing_in_a_bounded_table() {
    let mut table = BoundedTcpDb::new(local(), 1);
    table.add(from_port(1, 10));
    let mut d = from_port(1, 10);
    d.src_ip = Ipv4Address::new(8, 8, 8, 8);
    assert_eq!(table.add(d), Admission { seen: None, evicted: None });
    assert_eq!(table.len(), 1);
    assert!(table.table().contains(a(), z(1)));
}

#[test]
fn capacity_of_zero_counts_as_one() {
    let mut table = BoundedTcpDb::new(local(), 0);
    assert_eq!(table.capacity(), 1);
    assert_eq!(table.add(from_port(1, 10)).evicted, None);
    assert_eq!(table.add(from_port(2, 20)).evicted.map(|c| c.z_endpoint), Some(z(1)));
    assert_eq!(table.len(), 1);
}

#[test]
fn bounded_get_or_create_and_update_make_room() {
    let mut table = BoundedTcpDb::new(local(), 1);
    let (state, created, evicted) = table.get_or_create(a(), z(1));
    assert_eq!(state, TcpConnection::between(a(), z(1)));
    assert!(created);
    assert_eq!(evicted, None);
    let (_, created, evicted) = table.get_or_create(a(), z(1));
    assert!(!created);
    assert_eq!(evicted, None);
    let flow = resolve(&from_port(2, 7), local()).expect("involves the local host");
    let (counter, evicted) = table.update(&flow, &from_port(2, 7));
    assert_eq!(counter, 1);
    assert_eq!(evicted, Some(TcpConnection::between(a(), z(1))));
    let (counter, evicted) = table.update(&flow, &from_port(2, 7));
    assert_eq!(counter, 2);
    assert_eq!(evicted, None);
    assert_eq!(table.table().get(a(), z(2)).map(|c| c.bytes(Direction::ZToA)), Some(14));
}

#[test]
fn bounded_ingestion_filters_and_counts() {
    let mut table = BoundedTcpDb::new(local(), 1);
    let mut count: u32 = 0;
    let store = Some(6379);
    let (outcome, evicted) = process_bounded("*", store, &mut table, &mut count, from_port(1, 1));
    assert!(matches!(outcome, Outcome::Recorded(_)));
    assert_eq!(evicted, None);
    let (outcome, evicted) =
        process_bounded("*", store, &mut table, &mut count, from_port(6379, 1));
    assert_eq!(outcome, Outcome::Filtered);
    assert_eq!(evicted, None);
    let (outcome, evicted) =
        process_bounded("192.168", None, &mut table, &mut count, from_port(2, 1));
    assert_eq!(outcome, Outcome::Filtered);
    assert_eq!(evicted, None);
    assert_eq!(count, 1);
    let (outcome, evicted) = process_bounded("10.0", None, &mut table, &mut count, from_port(2, 1));
    assert!(matches!(outcome, Outcome::Recorded(o) if o.created));
    assert_eq!(evicted.map(|c| c.z_endpoint), Some(z(1)));
    assert_eq!(count, 2);
    assert_eq!(table.len(), 1);
}
