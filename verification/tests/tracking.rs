use tcp_flows::address::{Endpoint, Ipv4Address};
use tcp_flows::connection::{syn_threshold_reached, TcpConnection, SYN_THRESHOLD};
use tcp_flows::datagram::TcpDatagram;
use tcp_flows::flow::{resolve, Direction, Flow};
use tcp_flows::processor::{filter_admits, is_own_traffic, process, Outcome};
use tcp_flows::tcp_db::{Observation, TcpDb};

fn local() -> Ipv4Address {
    Ipv4Address::new(10, 0, 0, 5)
}

fn peer() -> Ipv4Address {
    Ipv4Address::new(93, 184, 216, 34)
}

fn datagram(
    src: (Ipv4Address, u16),
    dst: (Ipv4Address, u16),
    bytes: u32,
    flags: u8,
) -> TcpDatagram {
    TcpDatagram {
        src_ip: src.0,
        src_port: src.1,
        dst_ip: dst.0,
        dst_port: dst.1,
        bytes,
        ack_num: 0,
        seq_num: 0,
        flags,
        offset: 5,
    }
}

fn outbound(bytes: u32) -> TcpDatagram {
    datagram((local(), 51000), (peer(), 80), bytes, 2)
}

fn inbound(bytes: u32) -> TcpDatagram {
    datagram((peer(), 80), (local(), 51000), bytes, 16)
}

#[test]
fn first_datagram_creates_the_flow_and_its_reverse_joins_it() {
    let mut db = TcpDb::new(local());
    let first = db.add(outbound(0)).expect("the datagram involves the local host");
    assert!(first.created);
    assert_eq!(first.flow.key(), "93.184.216.34:80<->10.0.0.5:51000");
    assert_eq!(first.flow.direction, Direction::ZToA);
    assert_eq!(first.syn_counter, 1);
    assert_eq!(db.len(), 1);

    let second = db.add(inbound(512)).expect("the datagram involves the local host");
    assert!(!second.created);
    assert_eq!(second.flow.key(), "93.184.216.34:80<->10.0.0.5:51000");
    assert_eq!(second.flow.direction, Direction::AToZ);
    assert_eq!(db.len(), 1);

    let state = db
        .get(Endpoint::new(peer(), 80), Endpoint::new(local(), 51000))
        .expect("the flow is tracked");
    assert_eq!(state.bytes(Direction::AToZ), 512);
    assert_eq!(state.bytes(Direction::ZToA), 0);
    assert_eq!(state.syn_counter(Direction::ZToA), 1);
    assert_eq!(state.syn_counter(Direction::AToZ), 1);
    assert_eq!(state.get_flow(), "93.184.216.34:80<->10.0.0.5:51000");
}

#[test]
fn datagram_to_the_local_host_travels_from_a_to_z() {
    let flow = resolve(&inbound(1), local()).expect("involves the local host");
    assert_eq!(
        flow,
        Flow {
            a_endpoint: Endpoint::new(peer(), 80),
            z_endpoint: Endpoint::new(local(), 51000),
            direction: Direction::AToZ,
        }
    );
}

#[test]
fn datagram_from_the_local_host_travels_from_z_to_a() {
    let flow = resolve(&outbound(1), local()).expect("involves the local host");
    assert_eq!(
        flow,
        Flow {
            a_endpoint: Endpoint::new(peer(), 80),
            z_endpoint: Endpoint::new(local(), 51000),
            direction: Direction::ZToA,
        }
    );
}

#[test]
fn reverse_datagrams_resolve_to_the_same_key() {
    let forth = outbound(10);
    let back = forth.reverse();
    assert_eq!(back.src_ip, peer());
    assert_eq!(back.src_port, 80);
    assert_eq!(back.dst_ip, local());
    assert_eq!(back.dst_port, 51000);
    let f = resolve(&forth, local()).expect("involves the local host");
    let b = resolve(&back, local()).expect("involves the local host");
    assert_eq!(f.key(), b.key());
    assert_eq!(f.a_endpoint, b.a_endpoint);
    assert_eq!(f.z_endpoint, b.z_endpoint);
    assert_eq!(f.direction.flip(), b.direction);
}

#[test]
fn destination_is_tested_before_source_when_both_are_local() {
    let d = datagram((local(), 4000), (local(), 5000), 1, 2);
    let flow = resolve(&d, local()).expect("involves the local host");
    assert_eq!(flow.direction, Direction::AToZ);
    assert_eq!(flow.key(), "10.0.0.5:4000<->10.0.0.5:5000");
    let back = resolve(&d.reverse(), local()).expect("involves the local host");
    assert_eq!(back.key(), "10.0.0.5:5000<->10.0.0.5:4000");
}

#[test]
fn datagram_between_strangers_is_not_identified() {
    let d = datagram((peer(), 80), (Ipv4Address::new(8, 8, 8, 8), 53), 100, 16);
    assert_eq!(resolve(&d, local()), None);
    let mut db = TcpDb::new(local());
    assert_eq!(db.parse_flow(&d), None);
    assert_eq!(db.add(d), None);
    assert_eq!(db.len(), 0);
    assert!(db.snapshot().is_empty());
    assert_eq!(db.latest(), None);
}

#[test]
fn get_or_create_creates_once() {
    let mut db = TcpDb::new(local());
    let a = Endpoint::new(peer(), 80);
    let z = Endpoint::new(local(), 51000);
    let (first, created_first) = db.get_or_create(a, z);
    let (second, created_second) = db.get_or_create(a, z);
    let (third, created_third) = db.get_or_create(a, z);
    assert!(created_first);
    assert!(!created_second);
    assert!(!created_third);
    assert_eq!(first, second);
    assert_eq!(second, third);
    assert_eq!(first, TcpConnection::between(a, z));
    assert_eq!(db.len(), 1);
}

#[test]
fn get_or_create_keeps_other_flows_apart() {
    let mut db = TcpDb::new(local());
    let a = Endpoint::new(peer(), 80);
    let z = Endpoint::new(local(), 51000);
    let other = Endpoint::new(local(), 51001);
    assert!(db.get_or_create(a, z).1);
    assert!(db.get_or_create(a, other).1);
    assert!(db.get_or_create(z, a).1);
    assert!(!db.get_or_create(a, z).1);
    assert!(!db.get_or_create(a, other).1);
    assert_eq!(db.len(), 3);
    assert_eq!(db.get(a, z), Some(TcpConnection::between(a, z)));
    assert_eq!(db.get(other, a), None);
    assert_eq!(db.latest(), None);
}

#[test]
fn counters_add_up_over_a_run() {
    let mut db = TcpDb::new(local());
    let payloads: [u32; 5] = [0, 100, 1460, 1, 40];
    for p in payloads {
        db.add(inbound(p));
    }
    db.add(outbound(7));
    db.add(outbound(9));
    let state = db
        .get(Endpoint::new(peer(), 80), Endpoint::new(local(), 51000))
        .expect("the flow is tracked");
    assert_eq!(state.a_to_z_bytes, 1601);
    assert_eq!(state.a_to_z_syn_counter, 5);
    assert_eq!(state.z_to_a_bytes, 16);
    assert_eq!(state.z_to_a_syn_counter, 2);
}

#[test]
fn last_sequence_and_acknowledgment_are_overwritten() {
    let mut c = TcpConnection::between(Endpoint::new(peer(), 80), Endpoint::new(local(), 51000));
    let mut d = inbound(10);
    d.seq_num = 1000;
    d.ack_num = 2000;
    assert_eq!(c.add(Direction::AToZ, &d), 1);
    d.seq_num = 1010;
    d.ack_num = 2001;
    assert_eq!(c.add(Direction::AToZ, &d), 2);
    assert_eq!(c.last_seq(Direction::AToZ), 1010);
    assert_eq!(c.last_ack(Direction::AToZ), 2001);
    assert_eq!(c.last_seq(Direction::ZToA), 0);
    assert_eq!(c.last_ack(Direction::ZToA), 0);
    assert_eq!(c.a_endpoint, Endpoint::new(peer(), 80));
    assert_eq!(c.z_endpoint, Endpoint::new(local(), 51000));
}

#[test]
fn counters_stay_at_their_maximum() {
    let mut c = TcpConnection::between(Endpoint::new(peer(), 80), Endpoint::new(local(), 51000));
    c.z_to_a_bytes = u64::MAX - 5;
    c.z_to_a_syn_counter = u32::MAX - 1;
    assert_eq!(c.add(Direction::ZToA, &outbound(3)), u32::MAX);
    assert_eq!(c.z_to_a_bytes, u64::MAX - 2);
    assert_eq!(c.add(Direction::ZToA, &outbound(3)), u32::MAX);
    assert_eq!(c.z_to_a_bytes, u64::MAX);
    assert_eq!(c.add(Direction::ZToA, &outbound(3)), u32::MAX);
    assert_eq!(c.z_to_a_bytes, u64::MAX);
    assert_eq!(c.a_to_z_bytes, 0);
}

#[test]
fn warning_comes_at_the_threshold_and_only_there() {
    assert_eq!(SYN_THRESHOLD, 3);
    let mut db = TcpDb::new(local());
    let a = Endpoint::new(peer(), 80);
    let z = Endpoint::new(local(), 51000);
    let mut warnings: Vec<String> = Vec::new();
    let mut flags: Vec<bool> = Vec::new();
    for _ in 0..6 {
        let seen = db.add(outbound(0)).expect("involves the local host");
        flags.push(seen.warning);
        let state = db.get(a, z).expect("the flow is tracked");
        if let Some(text) = state.syn_warning(seen.flow.direction) {
            warnings.push(text);
        }
    }
    assert_eq!(flags, vec![false, false, true, false, false, false]);
    assert_eq!(warnings, vec!["10.0.0.5:51000->93.184.216.34:80: 3 unanswered SYNs".to_string()]);
    let state = db.get(a, z).expect("the flow is tracked");
    assert_eq!(state.syn_counter(Direction::ZToA), 6);
    assert_eq!(state.syn_warning(Direction::ZToA), None);
    assert_eq!(state.syn_warning(Direction::AToZ), None);
}

#[test]
fn threshold_is_reached_at_three_only() {
    assert!(!syn_threshold_reached(0));
    assert!(!syn_threshold_reached(2));
    assert!(syn_threshold_reached(3));
    assert!(!syn_threshold_reached(4));
    assert!(!syn_threshold_reached(u32::MAX));
}

#[test]
fn warnings_of_the_two_directions_are_apart() {
    let mut db = TcpDb::new(local());
    let mut raised: Vec<(Direction, u32)> = Vec::new();
    let run = [true, false, true, false, false, true, true, false];
    for sent_by_local in run {
        let d = if sent_by_local { outbound(1) } else { inbound(1) };
        let seen = db.add(d).expect("involves the local host");
        if seen.warning {
            raised.push((seen.flow.direction, seen.syn_counter));
        }
    }
    assert_eq!(raised, vec![(Direction::AToZ, 3), (Direction::ZToA, 3)]);
}

#[test]
fn warning_names_the_direction_it_is_about() {
    let mut c = TcpConnection::between(Endpoint::new(peer(), 80), Endpoint::new(local(), 51000));
    for _ in 0..3 {
        c.add(Direction::AToZ, &inbound(0));
    }
    assert_eq!(
        c.syn_warning(Direction::AToZ),
        Some("93.184.216.34:80->10.0.0.5:51000: 3 unanswered SYNs".to_string())
    );
    assert_eq!(c.syn_warning(Direction::ZToA), None);
}

#[test]
fn update_returns_the_counter_of_its_direction() {
    let mut db = TcpDb::new(local());
    let flow = resolve(&inbound(5), local()).expect("involves the local host");
    assert_eq!(db.update(&flow, &inbound(5)), 1);
    assert_eq!(db.update(&flow, &inbound(5)), 2);
    let back = resolve(&outbound(5), local()).expect("involves the local host");
    assert_eq!(db.update(&back, &outbound(5)), 1);
    assert_eq!(db.len(), 1);
    assert_eq!(db.latest().map(|c| c.a_to_z_bytes), Some(10));
}

#[test]
fn snapshot_lists_flows_in_order_of_first_sight() {
    let mut db = TcpDb::new(local());
    db.add(datagram((local(), 1000), (peer(), 80), 1, 2));
    db.add(datagram((local(), 1001), (peer(), 443), 2, 2));
    db.add(datagram((peer(), 80), (local(), 1000), 3, 18));
    let all = db.snapshot();
    assert_eq!(all.len(), 2);
    assert_eq!(all[0].get_flow(), "93.184.216.34:80<->10.0.0.5:1000");
    assert_eq!(all[1].get_flow(), "93.184.216.34:443<->10.0.0.5:1001");
    assert_eq!(all[0].z_to_a_bytes, 1);
    assert_eq!(all[0].a_to_z_bytes, 3);
    assert_eq!(all[1].z_to_a_bytes, 2);
    assert_eq!(db.latest(), Some(all[0]));
    assert_eq!(db.local_ipv4(), local());
}

#[test]
fn snapshot_is_a_copy() {
    let mut db = TcpDb::new(local());
    db.add(outbound(4));
    let mut all = db.snapshot();
    all[0].z_to_a_bytes = 99;
    all.clear();
    assert_eq!(db.snapshot()[0].z_to_a_bytes, 4);
}

#[test]
fn many_flows_are_found_again() {
    let mut db = TcpDb::new(local());
    for port in 1000u16..1200 {
        db.add(datagram((local(), port), (peer(), 80), u32::from(port), 2));
    }
    assert_eq!(db.len(), 200);
    for port in 1000u16..1200 {
        let state = db
            .get(Endpoint::new(peer(), 80), Endpoint::new(local(), port))
            .expect("the flow is tracked");
        assert_eq!(state.z_to_a_bytes, u64::from(port));
    }
    assert_eq!(db.get(Endpoint::new(peer(), 80), Endpoint::new(local(), 1200)), None);
}

#[test]
fn star_filter_lets_everything_through() {
    assert!(filter_admits("*", &outbound(0)));
    assert!(filter_admits("*", &datagram((peer(), 1), (peer(), 2), 0, 0)));
}

#[test]
fn filter_looks_for_its_text_in_either_address() {
    assert!(filter_admits("10.0.0.5", &outbound(0)));
    assert!(filter_admits("93.184.216.34", &outbound(0)));
    assert!(filter_admits("93.184", &outbound(0)));
    assert!(filter_admits("", &outbound(0)));
    assert!(!filter_admits("192.168", &outbound(0)));
    assert!(!filter_admits("**", &outbound(0)));
    assert!(!filter_admits("51000", &outbound(0)));
}

#[test]
fn filtered_datagram_changes_nothing() {
    let mut db = TcpDb::new(local());
    let mut count: u32 = 4;
    let outcome = process("192.168.1.1", None, &mut db, &mut count, outbound(10));
    assert_eq!(outcome, Outcome::Filtered);
    assert_eq!(count, 4);
    assert_eq!(db.len(), 0);
}

#[test]
fn store_traffic_is_never_tracked() {
    let mut db = TcpDb::new(local());
    let mut count: u32 = 0;
    let to_store = datagram((local(), 40000), (local(), 6379), 20, 24);
    let from_store = datagram((local(), 6379), (local(), 40000), 20, 24);
    assert!(is_own_traffic(Some(6379), &to_store));
    assert!(is_own_traffic(Some(6379), &from_store));
    assert!(!is_own_traffic(Some(6379), &outbound(0)));
    assert!(!is_own_traffic(None, &to_store));
    assert_eq!(process("*", Some(6379), &mut db, &mut count, to_store), Outcome::Filtered);
    assert_eq!(process("*", Some(6379), &mut db, &mut count, from_store), Outcome::Filtered);
    assert_eq!(count, 0);
    assert_eq!(db.len(), 0);
    assert!(matches!(process("*", None, &mut db, &mut count, to_store), Outcome::Recorded(_)));
    assert_eq!(count, 1);
    assert_eq!(db.len(), 1);
}

#[test]
fn admitted_datagram_is_counted_and_recorded() {
    let mut db = TcpDb::new(local());
    let mut count: u32 = 0;
    let outcome = process("*", Some(6379), &mut db, &mut count, outbound(0));
    assert_eq!(
        outcome,
        Outcome::Recorded(Observation {
            flow: Flow {
                a_endpoint: Endpoint::new(peer(), 80),
                z_endpoint: Endpoint::new(local(), 51000),
                direction: Direction::ZToA,
            },
            created: true,
            syn_counter: 1,
            warning: false,
        })
    );
    assert_eq!(count, 1);
    let stranger = datagram((peer(), 80), (Ipv4Address::new(8, 8, 8, 8), 53), 100, 16);
    assert_eq!(process("*", Some(6379), &mut db, &mut count, stranger), Outcome::Dropped);
    assert_eq!(count, 2);
    assert_eq!(db.len(), 1);
}

#[test]
fn count_stays_at_its_maximum() {
    let mut db = TcpDb::new(local());
    let mut count: u32 = u32::MAX - 1;
    process("*", None, &mut db, &mut count, outbound(0));
    assert_eq!(count, u32::MAX);
    process("*", None, &mut db, &mut count, outbound(0));
    assert_eq!(count, u32::MAX);
}

#[test]
fn syn_only_segment_is_recognised() {
    assert!(datagram((local(), 1), (peer(), 2), 0, 2).is_syn());
    assert!(!datagram((local(), 1), (peer(), 2), 0, 18).is_syn());
    assert!(!datagram((local(), 1), (peer(), 2), 0, 0).is_syn());
    assert!(!datagram((local(), 1), (peer(), 2), 0, 16).is_syn());
    assert_eq!(datagram((local(), 1), (peer(), 2), 0, 2).get_offset(), 5);
}

#[test]
fn endpoints_of_a_datagram() {
    let d = outbound(0);
    assert_eq!(d.source_endpoint(), Endpoint::new(local(), 51000));
    assert_eq!(d.destination_endpoint(), Endpoint::new(peer(), 80));
}
