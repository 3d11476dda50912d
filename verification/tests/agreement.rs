use std::collections::HashMap;

use tcp_flows::address::{Endpoint, Ipv4Address};
use tcp_flows::connection::TcpConnection;
use tcp_flows::datagram::TcpDatagram;
use tcp_flows::flow::Direction;
use tcp_flows::processor::begin_store_update;
use tcp_flows::tcp_db::{Observation, TcpDb};
use tcp_flows::tcpdb::{Field, Step, StoreReply, StoreRequest, StoreUpdate, TcpDatabase};

/// A store of hashes in memory, answering as the real one does.
struct Hashes {
    texts: HashMap<String, HashMap<Field, String>>,
    numbers: HashMap<String, HashMap<Field, i64>>,
    fail_at: Option<usize>,
    served: usize,
}

impl Hashes {
    fn new() -> Self {
        Hashes { texts: HashMap::new(), numbers: HashMap::new(), fail_at: None, served: 0 }
    }

    fn holds(&self, key: &str) -> bool {
        self.texts.contains_key(key) || self.numbers.contains_key(key)
    }

    fn serve(&mut self, request: &StoreRequest) -> StoreReply {
        self.served += 1;
        if self.fail_at == Some(self.served) {
            return StoreReply::Failed;
        }
        match request {
            StoreRequest::Exists { key } => {
                if self.holds(key) {
                    StoreReply::Found
                } else {
                    StoreReply::Missing
                }
            }
            StoreRequest::Create { key, a_endpoint, z_endpoint } => {
                let texts = self.texts.entry(key.clone()).or_default();
                texts.insert(Field::AEndpoint, a_endpoint.clone());
                texts.insert(Field::ZEndpoint, z_endpoint.clone());
                self.numbers.insert(key.clone(), HashMap::new());
                StoreReply::Done
            }
            StoreRequest::IncrementField { key, field, by } => {
                let numbers = self.numbers.entry(key.clone()).or_default();
                let value = numbers.entry(*field).or_insert(0);
                match value.checked_add(i64::from(*by)) {
                    Some(sum) => {
                        *value = sum;
                        StoreReply::Value(sum)
                    }
                    None => StoreReply::Failed,
                }
            }
            StoreRequest::SetField { key, field, value } => {
                let numbers = self.numbers.entry(key.clone()).or_default();
                numbers.insert(*field, i64::from(*value));
                StoreReply::Done
            }
            StoreRequest::GetField { key, field } => {
                match self.numbers.get(key).and_then(|n| n.get(field)) {
                    Some(value) => StoreReply::Value(*value),
                    None => StoreReply::Missing,
                }
            }
            StoreRequest::ListKeys => StoreReply::Failed,
        }
    }

    fn run(
        &mut self,
        db: &TcpDatabase,
        begun: StoreUpdate,
        first: StoreRequest,
    ) -> Option<Observation> {
        let (mut update, mut request) = (begun, first);
        for _ in 0..6 {
            let reply = self.serve(&request);
            let (next, step) = db.advance(update, reply);
            update = next;
            match step {
                Step::Send(following) => request = following,
                Step::Stop(seen) => return seen,
            }
        }
        panic!("an update sends six requests at most");
    }

    fn number(&self, key: &str, field: Field) -> u64 {
        let value = self.numbers.get(key).and_then(|n| n.get(&field)).copied().unwrap_or(0);
        u64::try_from(value).expect("counters are not negative")
    }

    fn stands_for(&self, key: &str, c: &TcpConnection) -> bool {
        let texts = match self.texts.get(key) {
            Some(texts) => texts,
            None => return false,
        };
        texts.get(&Field::AEndpoint) == Some(&c.a_endpoint.to_text())
            && texts.get(&Field::ZEndpoint) == Some(&c.z_endpoint.to_text())
            && self.number(key, Field::AToZBytes) == c.a_to_z_bytes
            && self.number(key, Field::ZToABytes) == c.z_to_a_bytes
            && self.number(key, Field::AToZSynCounter) == u64::from(c.a_to_z_syn_counter)
            && self.number(key, Field::ZToASynCounter) == u64::from(c.z_to_a_syn_counter)
            && self.number(key, Field::AToZLastSeq) == u64::from(c.a_to_z_last_seq)
            && self.number(key, Field::AToZLastAck) == u64::from(c.a_to_z_last_ack)
            && self.number(key, Field::ZToALastSeq) == u64::from(c.z_to_a_last_seq)
            && self.number(key, Field::ZToALastAck) == u64::from(c.z_to_a_last_ack)
    }
}

fn local() -> Ipv4Address {
    Ipv4Address::new(10, 0, 0, 5)
}

fn peer() -> Ipv4Address {
    Ipv4Address::new(93, 184, 216, 34)
}

fn datagram(outbound: bool, port: u16, bytes: u32, seq_num: u32, ack_num: u32) -> TcpDatagram {
    let (src, dst) = if outbound {
        ((local(), port), (peer(), 80))
    } else {
        ((peer(), 80), (local(), port))
    };
    TcpDatagram {
        src_ip: src.0,
        src_port: src.1,
        dst_ip: dst.0,
        dst_port: dst.1,
        bytes,
        ack_num,
        seq_num,
        flags: 16,
        offset: 5,
    }
}

#[test]
fn store_and_memory_hold_the_same_after_every_datagram() {
    let adapter = TcpDatabase::new();
    let mut store = Hashes::new();
    let mut memory = TcpDb::new(local());
    let run = [
        datagram(true, 51000, 0, 100, 0),
        datagram(false, 51000, 0, 900, 101),
        datagram(true, 51000, 512, 101, 901),
        datagram(true, 51001, 40, 7, 0),
        datagram(false, 51000, 1460, 901, 613),
        datagram(true, 51000, 0, 613, 2361),
        datagram(true, 51001, 40, 47, 0),
        datagram(true, 51001, 40, 87, 0),
    ];
    for d in run {
        let in_memory = memory.add(d).expect("involves the local host");
        let (update, request) =
            begin_store_update("*", &adapter, local(), &d).expect("is to be tracked");
        let in_store = store.run(&adapter, update, request).expect("no request fails");
        assert_eq!(in_store, in_memory);
        for state in memory.snapshot() {
            assert!(store.stands_for(&state.get_flow(), &state));
        }
    }
    assert_eq!(store.numbers.len(), 2);
    let first = memory
        .get(Endpoint::new(peer(), 80), Endpoint::new(local(), 51000))
        .expect("the flow is tracked");
    assert_eq!(first.bytes(Direction::ZToA), 512);
    assert_eq!(first.bytes(Direction::AToZ), 1460);
    assert_eq!(store.number("93.184.216.34:80<->10.0.0.5:51000", Field::AToZBytes), 1460);
    assert_eq!(store.number("93.184.216.34:80<->10.0.0.5:51001", Field::ZToASynCounter), 3);
}

#[test]
fn failed_request_drops_the_update_and_the_next_goes_on() {
    let adapter = TcpDatabase::new();
    let mut store = Hashes::new();
    let d = datagram(true, 51000, 100, 1, 2);
    let key = "93.184.216.34:80<->10.0.0.5:51000";

    let (update, request) = begin_store_update("*", &adapter, local(), &d).expect("tracked");
    assert!(store.run(&adapter, update, request).is_some());
    assert_eq!(store.number(key, Field::ZToABytes), 100);
    assert_eq!(store.number(key, Field::ZToASynCounter), 1);

    store.fail_at = Some(store.served + 3);
    let (update, request) = begin_store_update("*", &adapter, local(), &d).expect("tracked");
    assert_eq!(store.run(&adapter, update, request), None);
    assert_eq!(store.number(key, Field::ZToABytes), 200);
    assert_eq!(store.number(key, Field::ZToASynCounter), 1);

    store.fail_at = None;
    let (update, request) = begin_store_update("*", &adapter, local(), &d).expect("tracked");
    let seen = store.run(&adapter, update, request).expect("no request fails");
    assert_eq!(seen.syn_counter, 2);
    assert!(!seen.created);
    assert_eq!(store.number(key, Field::ZToABytes), 300);
}
