use tcp_flows::address::{Endpoint, Ipv4Address};
use tcp_flows::datagram::TcpDatagram;
use tcp_flows::flow::{Direction, Flow};
use tcp_flows::processor::begin_store_update;
use tcp_flows::tcp_db::Observation;
use tcp_flows::tcpdb::{
    counter_from, Field, Stage, Step, StoreReply, StoreRequest, StoreUpdate, TcpDatabase,
};

fn flow(direction: Direction) -> Flow {
    Flow {
        a_endpoint: Endpoint::new(Ipv4Address::new(93, 184, 216, 34), 80),
        z_endpoint: Endpoint::new(Ipv4Address::new(10, 0, 0, 5), 51000),
        direction,
    }
}

fn datagram() -> TcpDatagram {
    TcpDatagram {
        src_ip: Ipv4Address::new(10, 0, 0, 5),
        src_port: 51000,
        dst_ip: Ipv4Address::new(93, 184, 216, 34),
        dst_port: 80,
        bytes: 512,
        ack_num: 77,
        seq_num: 1234,
        flags: 2,
        offset: 5,
    }
}

fn key() -> String {
    "93.184.216.34:80<->10.0.0.5:51000".to_string()
}

#[test]
fn store_is_reached_on_this_machine() {
    let db = TcpDatabase::new();
    assert_eq!(db.host, Ipv4Address::new(127, 0, 0, 1));
    assert_eq!(db.port, 6379);
    assert_eq!(db.url(), "redis://127.0.0.1:6379");
    let other = TcpDatabase { host: Ipv4Address::new(10, 1, 2, 3), port: 7000 };
    assert_eq!(other.url(), "redis://10.1.2.3:7000");
}

#[test]
fn store_knows_its_own_traffic() {
    let db = TcpDatabase::new();
    let mut d = datagram();
    assert!(!db.carries_own_traffic(&d));
    d.dst_port = 6379;
    assert!(db.carries_own_traffic(&d));
    d.dst_port = 80;
    d.src_port = 6379;
    assert!(db.carries_own_traffic(&d));
}

#[test]
fn fields_have_their_names() {
    assert_eq!(Field::AEndpoint.name(), "a_endpoint");
    assert_eq!(Field::ZEndpoint.name(), "z_endpoint");
    assert_eq!(Field::AToZBytes.name(), "a_to_z_bytes");
    assert_eq!(Field::ZToABytes.name(), "z_to_a_bytes");
    assert_eq!(Field::AToZSynCounter.name(), "a_to_z_syn_counter");
    assert_eq!(Field::ZToASynCounter.name(), "z_to_a_syn_counter");
    assert_eq!(Field::AToZLastSeq.name(), "a_to_z_last_seq");
    assert_eq!(Field::AToZLastAck.name(), "a_to_z_last_ack");
    assert_eq!(Field::ZToALastSeq.name(), "z_to_a_last_seq");
    assert_eq!(Field::ZToALastAck.name(), "z_to_a_last_ack");
}

#[test]
fn fields_follow_the_direction() {
    assert_eq!(Field::bytes(Direction::AToZ), Field::AToZBytes);
    assert_eq!(Field::bytes(Direction::ZToA), Field::ZToABytes);
    assert_eq!(Field::syn_counter(Direction::AToZ), Field::AToZSynCounter);
    assert_eq!(Field::syn_counter(Direction::ZToA), Field::ZToASynCounter);
    assert_eq!(Field::last_seq(Direction::AToZ), Field::AToZLastSeq);
    assert_eq!(Field::last_seq(Direction::ZToA), Field::ZToALastSeq);
    assert_eq!(Field::last_ack(Direction::AToZ), Field::AToZLastAck);
    assert_eq!(Field::last_ack(Direction::ZToA), Field::ZToALastAck);
}

#[test]
fn single_requests_name_key_and_field() {
    let db = TcpDatabase::new();
    assert_eq!(
        db.add_a_z_seq_num(&key(), 5),
        StoreRequest::SetField { key: key(), field: Field::AToZLastSeq, value: 5 }
    );
    assert_eq!(
        db.add_a_z_ack_num(&key(), 6),
        StoreRequest::SetField { key: key(), field: Field::AToZLastAck, value: 6 }
    );
    assert_eq!(
        db.add_z_a_seq_num(&key(), 7),
        StoreRequest::SetField { key: key(), field: Field::ZToALastSeq, value: 7 }
    );
    assert_eq!(
        db.add_z_a_ack_num(&key(), 8),
        StoreRequest::SetField { key: key(), field: Field::ZToALastAck, value: 8 }
    );
    assert_eq!(
        db.increment_a_to_z_syn_counter(&key()),
        StoreRequest::IncrementField { key: key(), field: Field::AToZSynCounter, by: 1 }
    );
    assert_eq!(
        db.increment_z_to_a_syn_counter(&key()),
        StoreRequest::IncrementField { key: key(), field: Field::ZToASynCounter, by: 1 }
    );
    assert_eq!(
        db.get_z_to_a_syn_counter(&key()),
        StoreRequest::GetField { key: key(), field: Field::ZToASynCounter }
    );
    assert_eq!(db.get_redis_keys(), StoreRequest::ListKeys);
}

#[test]
fn adding_a_connection_probes_then_creates() {
    let db = TcpDatabase::new();
    let a = "93.184.216.34:80".to_string();
    let z = "10.0.0.5:51000".to_string();
    assert_eq!(db.add_tcp_connection(&key(), &a, &z), StoreRequest::Exists { key: key() });
    assert_eq!(
        db.add_tcp_connection_reply(&key(), &a, &z, StoreReply::Missing),
        Some(StoreRequest::Create { key: key(), a_endpoint: a.clone(), z_endpoint: z.clone() })
    );
    assert_eq!(db.add_tcp_connection_reply(&key(), &a, &z, StoreReply::Found), None);
    assert_eq!(db.add_tcp_connection_reply(&key(), &a, &z, StoreReply::Failed), None);
    assert_eq!(db.add_tcp_connection_reply(&key(), &a, &z, StoreReply::Done), None);
    assert!(db.tcp_connection_added(StoreReply::Missing, Some(StoreReply::Done)));
    assert!(!db.tcp_connection_added(StoreReply::Found, None));
    assert!(!db.tcp_connection_added(StoreReply::Missing, Some(StoreReply::Failed)));
    assert!(!db.tcp_connection_added(StoreReply::Missing, None));
    assert!(!db.tcp_connection_added(StoreReply::Failed, None));
}

#[test]
fn update_of_a_new_flow_sends_six_requests() {
    let db = TcpDatabase::new();
    let f = flow(Direction::ZToA);
    let (update, first) = db.begin(f, datagram());
    assert_eq!(first, StoreRequest::Exists { key: key() });
    assert_eq!(update.stage, Stage::Probing);
    assert!(!update.created);

    let (update, step) = db.advance(update, StoreReply::Missing);
    assert_eq!(
        step,
        Step::Send(StoreRequest::Create {
            key: key(),
            a_endpoint: "93.184.216.34:80".to_string(),
            z_endpoint: "10.0.0.5:51000".to_string(),
        })
    );
    assert!(update.created);

    let (update, step) = db.advance(update, StoreReply::Done);
    assert_eq!(
        step,
        Step::Send(StoreRequest::IncrementField { key: key(), field: Field::ZToABytes, by: 512 })
    );
    let (update, step) = db.advance(update, StoreReply::Value(512));
    assert_eq!(
        step,
        Step::Send(StoreRequest::SetField { key: key(), field: Field::ZToALastSeq, value: 1234 })
    );
    let (update, step) = db.advance(update, StoreReply::Done);
    assert_eq!(
        step,
        Step::Send(StoreRequest::SetField { key: key(), field: Field::ZToALastAck, value: 77 })
    );
    let (update, step) = db.advance(update, StoreReply::Done);
    assert_eq!(
        step,
        Step::Send(StoreRequest::IncrementField {
            key: key(),
            field: Field::ZToASynCounter,
            by: 1
        })
    );
    let (update, step) = db.advance(update, StoreReply::Value(1));
    let seen = Observation { flow: f, created: true, syn_counter: 1, warning: false };
    assert_eq!(step, Step::Stop(Some(seen)));
    assert_eq!(update.stage, Stage::Finished);

    let (update, step) = db.advance(update, StoreReply::Done);
    assert_eq!(step, Step::Stop(None));
    assert_eq!(update.stage, Stage::Finished);
}

#[test]
fn update_of_a_known_flow_skips_the_creation() {
    let db = TcpDatabase::new();
    let f = flow(Direction::AToZ);
    let (update, _) = db.begin(f, datagram());
    let (update, step) = db.advance(update, StoreReply::Found);
    assert_eq!(
        step,
        Step::Send(StoreRequest::IncrementField { key: key(), field: Field::AToZBytes, by: 512 })
    );
    assert!(!update.created);
    let (update, _) = db.advance(update, StoreReply::Value(2048));
    let (update, _) = db.advance(update, StoreReply::Done);
    let (update, step) = db.advance(update, StoreReply::Done);
    assert_eq!(
        step,
        Step::Send(StoreRequest::IncrementField {
            key: key(),
            field: Field::AToZSynCounter,
            by: 1
        })
    );
    let (_, step) = db.advance(update, StoreReply::Value(3));
    let seen = Observation { flow: f, created: false, syn_counter: 3, warning: true };
    assert_eq!(step, Step::Stop(Some(seen)));
}

#[test]
fn failure_drops_the_update_at_every_stage() {
    let db = TcpDatabase::new();
    let stages = [
        Stage::Probing,
        Stage::Creating,
        Stage::AddingBytes,
        Stage::SettingSeq,
        Stage::SettingAck,
        Stage::CountingSyn,
        Stage::Finished,
    ];
    for stage in stages {
        let update = StoreUpdate {
            flow: flow(Direction::AToZ),
            datagram: datagram(),
            stage,
            created: false,
        };
        let (after, step) = db.advance(update, StoreReply::Failed);
        assert_eq!(step, Step::Stop(None));
        assert_eq!(after.stage, Stage::Finished);
    }
}

#[test]
fn reply_that_answers_another_request_drops_the_update() {
    let db = TcpDatabase::new();
    let (update, _) = db.begin(flow(Direction::AToZ), datagram());
    assert_eq!(db.advance(update, StoreReply::Done).1, Step::Stop(None));
    assert_eq!(db.advance(update, StoreReply::Value(1)).1, Step::Stop(None));
    let (update, _) = db.advance(update, StoreReply::Found);
    assert_eq!(db.advance(update, StoreReply::Done).1, Step::Stop(None));
    assert_eq!(db.advance(update, StoreReply::Missing).1, Step::Stop(None));
}

#[test]
fn store_update_begins_for_what_ingestion_admits() {
    let db = TcpDatabase::new();
    let local = Ipv4Address::new(10, 0, 0, 5);
    let (update, request) =
        begin_store_update("*", &db, local, &datagram()).expect("the datagram is to be tracked");
    assert_eq!(request, StoreRequest::Exists { key: key() });
    assert_eq!(
        update,
        StoreUpdate {
            flow: flow(Direction::ZToA),
            datagram: datagram(),
            stage: Stage::Probing,
            created: false
        }
    );
    assert_eq!(begin_store_update("192.168", &db, local, &datagram()), None);
    assert_eq!(begin_store_update("*", &db, Ipv4Address::new(10, 0, 0, 6), &datagram()), None);
    let mut to_store = datagram();
    to_store.dst_port = 6379;
    assert_eq!(begin_store_update("*", &db, local, &to_store), None);
}

#[test]
fn counter_is_read_within_its_range() {
    assert_eq!(counter_from(0), 0);
    assert_eq!(counter_from(3), 3);
    assert_eq!(counter_from(-1), 0);
    assert_eq!(counter_from(i64::MIN), 0);
    assert_eq!(counter_from(i64::from(u32::MAX)), u32::MAX);
    assert_eq!(counter_from(i64::from(u32::MAX) + 1), u32::MAX);
    assert_eq!(counter_from(i64::MAX), u32::MAX);
}
