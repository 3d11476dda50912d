//! The flow table kept in a network-attached key-value store.
//!
//! Nothing here talks to the store. The adapter says which request to send
//! next, builds the command that carries it, and says what the store's
//! answer means; the caller sends the commands and hands the answers back.
//! Every request works on the store's current value, so the adapter keeps no
//! copy of what the store holds.
//!
//! Commands are values of the `redis` crate. Of the two calls that build
//! them nothing is proved: their contracts are taken on trust.

use vstd::prelude::*;
use vstd::string::*;
use vstd::utf8::encode_utf8;
use redis::Cmd;
use crate::address::{endpoint_text, Endpoint, Ipv4Address};
use crate::connection::{syn_threshold_reached, warning_due};
use crate::datagram::TcpDatagram;
use crate::flow::{Direction, Flow};
use crate::tcp_db::Observation;
use crate::text::{append_decimal, decimal};

verus! {

/// A field of a connection state as the store holds it.
#[derive(Clone, Copy, Debug, PartialEq, Eq, Structural, Hash)]
pub enum Field {
    AEndpoint,
    ZEndpoint,
    AToZBytes,
    ZToABytes,
    AToZSynCounter,
    ZToASynCounter,
    AToZLastSeq,
    AToZLastAck,
    ZToALastSeq,
    ZToALastAck,
}

/// The name under which the store holds a field.
pub open spec fn field_text(field: Field) -> Seq<char> {
    match field {
        Field::AEndpoint => "a_endpoint"@,
        Field::ZEndpoint => "z_endpoint"@,
        Field::AToZBytes => "a_to_z_bytes"@,
        Field::ZToABytes => "z_to_a_bytes"@,
        Field::AToZSynCounter => "a_to_z_syn_counter"@,
        Field::ZToASynCounter => "z_to_a_syn_counter"@,
        Field::AToZLastSeq => "a_to_z_last_seq"@,
        Field::AToZLastAck => "a_to_z_last_ack"@,
        Field::ZToALastSeq => "z_to_a_last_seq"@,
        Field::ZToALastAck => "z_to_a_last_ack"@,
    }
}

impl Field {
    /// The byte total of `direction`.
    pub open spec fn bytes_of(direction: Direction) -> Field {
        match direction {
            Direction::AToZ => Field::AToZBytes,
            Direction::ZToA => Field::ZToABytes,
        }
    }

    /// The SYN counter of `direction`.
    pub open spec fn syn_counter_of(direction: Direction) -> Field {
        match direction {
            Direction::AToZ => Field::AToZSynCounter,
            Direction::ZToA => Field::ZToASynCounter,
        }
    }

    /// The last sequence number of `direction`.
    pub open spec fn last_seq_of(direction: Direction) -> Field {
        match direction {
            Direction::AToZ => Field::AToZLastSeq,
            Direction::ZToA => Field::ZToALastSeq,
        }
    }

    /// The last acknowledgment number of `direction`.
    pub open spec fn last_ack_of(direction: Direction) -> Field {
        match direction {
            Direction::AToZ => Field::AToZLastAck,
            Direction::ZToA => Field::ZToALastAck,
        }
    }

    /// The name under which the store holds the field.
    pub fn name(&self) -> (name: &'static str)
        ensures
            name@ == field_text(*self),
    {
        match self {
            Field::AEndpoint => "a_endpoint",
            Field::ZEndpoint => "z_endpoint",
            Field::AToZBytes => "a_to_z_bytes",
            Field::ZToABytes => "z_to_a_bytes",
            Field::AToZSynCounter => "a_to_z_syn_counter",
            Field::ZToASynCounter => "z_to_a_syn_counter",
            Field::AToZLastSeq => "a_to_z_last_seq",
            Field::AToZLastAck => "a_to_z_last_ack",
            Field::ZToALastSeq => "z_to_a_last_seq",
            Field::ZToALastAck => "z_to_a_last_ack",
        }
    }

    /// The byte total of `direction`.
    pub fn bytes(direction: Direction) -> (field: Field)
        ensures
            field == Field::bytes_of(direction),
    {
        match direction {
            Direction::AToZ => Field::AToZBytes,
            Direction::ZToA => Field::ZToABytes,
        }
    }

    /// The SYN counter of `direction`.
    pub fn syn_counter(direction: Direction) -> (field: Field)
        ensures
            field == Field::syn_counter_of(direction),
    {
        match direction {
            Direction::AToZ => Field::AToZSynCounter,
            Direction::ZToA => Field::ZToASynCounter,
        }
    }

    /// The last sequence number of `direction`.
    pub fn last_seq(direction: Direction) -> (field: Field)
        ensures
            field == Field::last_seq_of(direction),
    {
        match direction {
            Direction::AToZ => Field::AToZLastSeq,
            Direction::ZToA => Field::ZToALastSeq,
        }
    }

    /// The last acknowledgment number of `direction`.
    pub fn last_ack(direction: Direction) -> (field: Field)
        ensures
            field == Field::last_ack_of(direction),
    {
        match direction {
            Direction::AToZ => Field::AToZLastAck,
            Direction::ZToA => Field::ZToALastAck,
        }
    }
}

/// One operation asked of the store.
#[derive(Clone, Debug, PartialEq, Eq)]
pub enum StoreRequest {
    /// Is there a state under `key`?
    Exists { key: String },
    /// Put a fresh state under `key`: both endpoints as given, every
    /// counter and number zero.
    Create { key: String, a_endpoint: String, z_endpoint: String },
    /// Add `by` to a field of the state under `key`; the reply is the new value.
    IncrementField { key: String, field: Field, by: u32 },
    /// Overwrite a field of the state under `key`.
    SetField { key: String, field: Field, value: u32 },
    /// Read a field of the state under `key`.
    GetField { key: String, field: Field },
    /// List the keys of all states.
    ListKeys,
}

/// A request with its texts as plain sequences of characters.
pub ghost enum RequestModel {
    Exists { key: Seq<char> },
    Create { key: Seq<char>, a_endpoint: Seq<char>, z_endpoint: Seq<char> },
    IncrementField { key: Seq<char>, field: Field, by: u32 },
    SetField { key: Seq<char>, field: Field, value: u32 },
    GetField { key: Seq<char>, field: Field },
    ListKeys,
}

impl View for StoreRequest {
    type V = RequestModel;

    open spec fn view(&self) -> RequestModel {
        match *self {
            StoreRequest::Exists { key } => RequestModel::Exists { key: key@ },
            StoreRequest::Create { key, a_endpoint, z_endpoint } => RequestModel::Create {
                key: key@,
                a_endpoint: a_endpoint@,
                z_endpoint: z_endpoint@,
            },
            StoreRequest::IncrementField { key, field, by } => RequestModel::IncrementField {
                key: key@,
                field,
                by,
            },
            StoreRequest::SetField { key, field, value } => RequestModel::SetField {
                key: key@,
                field,
                value,
            },
            StoreRequest::GetField { key, field } => RequestModel::GetField { key: key@, field },
            StoreRequest::ListKeys => RequestModel::ListKeys,
        }
    }
}

/// `redis::Cmd`, a command with its arguments.
#[verifier::external_type_specification]
#[verifier::external_body]
pub struct ExCmd(Cmd);

/// The arguments that a command holds, in their order, each as the bytes
/// that go on the wire. The command's name is the first of them.
pub uninterp spec fn arguments(command: Cmd) -> Seq<Seq<u8>>;

/// Calls `redis::cmd`. Trusted: the new command holds its name as its only
/// argument.
#[verifier::external_body]
fn command(name: &str) -> (command: Cmd)
    ensures
        arguments(command) == seq![name.spec_bytes()],
{
    redis::cmd(name)
}

/// Calls `Cmd::arg` with a text. Trusted: the text's bytes become the
/// command's last argument and the arguments before it stay.
#[verifier::external_body]
fn push_argument(command: &mut Cmd, argument: &str)
    ensures
        arguments(*final(command)) == arguments(*old(command)).push(argument.spec_bytes()),
{
    command.arg(argument);
}

/// The words of the command that carries `request`: the command's name,
/// then its arguments.
pub open spec fn command_words(request: RequestModel) -> Seq<Seq<char>> {
    match request {
        RequestModel::Exists { key } => seq!["EXISTS"@, key],
        RequestModel::Create { key, a_endpoint, z_endpoint } => seq![
            "HSET"@,
            key,
            field_text(Field::AEndpoint),
            a_endpoint,
            field_text(Field::ZEndpoint),
            z_endpoint,
            field_text(Field::AToZBytes),
            "0"@,
            field_text(Field::ZToABytes),
            "0"@,
            field_text(Field::AToZSynCounter),
            "0"@,
            field_text(Field::ZToASynCounter),
            "0"@,
            field_text(Field::AToZLastSeq),
            "0"@,
            field_text(Field::AToZLastAck),
            "0"@,
            field_text(Field::ZToALastSeq),
            "0"@,
            field_text(Field::ZToALastAck),
            "0"@,
        ],
        RequestModel::IncrementField { key, field, by } => seq![
            "HINCRBY"@,
            key,
            field_text(field),
            decimal(by as nat),
        ],
        RequestModel::SetField { key, field, value } => seq![
            "HSET"@,
            key,
            field_text(field),
            decimal(value as nat),
        ],
        RequestModel::GetField { key, field } => seq!["HGET"@, key, field_text(field)],
        RequestModel::ListKeys => seq!["KEYS"@, "*"@],
    }
}

/// Words as they go on the wire: each in UTF-8.
pub open spec fn wire_words(words: Seq<Seq<char>>) -> Seq<Seq<u8>> {
    words.map_values(|word: Seq<char>| encode_utf8(word))
}

/// What the store answered, as the caller read it off the wire.
#[derive(Clone, Copy, Debug, PartialEq, Eq, Structural)]
pub enum Answer {
    /// A yes or no.
    Flag(bool),
    /// A number.
    Number(i64),
    /// Nothing is there.
    Nothing,
    /// The store could not be reached, or it refused the command.
    Failure,
}

/// What `answer` means as the reply to `request`. An answer of a kind that
/// the request cannot have counts as a failure.
pub open spec fn reply_of(request: RequestModel, answer: Answer) -> StoreReply {
    match (request, answer) {
        (RequestModel::Exists { .. }, Answer::Flag(true)) => StoreReply::Found,
        (RequestModel::Exists { .. }, Answer::Flag(false)) => StoreReply::Missing,
        (RequestModel::Create { .. }, Answer::Number(_)) => StoreReply::Done,
        (RequestModel::SetField { .. }, Answer::Number(_)) => StoreReply::Done,
        (RequestModel::IncrementField { .. }, Answer::Number(n)) => StoreReply::Value(n),
        (RequestModel::GetField { .. }, Answer::Number(n)) => StoreReply::Value(n),
        (RequestModel::GetField { .. }, Answer::Nothing) => StoreReply::Missing,
        _ => StoreReply::Failed,
    }
}

fn push_field_zero(command: &mut Cmd, field: Field)
    ensures
        arguments(*final(command)) == arguments(*old(command)).push(
            encode_utf8(field_text(field)),
        ).push(encode_utf8("0"@)),
{
    push_argument(command, field.name());
    push_argument(command, "0");
}

fn push_number(command: &mut Cmd, number: u32)
    ensures
        arguments(*final(command)) == arguments(*old(command)).push(
            encode_utf8(decimal(number as nat)),
        ),
{
    let mut text = String::new();
    append_decimal(&mut text, number);
    assert(text@ =~= decimal(number as nat));
    push_argument(command, text.as_str());
}

impl StoreRequest {
    /// The command that carries the request to the store.
    pub fn to_command(&self) -> (command: Cmd)
        ensures
            arguments(command) == wire_words(command_words(self@)),
    {
        match self {
            StoreRequest::Exists { key } => {
                let mut c = command("EXISTS");
                push_argument(&mut c, key.as_str());
                assert(arguments(c) =~= wire_words(command_words(self@)));
                c
            },
            StoreRequest::Create { key, a_endpoint, z_endpoint } => {
                let mut c = command("HSET");
                push_argument(&mut c, key.as_str());
                push_argument(&mut c, Field::AEndpoint.name());
                push_argument(&mut c, a_endpoint.as_str());
                push_argument(&mut c, Field::ZEndpoint.name());
                push_argument(&mut c, z_endpoint.as_str());
                push_field_zero(&mut c, Field::AToZBytes);
                push_field_zero(&mut c, Field::ZToABytes);
                push_field_zero(&mut c, Field::AToZSynCounter);
                push_field_zero(&mut c, Field::ZToASynCounter);
                push_field_zero(&mut c, Field::AToZLastSeq);
                push_field_zero(&mut c, Field::AToZLastAck);
                push_field_zero(&mut c, Field::ZToALastSeq);
                push_field_zero(&mut c, Field::ZToALastAck);
                assert(arguments(c) =~= wire_words(command_words(self@)));
                c
            },
            StoreRequest::IncrementField { key, field, by } => {
                let mut c = command("HINCRBY");
                push_argument(&mut c, key.as_str());
                push_argument(&mut c, field.name());
                push_number(&mut c, *by);
                assert(arguments(c) =~= wire_words(command_words(self@)));
                c
            },
            StoreRequest::SetField { key, field, value } => {
                let mut c = command("HSET");
                push_argument(&mut c, key.as_str());
                push_argument(&mut c, field.name());
                push_number(&mut c, *value);
                assert(arguments(c) =~= wire_words(command_words(self@)));
                c
            },
            StoreRequest::GetField { key, field } => {
                let mut c = command("HGET");
                push_argument(&mut c, key.as_str());
                push_argument(&mut c, field.name());
                assert(arguments(c) =~= wire_words(command_words(self@)));
                c
            },
            StoreRequest::ListKeys => {
                let mut c = command("KEYS");
                push_argument(&mut c, "*");
                assert(arguments(c) =~= wire_words(command_words(self@)));
                c
            },
        }
    }

    /// What the store's answer means as the reply to this request.
    pub fn reply(&self, answer: Answer) -> (reply: StoreReply)
        ensures
            reply == reply_of(self@, answer),
    {
        match (self, answer) {
            (StoreRequest::Exists { .. }, Answer::Flag(true)) => StoreReply::Found,
            (StoreRequest::Exists { .. }, Answer::Flag(false)) => StoreReply::Missing,
            (StoreRequest::Create { .. }, Answer::Number(_)) => StoreReply::Done,
            (StoreRequest::SetField { .. }, Answer::Number(_)) => StoreReply::Done,
            (StoreRequest::IncrementField { .. }, Answer::Number(n)) => StoreReply::Value(n),
            (StoreRequest::GetField { .. }, Answer::Number(n)) => StoreReply::Value(n),
            (StoreRequest::GetField { .. }, Answer::Nothing) => StoreReply::Missing,
            _ => StoreReply::Failed,
        }
    }
}

/// What came back from the store for one request.
#[derive(Clone, Copy, Debug, PartialEq, Eq, Structural)]
pub enum StoreReply {
    /// The state asked about exists.
    Found,
    /// The state or field asked about does not exist.
    Missing,
    /// The state was created, or the field overwritten.
    Done,
    /// The value read, or the new value after an increment.
    Value(i64),
    /// The store could not be reached or refused the request.
    Failed,
}

/// How far the update for one datagram has come.
#[derive(Clone, Copy, Debug, PartialEq, Eq, Structural)]
pub enum Stage {
    /// Asked whether the flow has a state.
    Probing,
    /// Asked for a fresh state.
    Creating,
    /// Asked to add the payload to the byte total.
    AddingBytes,
    /// Asked to overwrite the last sequence number.
    SettingSeq,
    /// Asked to overwrite the last acknowledgment number.
    SettingAck,
    /// Asked to raise the SYN counter.
    CountingSyn,
    /// Nothing more to ask.
    Finished,
}

/// The update for one datagram, under way.
#[derive(Clone, Copy, Debug, PartialEq, Eq, Structural)]
pub struct StoreUpdate {
    pub flow: Flow,
    pub datagram: TcpDatagram,
    pub stage: Stage,
    /// Whether the update had to create the flow's state.
    pub created: bool,
}

/// What the caller does next.
#[derive(Clone, Debug, PartialEq, Eq)]
pub enum Step {
    /// Send this request and hand back the reply.
    Send(StoreRequest),
    /// The update is over. It ends with an observation if every request
    /// went through, and with nothing if it was dropped.
    Stop(Option<Observation>),
}

/// A step with its request as a model.
pub ghost enum StepModel {
    Send(RequestModel),
    Stop(Option<Observation>),
}

impl View for Step {
    type V = StepModel;

    open spec fn view(&self) -> StepModel {
        match *self {
            Step::Send(request) => StepModel::Send(request@),
            Step::Stop(seen) => StepModel::Stop(seen),
        }
    }
}

/// The stage that follows `stage` on `reply`; none if the reply is a
/// failure or not an answer to the stage's request, which drops the update.
pub open spec fn next_stage(stage: Stage, reply: StoreReply) -> Option<Stage> {
    match (stage, reply) {
        (Stage::Probing, StoreReply::Found) => Some(Stage::AddingBytes),
        (Stage::Probing, StoreReply::Missing) => Some(Stage::Creating),
        (Stage::Creating, StoreReply::Done) => Some(Stage::AddingBytes),
        (Stage::AddingBytes, StoreReply::Value(_)) => Some(Stage::SettingSeq),
        (Stage::SettingSeq, StoreReply::Done) => Some(Stage::SettingAck),
        (Stage::SettingAck, StoreReply::Done) => Some(Stage::CountingSyn),
        (Stage::CountingSyn, StoreReply::Value(_)) => Some(Stage::Finished),
        _ => None,
    }
}

/// The request that the update sends on entering `stage`; none once it is
/// finished.
pub open spec fn request_of(flow: Flow, datagram: TcpDatagram, stage: Stage) -> Option<
    RequestModel,
> {
    let key = flow.key_text();
    match stage {
        Stage::Probing => Some(RequestModel::Exists { key }),
        Stage::Creating => Some(
            RequestModel::Create {
                key,
                a_endpoint: endpoint_text(flow.a_endpoint),
                z_endpoint: endpoint_text(flow.z_endpoint),
            },
        ),
        Stage::AddingBytes => Some(
            RequestModel::IncrementField {
                key,
                field: Field::bytes_of(flow.direction),
                by: datagram.bytes,
            },
        ),
        Stage::SettingSeq => Some(
            RequestModel::SetField {
                key,
                field: Field::last_seq_of(flow.direction),
                value: datagram.seq_num,
            },
        ),
        Stage::SettingAck => Some(
            RequestModel::SetField {
                key,
                field: Field::last_ack_of(flow.direction),
                value: datagram.ack_num,
            },
        ),
        Stage::CountingSyn => Some(
            RequestModel::IncrementField {
                key,
                field: Field::syn_counter_of(flow.direction),
                by: 1,
            },
        ),
        Stage::Finished => None,
    }
}

/// How many requests an update at `stage` may still have to send after the
/// one it is waiting for.
pub open spec fn requests_left(stage: Stage) -> nat {
    match stage {
        Stage::Probing => 5,
        Stage::Creating => 4,
        Stage::AddingBytes => 3,
        Stage::SettingSeq => 2,
        Stage::SettingAck => 1,
        Stage::CountingSyn => 0,
        Stage::Finished => 0,
    }
}

/// A counter value read from the store, as a SYN counter: negative values
/// count as zero, values too large as the largest counter.
pub open spec fn counter_of(value: i64) -> u32 {
    if value < 0 {
        0
    } else if value > u32::MAX {
        u32::MAX
    } else {
        value as u32
    }
}

/// The update after `reply` came back, and the step that the caller takes
/// next.
///
/// A failure, or a reply that does not answer the request sent, drops the
/// update: it stops with nothing. Otherwise the update goes to its next
/// stage and sends that stage's request, until the SYN counter's new value
/// has come back: then it stops with the observation.
pub open spec fn advanced(update: StoreUpdate, reply: StoreReply) -> (StoreUpdate, StepModel) {
    let created = update.created || (update.stage is Probing && reply is Missing);
    match next_stage(update.stage, reply) {
        None => (
            StoreUpdate { stage: Stage::Finished, created, ..update },
            StepModel::Stop(None),
        ),
        Some(Stage::Finished) => (
            StoreUpdate { stage: Stage::Finished, created, ..update },
            StepModel::Stop(
                Some(
                    Observation {
                        flow: update.flow,
                        created: update.created,
                        syn_counter: counter_of(reply->Value_0),
                        warning: warning_due(counter_of(reply->Value_0)),
                    },
                ),
            ),
        ),
        Some(stage) => (
            StoreUpdate { stage, created, ..update },
            StepModel::Send(request_of(update.flow, update.datagram, stage)->0),
        ),
    }
}

/// Reads a SYN counter from a value that the store returned.
pub fn counter_from(value: i64) -> (counter: u32)
    ensures
        counter == counter_of(value),
{
    if value < 0 {
        0
    } else if value > u32::MAX as i64 {
        u32::MAX
    } else {
        value as u32
    }
}

/// The adapter for one store, known by where it listens.
#[derive(Clone, Copy, Debug, PartialEq, Eq, Structural)]
pub struct TcpDatabase {
    pub host: Ipv4Address,
    pub port: u16,
}

/// The text `redis://host:port` under which a store is reached.
pub open spec fn url_text(host: Ipv4Address, port: u16) -> Seq<char> {
    "redis://"@ + endpoint_text(Endpoint { ip: host, port })
}

impl TcpDatabase {
    /// The adapter for the store on this machine at its usual port, 6379.
    pub fn new() -> (database: TcpDatabase)
        ensures
            database == (TcpDatabase {
                host: Ipv4Address { first: 127, second: 0, third: 0, fourth: 1 },
                port: 6379,
            }),
    {
        TcpDatabase { host: Ipv4Address { first: 127, second: 0, third: 0, fourth: 1 }, port: 6379 }
    }

    /// The text `redis://host:port` under which the store is reached.
    pub fn url(&self) -> (url: String)
        ensures
            url@ == url_text(self.host, self.port),
    {
        let mut url = String::from_str("redis://");
        Endpoint { ip: self.host, port: self.port }.append_to(&mut url);
        url
    }

    /// Whether `datagram` belongs to the store's own traffic: the store's
    /// port is at one of its ends. Such a datagram is never to be tracked.
    pub fn carries_own_traffic(&self, datagram: &TcpDatagram) -> (own: bool)
        ensures
            own == datagram.involves_port(self.port),
    {
        datagram.src_port == self.port || datagram.dst_port == self.port
    }

    /// The request that overwrites the last sequence number seen from A to Z.
    pub fn add_a_z_seq_num(&self, flow: &String, seq_num: u32) -> (request: StoreRequest)
        ensures
            request@ == (RequestModel::SetField {
                key: flow@,
                field: Field::AToZLastSeq,
                value: seq_num,
            }),
    {
        StoreRequest::SetField { key: flow.clone(), field: Field::AToZLastSeq, value: seq_num }
    }

    /// The request that overwrites the last acknowledgment number seen from A to Z.
    pub fn add_a_z_ack_num(&self, flow: &String, ack_num: u32) -> (request: StoreRequest)
        ensures
            request@ == (RequestModel::SetField {
                key: flow@,
                field: Field::AToZLastAck,
                value: ack_num,
            }),
    {
        StoreRequest::SetField { key: flow.clone(), field: Field::AToZLastAck, value: ack_num }
    }

    /// The request that overwrites the last sequence number seen from Z to A.
    pub fn add_z_a_seq_num(&self, flow: &String, seq_num: u32) -> (request: StoreRequest)
        ensures
            request@ == (RequestModel::SetField {
                key: flow@,
                field: Field::ZToALastSeq,
                value: seq_num,
            }),
    {
        StoreRequest::SetField { key: flow.clone(), field: Field::ZToALastSeq, value: seq_num }
    }

    /// The request that overwrites the last acknowledgment number seen from Z to A.
    pub fn add_z_a_ack_num(&self, flow: &String, ack_num: u32) -> (request: StoreRequest)
        ensures
            request@ == (RequestModel::SetField {
                key: flow@,
                field: Field::ZToALastAck,
                value: ack_num,
            }),
    {
        StoreRequest::SetField { key: flow.clone(), field: Field::ZToALastAck, value: ack_num }
    }

    /// The request that raises the SYN counter from A to Z by one.
    pub fn increment_a_to_z_syn_counter(&self, flow: &String) -> (request: StoreRequest)
        ensures
            request@ == (RequestModel::IncrementField {
                key: flow@,
                field: Field::AToZSynCounter,
                by: 1,
            }),
    {
        StoreRequest::IncrementField { key: flow.clone(), field: Field::AToZSynCounter, by: 1 }
    }

    /// The request that raises the SYN counter from Z to A by one.
    pub fn increment_z_to_a_syn_counter(&self, flow: &String) -> (request: StoreRequest)
        ensures
            request@ == (RequestModel::IncrementField {
                key: flow@,
                field: Field::ZToASynCounter,
                by: 1,
            }),
    {
        StoreRequest::IncrementField { key: flow.clone(), field: Field::ZToASynCounter, by: 1 }
    }

    /// The request that reads the SYN counter from Z to A.
    pub fn get_z_to_a_syn_counter(&self, flow: &String) -> (request: StoreRequest)
        ensures
            request@ == (RequestModel::GetField { key: flow@, field: Field::ZToASynCounter }),
    {
        StoreRequest::GetField { key: flow.clone(), field: Field::ZToASynCounter }
    }

    /// The request that lists the keys of all states.
    pub fn get_redis_keys(&self) -> (request: StoreRequest)
        ensures
            request@ == RequestModel::ListKeys,
    {
        StoreRequest::ListKeys
    }

    /// The first request of adding a connection: is there a state under `flow`?
    pub fn add_tcp_connection(&self, flow: &String, a_ip: &String, z_ip: &String) -> (request:
        StoreRequest)
        ensures
            request@ == (RequestModel::Exists { key: flow@ }),
    {
        StoreRequest::Exists { key: flow.clone() }
    }

    /// What follows the store's answer to the first request of adding a
    /// connection. A state that exists is left alone: nothing is sent and
    /// nothing was added. A state that is missing is created. On any other
    /// reply nothing is sent and nothing was added.
    pub fn add_tcp_connection_reply(
        &self,
        flow: &String,
        a_ip: &String,
        z_ip: &String,
        reply: StoreReply,
    ) -> (create: Option<StoreRequest>)
        ensures
            create is Some <==> reply is Missing,
            create matches Some(request) ==> request@ == (RequestModel::Create {
                key: flow@,
                a_endpoint: a_ip@,
                z_endpoint: z_ip@,
            }),
    {
        match reply {
            StoreReply::Missing => Some(
                StoreRequest::Create {
                    key: flow.clone(),
                    a_endpoint: a_ip.clone(),
                    z_endpoint: z_ip.clone(),
                },
            ),
            _ => None,
        }
    }

    /// Whether adding a connection did add one: the state was missing and
    /// the store then created it.
    pub fn tcp_connection_added(&self, probe: StoreReply, creation: Option<StoreReply>) -> (added:
        bool)
        ensures
            added == (probe is Missing && creation == Some(StoreReply::Done)),
    {
        match (probe, creation) {
            (StoreReply::Missing, Some(StoreReply::Done)) => true,
            _ => false,
        }
    }

    fn request_for(flow: &Flow, datagram: &TcpDatagram, stage: Stage) -> (request: StoreRequest)
        requires
            stage != Stage::Finished,
        ensures
            Some(request@) == request_of(*flow, *datagram, stage),
    {
        let key = flow.key();
        match stage {
            Stage::Probing => StoreRequest::Exists { key },
            Stage::Creating => StoreRequest::Create {
                key,
                a_endpoint: flow.a_endpoint.to_text(),
                z_endpoint: flow.z_endpoint.to_text(),
            },
            Stage::AddingBytes => StoreRequest::IncrementField {
                key,
                field: Field::bytes(flow.direction),
                by: datagram.bytes,
            },
            Stage::SettingSeq => StoreRequest::SetField {
                key,
                field: Field::last_seq(flow.direction),
                value: datagram.seq_num,
            },
            Stage::SettingAck => StoreRequest::SetField {
                key,
                field: Field::last_ack(flow.direction),
                value: datagram.ack_num,
            },
            _ => StoreRequest::IncrementField {
                key,
                field: Field::syn_counter(flow.direction),
                by: 1,
            },
        }
    }

    /// Starts the update for `datagram`, which resolved to `flow`: the first
    /// request asks whether the flow has a state.
    pub fn begin(&self, flow: Flow, datagram: TcpDatagram) -> (r: (StoreUpdate, StoreRequest))
        ensures
            r.0 == (StoreUpdate { flow, datagram, stage: Stage::Probing, created: false }),
            Some(r.1@) == request_of(flow, datagram, Stage::Probing),
    {
        let update = StoreUpdate { flow, datagram, stage: Stage::Probing, created: false };
        (update, TcpDatabase::request_for(&flow, &datagram, Stage::Probing))
    }

    /// Takes the update one reply further. Once it has stopped, no further
    /// request is sent for its datagram; until then every step leaves fewer
    /// requests to send.
    pub fn advance(&self, update: StoreUpdate, reply: StoreReply) -> (r: (StoreUpdate, Step))
        ensures
            r.0 == advanced(update, reply).0,
            r.1@ == advanced(update, reply).1,
            r.1 is Stop <==> r.0.stage is Finished,
            update.stage is Finished || r.0.stage is Finished || requests_left(r.0.stage)
                < requests_left(update.stage),
    {
        let next = match (update.stage, reply) {
            (Stage::Probing, StoreReply::Found) => Some(Stage::AddingBytes),
            (Stage::Probing, StoreReply::Missing) => Some(Stage::Creating),
            (Stage::Creating, StoreReply::Done) => Some(Stage::AddingBytes),
            (Stage::AddingBytes, StoreReply::Value(_)) => Some(Stage::SettingSeq),
            (Stage::SettingSeq, StoreReply::Done) => Some(Stage::SettingAck),
            (Stage::SettingAck, StoreReply::Done) => Some(Stage::CountingSyn),
            (Stage::CountingSyn, StoreReply::Value(_)) => Some(Stage::Finished),
            _ => None,
        };
        let created = update.created || match (update.stage, reply) {
            (Stage::Probing, StoreReply::Missing) => true,
            _ => false,
        };
        match next {
            None => (
                StoreUpdate {
                    flow: update.flow,
                    datagram: update.datagram,
                    stage: Stage::Finished,
                    created,
                },
                Step::Stop(None),
            ),
            Some(Stage::Finished) => {
                let counter = match reply {
                    StoreReply::Value(value) => counter_from(value),
                    _ => 0,
                };
                (
                    StoreUpdate {
                        flow: update.flow,
                        datagram: update.datagram,
                        stage: Stage::Finished,
                        created,
                    },
                    Step::Stop(
                        Some(
                            Observation {
                                flow: update.flow,
                                created: update.created,
                                syn_counter: counter,
                                warning: syn_threshold_reached(counter),
                            },
                        ),
                    ),
                )
            },
            Some(stage) => (
                StoreUpdate { flow: update.flow, datagram: update.datagram, stage, created },
                Step::Send(TcpDatabase::request_for(&update.flow, &update.datagram, stage)),
            ),
        }
    }
}

} // verus!
