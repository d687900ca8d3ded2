use crate::json::{
    lemma_view_items, parsed, rendered, view_items, Json, JsonNumber, JsonView,
};
use crate::rpc_client::{
    basic_auth_of, batch_outcome, batch_payload, batch_payload_of, batch_response, endpoint_of, ids_of,
    HttpRequest, RpcCall, RpcClient, RpcError, RpcErrorView,
};
use crate::text::{decimal_of, joined, push_char, push_str, str_eq, u64_to_string};
use std::collections::BTreeMap;
use vstd::prelude::*;
use vstd::string::*;

verus! {

/// The state of the chain.
#[derive(Debug)]
pub struct ChainSummary {
    pub chain: String,
    pub blocks: u64,
    pub headers: u64,
    /// The node's estimate of how far verification has come, as the number
    /// it sent.
    pub verification_progress: JsonNumber,
}

/// The state of the mempool.
#[derive(Clone, Copy, Debug, PartialEq, Eq)]
pub struct MempoolSummary {
    pub transactions: u64,
    pub bytes: u64,
    pub usage: u64,
    pub maxmempool: u64,
}

/// The node as the network sees it.
#[derive(Debug)]
pub struct NetworkSummary {
    pub version: i64,
    pub subversion: String,
    pub protocol_version: i64,
    pub connections: i64,
}

/// The bytes that went over the network.
#[derive(Clone, Copy, Debug, PartialEq, Eq)]
pub struct TrafficSummary {
    pub total_bytes_recv: u64,
    pub total_bytes_sent: u64,
}

/// One connected peer.
#[derive(Debug)]
pub struct PeerSummary {
    pub id: i64,
    pub addr: String,
    pub subver: String,
    pub network: String,
    pub services: String,
    pub transport_version: u8,
    pub inbound: bool,
    pub connection_type: String,
    pub min_ping: Option<JsonNumber>,
    pub ping_time: Option<JsonNumber>,
    pub last_send: i64,
    pub last_recv: i64,
    pub last_transaction: i64,
    pub last_block: i64,
    pub conn_time: i64,
    pub is_tx_relay: bool,
    pub is_bip152_hb_to: bool,
    pub is_bip152_hb_from: bool,
    pub addr_processed: i64,
    pub addr_rate_limited: i64,
    pub is_addr_relay_enabled: bool,
    pub version: i64,
}

/// The state of the node at one moment: every part of it was fetched in the
/// same batch.
#[derive(Debug)]
pub struct DashboardSnapshot {
    pub chain: ChainSummary,
    pub mempool: MempoolSummary,
    pub network: NetworkSummary,
    pub traffic: TrafficSummary,
    pub peers: Vec<PeerSummary>,
    pub peer_details: BTreeMap<i64, Json>,
    pub uptime_secs: u64,
}

/// A fresh part of a snapshot, to replace the part that a snapshot holds.
#[derive(Debug)]
pub enum DashboardPartialUpdate {
    Mempool(MempoolSummary),
    ChainAndMempool { chain: ChainSummary, mempool: MempoolSummary },
}

/// The message for a member that is missing or of another type than the
/// one named by `label`.
pub open spec fn missing(label: Seq<char>, key: Seq<char>) -> Seq<char> {
    "missing "@ + label + " field: "@ + key
}

/// A string member, or `default` where the member is missing or no string.
pub open spec fn str_or(v: JsonView, key: Seq<char>, default: Seq<char>) -> Seq<char> {
    match v.at(key).as_str() {
        Some(s) => s,
        None => default,
    }
}

/// An integer member, or `default` where the member is missing or no such
/// integer.
pub open spec fn i64_or(v: JsonView, key: Seq<char>, default: i64) -> i64 {
    match v.at(key).as_i64() {
        Some(n) => n,
        None => default,
    }
}

/// A boolean member, or `default` where the member is missing or no
/// boolean.
pub open spec fn bool_or(v: JsonView, key: Seq<char>, default: bool) -> bool {
    match v.at(key).as_bool() {
        Some(b) => b,
        None => default,
    }
}

/// A number member as it was sent, if the member is a number.
pub open spec fn number_at(v: JsonView, key: Seq<char>) -> Option<JsonView> {
    if v.at(key).is_number() {
        Some(v.at(key))
    } else {
        None
    }
}

/// The value of a number that may be missing.
pub open spec fn number_view(n: Option<JsonNumber>) -> Option<JsonView> {
    match n {
        Some(n) => Some(n@),
        None => None,
    }
}

/// An ASCII capital as its small letter; any other character unchanged.
pub open spec fn lower_of(c: char) -> char {
    if 'A' <= c && c <= 'Z' {
        ((c as u8 + 32) as u8) as char
    } else {
        c
    }
}

/// The one-character code of a service name.
pub open spec fn code_of(name: Seq<char>) -> char {
    if name == "NETWORK_LIMITED"@ {
        'l'
    } else if name == "P2P_V2"@ {
        '2'
    } else if name.len() == 0 {
        '?'
    } else {
        lower_of(name[0])
    }
}

/// The codes of the strings among `names`, in order.
pub open spec fn codes_of(names: Seq<JsonView>) -> Seq<char>
    decreases names.len(),
{
    if names.len() == 0 {
        Seq::empty()
    } else {
        match names.last() {
            JsonView::Str(name) => codes_of(names.drop_last()).push(code_of(name)),
            _ => codes_of(names.drop_last()),
        }
    }
}

/// The service codes of a peer: those of its `servicesnames` where that is
/// an array, none otherwise.
pub open spec fn services_of(peer: JsonView) -> Seq<char> {
    match peer.get("servicesnames"@) {
        Some(JsonView::Array(names)) => codes_of(names),
        _ => Seq::empty(),
    }
}

/// The id under which a peer entry is listed; an entry without one is
/// passed over.
pub open spec fn peer_id(peer: JsonView) -> Option<i64> {
    peer.at("id"@).as_i64()
}

/// The entries of a peer list that carry an id, in order.
pub open spec fn listed_peers(entries: Seq<JsonView>) -> Seq<JsonView>
    decreases entries.len(),
{
    if entries.len() == 0 {
        Seq::empty()
    } else if peer_id(entries.last()) is Some {
        listed_peers(entries.drop_last()).push(entries.last())
    } else {
        listed_peers(entries.drop_last())
    }
}

/// The raw entry kept for each peer id: the last one listed under it.
pub open spec fn details_of(entries: Seq<JsonView>) -> Map<i64, JsonView>
    decreases entries.len(),
{
    if entries.len() == 0 {
        Map::empty()
    } else {
        match peer_id(entries.last()) {
            Some(id) => details_of(entries.drop_last()).insert(id, entries.last()),
            None => details_of(entries.drop_last()),
        }
    }
}

/// A map of documents holds exactly the values of `expected`.
pub open spec fn details_match(details: Map<i64, Json>, expected: Map<i64, JsonView>) -> bool {
    &&& forall|id: i64| details.contains_key(id) <==> expected.contains_key(id)
    &&& forall|id: i64| details.contains_key(id) ==> details[id]@ == expected[id]
}

impl ChainSummary {
    /// The summary holds what the `getblockchaininfo` result `v` says.
    pub open spec fn describes(&self, v: JsonView) -> bool {
        &&& v is Object
        &&& v.at("chain"@).as_str() == Some(self.chain@)
        &&& v.at("blocks"@).as_u64() == Some(self.blocks)
        &&& v.at("headers"@).as_u64() == Some(self.headers)
        &&& number_at(v, "verificationprogress"@) == Some(self.verification_progress@)
    }

    /// What is wrong with a result, if no summary can be made of it: it is
    /// no object, or the first member, in the order chain, blocks, headers
    /// and verification progress, that is missing or of another type.
    pub open spec fn fault(v: JsonView) -> Option<Seq<char>> {
        if !(v is Object) {
            Some("getblockchaininfo result must be object"@)
        } else if v.at("chain"@).as_str() is None {
            Some(missing("string"@, "chain"@))
        } else if v.at("blocks"@).as_u64() is None {
            Some(missing("u64"@, "blocks"@))
        } else if v.at("headers"@).as_u64() is None {
            Some(missing("u64"@, "headers"@))
        } else if !v.at("verificationprogress"@).is_number() {
            Some(missing("f64"@, "verificationprogress"@))
        } else {
            None
        }
    }

    /// A result from which a summary can be made.
    pub open spec fn parsable(v: JsonView) -> bool {
        Self::fault(v) is None
    }
}

impl MempoolSummary {
    /// The summary holds what the `getmempoolinfo` result `v` says.
    pub open spec fn describes(&self, v: JsonView) -> bool {
        &&& v is Object
        &&& v.at("size"@).as_u64() == Some(self.transactions)
        &&& v.at("bytes"@).as_u64() == Some(self.bytes)
        &&& v.at("usage"@).as_u64() == Some(self.usage)
        &&& v.at("maxmempool"@).as_u64() == Some(self.maxmempool)
    }

    /// What is wrong with a result, if no summary can be made of it: it is
    /// no object, or the first member, in the order size, bytes, usage and
    /// maxmempool, that is missing or of another type.
    pub open spec fn fault(v: JsonView) -> Option<Seq<char>> {
        if !(v is Object) {
            Some("getmempoolinfo result must be object"@)
        } else if v.at("size"@).as_u64() is None {
            Some(missing("u64"@, "size"@))
        } else if v.at("bytes"@).as_u64() is None {
            Some(missing("u64"@, "bytes"@))
        } else if v.at("usage"@).as_u64() is None {
            Some(missing("u64"@, "usage"@))
        } else if v.at("maxmempool"@).as_u64() is None {
            Some(missing("u64"@, "maxmempool"@))
        } else {
            None
        }
    }

    pub open spec fn parsable(v: JsonView) -> bool {
        Self::fault(v) is None
    }
}

impl NetworkSummary {
    /// The summary holds what the `getnetworkinfo` result `v` says.
    pub open spec fn describes(&self, v: JsonView) -> bool {
        &&& v is Object
        &&& v.at("version"@).as_i64() == Some(self.version)
        &&& v.at("subversion"@).as_str() == Some(self.subversion@)
        &&& v.at("protocolversion"@).as_i64() == Some(self.protocol_version)
        &&& v.at("connections"@).as_i64() == Some(self.connections)
    }

    /// What is wrong with a result, if no summary can be made of it: it is
    /// no object, or the first member, in the order version, subversion,
    /// protocol version and connections, that is missing or of another type.
    pub open spec fn fault(v: JsonView) -> Option<Seq<char>> {
        if !(v is Object) {
            Some("getnetworkinfo result must be object"@)
        } else {
            Self::member_fault(v)
        }
    }

    /// The first member of an object that is missing or of another type.
    pub open spec fn member_fault(v: JsonView) -> Option<Seq<char>> {
        if v.at("version"@).as_i64() is None {
            Some(missing("i64"@, "version"@))
        } else if v.at("subversion"@).as_str() is None {
            Some(missing("string"@, "subversion"@))
        } else if v.at("protocolversion"@).as_i64() is None {
            Some(missing("i64"@, "protocolversion"@))
        } else if v.at("connections"@).as_i64() is None {
            Some(missing("i64"@, "connections"@))
        } else {
            None
        }
    }

    pub open spec fn parsable(v: JsonView) -> bool {
        Self::fault(v) is None
    }
}

impl TrafficSummary {
    /// The summary holds what the `getnettotals` result `v` says.
    pub open spec fn describes(&self, v: JsonView) -> bool {
        &&& v is Object
        &&& v.at("totalbytesrecv"@).as_u64() == Some(self.total_bytes_recv)
        &&& v.at("totalbytessent"@).as_u64() == Some(self.total_bytes_sent)
    }

    /// What is wrong with a result, if no summary can be made of it: it is
    /// no object, or the first of the two totals that is missing or of
    /// another type.
    pub open spec fn fault(v: JsonView) -> Option<Seq<char>> {
        if !(v is Object) {
            Some("getnettotals result must be object"@)
        } else {
            Self::member_fault(v)
        }
    }

    /// The first member of an object that is missing or of another type.
    pub open spec fn member_fault(v: JsonView) -> Option<Seq<char>> {
        if v.at("totalbytesrecv"@).as_u64() is None {
            Some(missing("u64"@, "totalbytesrecv"@))
        } else if v.at("totalbytessent"@).as_u64() is None {
            Some(missing("u64"@, "totalbytessent"@))
        } else {
            None
        }
    }

    pub open spec fn parsable(v: JsonView) -> bool {
        Self::fault(v) is None
    }
}

impl PeerSummary {
    /// The summary holds what the peer entry `v` says, with the stated
    /// default for each member that is missing or of another type.
    pub open spec fn describes(&self, v: JsonView) -> bool {
        &&& peer_id(v) == Some(self.id)
        &&& self.addr@ == str_or(v, "addr"@, "?"@)
        &&& self.subver@ == str_or(v, "subver"@, ""@)
        &&& self.network@ == str_or(v, "network"@, ""@)
        &&& self.services@ == services_of(v)
        &&& self.transport_version as int == match v.at("transport_protocol_type"@).as_u64() {
            Some(n) => n as int % 256,
            None => 1,
        }
        &&& self.inbound == bool_or(v, "inbound"@, false)
        &&& self.connection_type@ == str_or(v, "connection_type"@, "unknown"@)
        &&& number_view(self.min_ping) == number_at(v, "minping"@)
        &&& number_view(self.ping_time) == number_at(v, "pingtime"@)
        &&& self.last_send == i64_or(v, "lastsend"@, 0)
        &&& self.last_recv == i64_or(v, "lastrecv"@, 0)
        &&& self.last_transaction == i64_or(v, "last_transaction"@, 0)
        &&& self.last_block == i64_or(v, "last_block"@, 0)
        &&& self.conn_time == i64_or(v, "conntime"@, 0)
        &&& self.is_tx_relay == bool_or(v, "relaytxes"@, false)
        &&& self.is_bip152_hb_to == bool_or(v, "bip152_hb_to"@, false)
        &&& self.is_bip152_hb_from == bool_or(v, "bip152_hb_from"@, false)
        &&& self.addr_processed == i64_or(v, "addr_processed"@, 0)
        &&& self.addr_rate_limited == i64_or(v, "addr_rate_limited"@, 0)
        &&& self.is_addr_relay_enabled == bool_or(v, "addr_relay_enabled"@, false)
        &&& self.version == i64_or(v, "version"@, 0)
    }
}

impl DashboardSnapshot {
    /// The snapshot holds what the six results of the dashboard batch say:
    /// chain, network, mempool, peers, uptime and traffic, in this order.
    pub open spec fn describes(&self, responses: Seq<JsonView>) -> bool {
        &&& responses.len() == 6
        &&& self.chain.describes(responses[0])
        &&& self.network.describes(responses[1])
        &&& self.mempool.describes(responses[2])
        &&& responses[3] is Array
        &&& self.peers.len() == listed_peers(responses[3]->Array_0).len()
        &&& forall|k: int|
            0 <= k < self.peers.len() ==> (#[trigger] self.peers[k]).describes(
                listed_peers(responses[3]->Array_0)[k],
            )
        &&& details_match(self.peer_details@, details_of(responses[3]->Array_0))
        &&& responses[4].as_u64() == Some(self.uptime_secs)
        &&& self.traffic.describes(responses[5])
    }

    /// What is wrong with the results, if no snapshot can be made of them:
    /// first their number, then the kind of the network, peer, uptime and
    /// traffic results, then the members of chain, mempool, network and
    /// traffic, in this order.
    pub open spec fn fault(responses: Seq<JsonView>) -> Option<Seq<char>> {
        if responses.len() != 6 {
            Some("expected 6 dashboard responses, got "@ + decimal_of(responses.len() as int))
        } else if !(responses[1] is Object) {
            Some("getnetworkinfo result must be object"@)
        } else if !(responses[3] is Array) {
            Some("getpeerinfo result must be array"@)
        } else if responses[4].as_u64() is None {
            Some("uptime result must be u64"@)
        } else if !(responses[5] is Object) {
            Some("getnettotals result must be object"@)
        } else if ChainSummary::fault(responses[0]) is Some {
            ChainSummary::fault(responses[0])
        } else if MempoolSummary::fault(responses[2]) is Some {
            MempoolSummary::fault(responses[2])
        } else if NetworkSummary::member_fault(responses[1]) is Some {
            NetworkSummary::member_fault(responses[1])
        } else {
            TrafficSummary::member_fault(responses[5])
        }
    }

    /// Results from which a snapshot can be made: all six are there and
    /// every member that a summary needs has its type.
    pub open spec fn parsable(responses: Seq<JsonView>) -> bool {
        Self::fault(responses) is None
    }
}

fn missing_field(label: &str, key: &str) -> (e: RpcError)
    ensures
        e@ == RpcErrorView::InvalidResponse(missing(label@, key@)),
{
    let mut message = joined("missing ", label);
    push_str(&mut message, " field: ");
    push_str(&mut message, key);
    RpcError::InvalidResponse(message)
}

fn invalid_response(message: &str) -> (e: RpcError)
    ensures
        e@ == RpcErrorView::InvalidResponse(message@),
{
    RpcError::InvalidResponse(message.to_owned())
}

fn member<'a>(obj: &'a Json, key: &str) -> (r: Option<&'a Json>)
    ensures
        match r {
            Some(v) => obj@.get(key@) == Some(v@) && obj@.at(key@) == v@,
            None => obj@.get(key@) is None && obj@.at(key@) is Null,
        },
{
    obj.get(key)
}

fn u64_field(obj: &Json, key: &str) -> (r: Result<u64, RpcError>)
    ensures
        match r {
            Ok(n) => obj@.at(key@).as_u64() == Some(n),
            Err(e) => e@ == RpcErrorView::InvalidResponse(missing("u64"@, key@)) && obj@.at(
                key@,
            ).as_u64() is None,
        },
{
    let found = match member(obj, key) {
        Some(v) => v.as_u64(),
        None => None,
    };
    match found {
        Some(n) => Ok(n),
        None => Err(missing_field("u64", key)),
    }
}

fn i64_field(obj: &Json, key: &str) -> (r: Result<i64, RpcError>)
    ensures
        match r {
            Ok(n) => obj@.at(key@).as_i64() == Some(n),
            Err(e) => e@ == RpcErrorView::InvalidResponse(missing("i64"@, key@)) && obj@.at(
                key@,
            ).as_i64() is None,
        },
{
    let found = match member(obj, key) {
        Some(v) => v.as_i64(),
        None => None,
    };
    match found {
        Some(n) => Ok(n),
        None => Err(missing_field("i64", key)),
    }
}

fn string_field(obj: &Json, key: &str) -> (r: Result<String, RpcError>)
    ensures
        match r {
            Ok(s) => obj@.at(key@).as_str() == Some(s@),
            Err(e) => e@ == RpcErrorView::InvalidResponse(missing("string"@, key@)) && obj@.at(
                key@,
            ).as_str() is None,
        },
{
    let found = match member(obj, key) {
        Some(v) => v.as_str(),
        None => None,
    };
    match found {
        Some(s) => Ok(s.to_owned()),
        None => Err(missing_field("string", key)),
    }
}

fn number_field(obj: &Json, key: &str) -> (r: Option<JsonNumber>)
    ensures
        number_view(r) == number_at(obj@, key@),
{
    let found = match member(obj, key) {
        Some(v) => v.as_number(),
        None => None,
    };
    match found {
        Some(n) => Some(n.duplicate()),
        None => None,
    }
}

fn str_field_or(obj: &Json, key: &str, default: &str) -> (r: String)
    ensures
        r@ == str_or(obj@, key@, default@),
{
    let found = match member(obj, key) {
        Some(v) => v.as_str(),
        None => None,
    };
    match found {
        Some(s) => s.to_owned(),
        None => default.to_owned(),
    }
}

fn i64_field_or(obj: &Json, key: &str, default: i64) -> (r: i64)
    ensures
        r == i64_or(obj@, key@, default),
{
    let found = match member(obj, key) {
        Some(v) => v.as_i64(),
        None => None,
    };
    match found {
        Some(n) => n,
        None => default,
    }
}

fn bool_field_or(obj: &Json, key: &str, default: bool) -> (r: bool)
    ensures
        r == bool_or(obj@, key@, default),
{
    let found = match member(obj, key) {
        Some(v) => v.as_bool(),
        None => None,
    };
    match found {
        Some(b) => b,
        None => default,
    }
}

/// An ASCII capital as its small letter.
pub fn to_ascii_lower(c: char) -> (r: char)
    ensures
        r == lower_of(c),
{
    if 'A' <= c && c <= 'Z' {
        ((c as u8) + 32) as char
    } else {
        c
    }
}

/// The one-character code of a service name: `l` for `NETWORK_LIMITED`,
/// `2` for `P2P_V2`, else the first character as a small letter.
pub fn service_code(name: &str) -> (c: char)
    ensures
        c == code_of(name@),
{
    if str_eq(name, "NETWORK_LIMITED") {
        'l'
    } else if str_eq(name, "P2P_V2") {
        '2'
    } else if name.is_empty() {
        '?'
    } else {
        to_ascii_lower(name.get_char(0))
    }
}

/// The service codes of a peer entry.
pub fn format_services(peer: &Json) -> (r: String)
    ensures
        r@ == services_of(peer@),
{
    let names = match member(peer, "servicesnames") {
        Some(v) => v.as_array(),
        None => None,
    };
    let mut out = String::new();
    match names {
        Some(names) => {
            let mut i: usize = 0;
            proof {
                lemma_view_items(names@);
                assert(view_items(names@).take(0) =~= Seq::<JsonView>::empty());
            }
            while i < names.len()
                invariant
                    i <= names.len(),
                    view_items(names@).len() == names.len(),
                    forall|j: int|
                        0 <= j < names.len() ==> #[trigger] view_items(names@)[j] == names[j]@,
                    out@ == codes_of(view_items(names@).take(i as int)),
                decreases names.len() - i,
            {
                proof {
                    let next = view_items(names@).take(i + 1);
                    assert(next.drop_last() =~= view_items(names@).take(i as int));
                    assert(next.last() == names[i as int]@);
                }
                match names[i].as_str() {
                    Some(name) => {
                        push_char(&mut out, service_code(name));
                    },
                    None => {},
                }
                i += 1;
            }
            proof {
                assert(view_items(names@).take(names.len() as int) =~= view_items(names@));
            }
            out
        },
        None => out,
    }
}

/// Reads a `getblockchaininfo` result. Every member of the summary must be
/// there with its type.
pub fn parse_chain(value: &Json) -> (r: Result<ChainSummary, RpcError>)
    ensures
        match r {
            Ok(chain) => chain.describes(value@),
            Err(e) => ChainSummary::fault(value@) matches Some(fault) && e@
                == RpcErrorView::InvalidResponse(fault),
        },
{
    if !value.is_object() {
        return Err(invalid_response("getblockchaininfo result must be object"));
    }
    let chain = string_field(value, "chain")?;
    let blocks = u64_field(value, "blocks")?;
    let headers = u64_field(value, "headers")?;
    match number_field(value, "verificationprogress") {
        Some(verification_progress) => Ok(
            ChainSummary { chain, blocks, headers, verification_progress },
        ),
        None => Err(missing_field("f64", "verificationprogress")),
    }
}

/// Reads a `getmempoolinfo` result. Every member of the summary must be
/// there with its type.
pub fn parse_mempool(value: &Json) -> (r: Result<MempoolSummary, RpcError>)
    ensures
        match r {
            Ok(mempool) => mempool.describes(value@),
            Err(e) => MempoolSummary::fault(value@) matches Some(fault) && e@
                == RpcErrorView::InvalidResponse(fault),
        },
{
    if !value.is_object() {
        return Err(invalid_response("getmempoolinfo result must be object"));
    }
    let transactions = u64_field(value, "size")?;
    let bytes = u64_field(value, "bytes")?;
    let usage = u64_field(value, "usage")?;
    let maxmempool = u64_field(value, "maxmempool")?;
    Ok(MempoolSummary { transactions, bytes, usage, maxmempool })
}

/// Reads a `getnetworkinfo` result.
pub fn parse_network(value: &Json) -> (r: Result<NetworkSummary, RpcError>)
    ensures
        match r {
            Ok(network) => network.describes(value@),
            Err(e) => NetworkSummary::fault(value@) matches Some(fault) && e@
                == RpcErrorView::InvalidResponse(fault),
        },
{
    if !value.is_object() {
        return Err(invalid_response("getnetworkinfo result must be object"));
    }
    let version = i64_field(value, "version")?;
    let subversion = string_field(value, "subversion")?;
    let protocol_version = i64_field(value, "protocolversion")?;
    let connections = i64_field(value, "connections")?;
    Ok(NetworkSummary { version, subversion, protocol_version, connections })
}

/// Reads a `getnettotals` result.
pub fn parse_traffic(value: &Json) -> (r: Result<TrafficSummary, RpcError>)
    ensures
        match r {
            Ok(traffic) => traffic.describes(value@),
            Err(e) => TrafficSummary::fault(value@) matches Some(fault) && e@
                == RpcErrorView::InvalidResponse(fault),
        },
{
    if !value.is_object() {
        return Err(invalid_response("getnettotals result must be object"));
    }
    let total_bytes_recv = u64_field(value, "totalbytesrecv")?;
    let total_bytes_sent = u64_field(value, "totalbytessent")?;
    Ok(TrafficSummary { total_bytes_recv, total_bytes_sent })
}

/// Reads one entry of a peer list. An entry without an integer `id` gives
/// nothing; every other member has a default.
pub fn parse_peer(peer: &Json) -> (r: Option<PeerSummary>)
    ensures
        match r {
            Some(summary) => summary.describes(peer@),
            None => peer_id(peer@) is None,
        },
{
    let id = match i64_field(peer, "id") {
        Ok(id) => id,
        Err(_) => {
            return None;
        },
    };
    let transport = match member(peer, "transport_protocol_type") {
        Some(v) => v.as_u64(),
        None => None,
    };
    let transport_version: u8 = match transport {
        Some(n) => (n % 256) as u8,
        None => 1,
    };
    Some(
        PeerSummary {
            id,
            addr: str_field_or(peer, "addr", "?"),
            subver: str_field_or(peer, "subver", ""),
            network: str_field_or(peer, "network", ""),
            services: format_services(peer),
            transport_version,
            inbound: bool_field_or(peer, "inbound", false),
            connection_type: str_field_or(peer, "connection_type", "unknown"),
            min_ping: number_field(peer, "minping"),
            ping_time: number_field(peer, "pingtime"),
            last_send: i64_field_or(peer, "lastsend", 0),
            last_recv: i64_field_or(peer, "lastrecv", 0),
            last_transaction: i64_field_or(peer, "last_transaction", 0),
            last_block: i64_field_or(peer, "last_block", 0),
            conn_time: i64_field_or(peer, "conntime", 0),
            is_tx_relay: bool_field_or(peer, "relaytxes", false),
            is_bip152_hb_to: bool_field_or(peer, "bip152_hb_to", false),
            is_bip152_hb_from: bool_field_or(peer, "bip152_hb_from", false),
            addr_processed: i64_field_or(peer, "addr_processed", 0),
            addr_rate_limited: i64_field_or(peer, "addr_rate_limited", 0),
            is_addr_relay_enabled: bool_field_or(peer, "addr_relay_enabled", false),
            version: i64_field_or(peer, "version", 0),
        },
    )
}

/// Turns the six results of the dashboard batch into a snapshot, all or
/// nothing: where any result lacks a member that a summary needs, there is
/// no snapshot. A peer entry without an id is passed over.
pub fn build_snapshot(responses: &Vec<Json>) -> (r: Result<DashboardSnapshot, RpcError>)
    ensures
        match r {
            Ok(snapshot) => snapshot.describes(view_items(responses@)),
            Err(e) => DashboardSnapshot::fault(view_items(responses@)) matches Some(fault) && e@
                == RpcErrorView::InvalidResponse(fault),
        },
{
    proof {
        lemma_view_items(responses@);
    }
    if responses.len() != 6 {
        let found = u64_to_string(responses.len() as u64);
        return Err(
            invalid_response(joined("expected 6 dashboard responses, got ", found.as_str()).as_str()),
        );
    }
    if !responses[1].is_object() {
        return Err(invalid_response("getnetworkinfo result must be object"));
    }
    let entries = match responses[3].as_array() {
        Some(entries) => entries,
        None => {
            return Err(invalid_response("getpeerinfo result must be array"));
        },
    };
    let uptime_secs = match responses[4].as_u64() {
        Some(n) => n,
        None => {
            return Err(invalid_response("uptime result must be u64"));
        },
    };
    if !responses[5].is_object() {
        return Err(invalid_response("getnettotals result must be object"));
    }
    let chain = parse_chain(&responses[0])?;
    let mempool = parse_mempool(&responses[2])?;
    let network = parse_network(&responses[1])?;
    let traffic = parse_traffic(&responses[5])?;

    let mut peers: Vec<PeerSummary> = Vec::new();
    let mut peer_details: BTreeMap<i64, Json> = BTreeMap::new();
    let ghost listed = view_items(entries@);
    proof {
        lemma_view_items(entries@);
        assert(listed.take(0) =~= Seq::<JsonView>::empty());
    }
    let mut i: usize = 0;
    while i < entries.len()
        invariant
            i <= entries.len(),
            listed == view_items(entries@),
            listed.len() == entries.len(),
            forall|j: int| 0 <= j < entries.len() ==> #[trigger] listed[j] == entries[j]@,
            peers.len() == listed_peers(listed.take(i as int)).len(),
            forall|k: int|
                0 <= k < peers.len() ==> (#[trigger] peers[k]).describes(
                    listed_peers(listed.take(i as int))[k],
                ),
            details_match(peer_details@, details_of(listed.take(i as int))),
        decreases entries.len() - i,
    {
        proof {
            let next = listed.take(i + 1);
            assert(next.drop_last() =~= listed.take(i as int));
            assert(next.last() == entries[i as int]@);
        }
        match parse_peer(&entries[i]) {
            Some(summary) => {
                let id = summary.id;
                peers.push(summary);
                peer_details.insert(id, entries[i].duplicate());
            },
            None => {},
        }
        i += 1;
    }
    proof {
        assert(listed.take(entries.len() as int) =~= listed);
    }
    Ok(DashboardSnapshot { chain, mempool, network, traffic, peers, peer_details, uptime_secs })
}

/// A snapshot after a partial update: the update's parts replace the
/// snapshot's, and everything else stays.
pub open spec fn applied(snapshot: DashboardSnapshot, update: DashboardPartialUpdate)
    -> DashboardSnapshot {
    match update {
        DashboardPartialUpdate::Mempool(mempool) => DashboardSnapshot { mempool, ..snapshot },
        DashboardPartialUpdate::ChainAndMempool { chain, mempool } => DashboardSnapshot {
            chain,
            mempool,
            ..snapshot
        },
    }
}

/// Applies a partial update to a snapshot in place.
pub fn apply_partial(snapshot: &mut DashboardSnapshot, update: DashboardPartialUpdate)
    ensures
        *final(snapshot) == applied(*old(snapshot), update),
{
    match update {
        DashboardPartialUpdate::Mempool(mempool) => {
            snapshot.mempool = mempool;
        },
        DashboardPartialUpdate::ChainAndMempool { chain, mempool } => {
            snapshot.chain = chain;
            snapshot.mempool = mempool;
        },
    }
}

/// Whether a peer with this id is listed.
pub open spec fn has_peer(peers: Seq<PeerSummary>, id: i64) -> bool {
    exists|i: int| 0 <= i < peers.len() && peers[i].id == id
}

/// Whether a peer with this id is listed.
pub fn lists_peer(peers: &Vec<PeerSummary>, id: i64) -> (r: bool)
    ensures
        r == has_peer(peers@, id),
{
    let mut i: usize = 0;
    while i < peers.len()
        invariant
            i <= peers.len(),
            forall|j: int| 0 <= j < i ==> peers[j].id != id,
        decreases peers.len() - i,
    {
        if peers[i].id == id {
            return true;
        }
        i += 1;
    }
    false
}

/// Fetches snapshots and partial updates through a gateway: it says what to
/// post and reads what came back.
#[derive(Debug)]
pub struct DashboardService {
    rpc_client: RpcClient,
}

/// A call without parameters under a small id.
fn plain_call(id: u64, method: &str) -> (r: RpcCall)
    ensures
        r.id@ == JsonView::Int(id as int),
        r.method@ == method@,
        r.params@ == JsonView::Array(Seq::empty()),
{
    let none: Vec<Json> = Vec::new();
    proof {
        assert(view_items(none@) =~= Seq::<JsonView>::empty());
    }
    RpcCall::new(Json::Number(JsonNumber::PosInt(id)), method, Json::Array(none))
}

/// Whether a list of calls asks for these methods, in order, without
/// parameters and under the ids 1, 2 and so on.
pub open spec fn asks_for(calls: Seq<RpcCall>, methods: Seq<Seq<char>>) -> bool {
    &&& calls.len() == methods.len()
    &&& forall|i: int|
        0 <= i < calls.len() ==> {
            &&& (#[trigger] calls[i]).id@ == JsonView::Int(i + 1)
            &&& calls[i].method@ == methods[i]
            &&& calls[i].params@ == JsonView::Array(Seq::empty())
        }
}

/// The body of a batch that calls these methods, in order, without
/// parameters and under the ids 1, 2 and so on.
pub open spec fn plain_batch(methods: Seq<Seq<char>>) -> JsonView {
    JsonView::Array(
        Seq::new(
            methods.len(),
            |i: int|
                crate::rpc_client::envelope(
                    JsonView::Str("2.0"@),
                    JsonView::Int(i + 1),
                    methods[i],
                    JsonView::Array(Seq::empty()),
                ),
        ),
    )
}

/// The methods of the dashboard batch.
pub open spec fn snapshot_methods() -> Seq<Seq<char>> {
    seq![
        "getblockchaininfo"@,
        "getnetworkinfo"@,
        "getmempoolinfo"@,
        "getpeerinfo"@,
        "uptime"@,
        "getnettotals"@,
    ]
}

/// The method of a mempool update.
pub open spec fn mempool_methods() -> Seq<Seq<char>> {
    seq!["getmempoolinfo"@]
}

/// The methods of a chain and mempool update.
pub open spec fn chain_and_mempool_methods() -> Seq<Seq<char>> {
    seq!["getblockchaininfo"@, "getmempoolinfo"@]
}

/// The ids 1 to `n`.
pub open spec fn ids_up_to(n: int) -> Seq<JsonView> {
    Seq::new(n as nat, |i: int| JsonView::Int(i + 1))
}

/// The six calls of the dashboard batch: chain, network, mempool, peers,
/// uptime and traffic.
pub fn snapshot_calls() -> (r: Vec<RpcCall>)
    ensures
        asks_for(r@, snapshot_methods()),
        ids_of(r@) == ids_up_to(6),
{
    let mut calls: Vec<RpcCall> = Vec::new();
    calls.push(plain_call(1, "getblockchaininfo"));
    calls.push(plain_call(2, "getnetworkinfo"));
    calls.push(plain_call(3, "getmempoolinfo"));
    calls.push(plain_call(4, "getpeerinfo"));
    calls.push(plain_call(5, "uptime"));
    calls.push(plain_call(6, "getnettotals"));
    proof {
        assert(ids_of(calls@) =~= ids_up_to(6));
    }
    calls
}

/// The call of a mempool update.
pub fn mempool_calls() -> (r: Vec<RpcCall>)
    ensures
        asks_for(r@, mempool_methods()),
        ids_of(r@) == ids_up_to(1),
{
    let mut calls: Vec<RpcCall> = Vec::new();
    calls.push(plain_call(1, "getmempoolinfo"));
    proof {
        assert(ids_of(calls@) =~= ids_up_to(1));
    }
    calls
}

/// The calls of a chain and mempool update.
pub fn chain_and_mempool_calls() -> (r: Vec<RpcCall>)
    ensures
        asks_for(r@, chain_and_mempool_methods()),
        ids_of(r@) == ids_up_to(2),
{
    let mut calls: Vec<RpcCall> = Vec::new();
    calls.push(plain_call(1, "getblockchaininfo"));
    calls.push(plain_call(2, "getmempoolinfo"));
    proof {
        assert(ids_of(calls@) =~= ids_up_to(2));
    }
    calls
}

impl DashboardPartialUpdate {
    /// The update holds what the results of its batch say.
    pub open spec fn describes(&self, results: Seq<JsonView>) -> bool {
        match self {
            DashboardPartialUpdate::Mempool(mempool) => results.len() == 1 && mempool.describes(
                results[0],
            ),
            DashboardPartialUpdate::ChainAndMempool { chain, mempool } => results.len() == 2
                && chain.describes(results[0]) && mempool.describes(results[1]),
        }
    }
}

/// What the answer to a batch under the ids 1 to `n` yields, if the text is
/// JSON at all.
pub open spec fn answer(n: int, text: Seq<char>) -> Option<Result<Seq<JsonView>, RpcErrorView>> {
    match parsed(text) {
        Some(doc) => Some(batch_outcome(ids_up_to(n), doc)),
        None => None,
    }
}

/// Reads the answer to a mempool update.
pub fn read_mempool_update(text: &str) -> (r: Result<DashboardPartialUpdate, RpcError>)
    ensures
        match answer(1, text@) {
            None => r matches Err(e) && e is InvalidResponse,
            Some(Err(failure)) => r matches Err(e) && e@ == failure,
            Some(Ok(results)) => match r {
                Ok(update) => update is Mempool && update.describes(results),
                Err(e) => MempoolSummary::fault(results[0]) matches Some(fault) && e@
                    == RpcErrorView::InvalidResponse(fault),
            },
        },
{
    let calls = mempool_calls();
    let responses = batch_response(&calls, text)?;
    proof {
        lemma_view_items(responses@);
        crate::rpc_client::lemma_batch_correlation(ids_up_to(1), parsed(text@)->0);
    }
    let mempool = parse_mempool(&responses[0])?;
    Ok(DashboardPartialUpdate::Mempool(mempool))
}

/// Reads the answer to a chain and mempool update.
pub fn read_chain_and_mempool_update(text: &str) -> (r: Result<DashboardPartialUpdate, RpcError>)
    ensures
        match answer(2, text@) {
            None => r matches Err(e) && e is InvalidResponse,
            Some(Err(failure)) => r matches Err(e) && e@ == failure,
            Some(Ok(results)) => match r {
                Ok(update) => update is ChainAndMempool && update.describes(results),
                Err(e) => (if ChainSummary::fault(results[0]) is Some {
                    ChainSummary::fault(results[0])
                } else {
                    MempoolSummary::fault(results[1])
                }) matches Some(fault) && e@ == RpcErrorView::InvalidResponse(fault),
            },
        },
{
    let calls = chain_and_mempool_calls();
    let responses = batch_response(&calls, text)?;
    proof {
        lemma_view_items(responses@);
        crate::rpc_client::lemma_batch_correlation(ids_up_to(2), parsed(text@)->0);
    }
    let chain = parse_chain(&responses[0])?;
    let mempool = parse_mempool(&responses[1])?;
    Ok(DashboardPartialUpdate::ChainAndMempool { chain, mempool })
}

/// Reads the answer to the dashboard batch into a snapshot, all or nothing.
pub fn read_snapshot(text: &str) -> (r: Result<DashboardSnapshot, RpcError>)
    ensures
        match answer(6, text@) {
            None => r matches Err(e) && e is InvalidResponse,
            Some(Err(failure)) => r matches Err(e) && e@ == failure,
            Some(Ok(results)) => match r {
                Ok(snapshot) => snapshot.describes(results),
                Err(e) => DashboardSnapshot::fault(results) matches Some(fault) && e@
                    == RpcErrorView::InvalidResponse(fault),
            },
        },
{
    let calls = snapshot_calls();
    let responses = batch_response(&calls, text)?;
    build_snapshot(&responses)
}

impl DashboardService {
    pub closed spec fn client(&self) -> RpcClient {
        self.rpc_client
    }

    pub fn new(rpc_client: RpcClient) -> (r: DashboardService)
        ensures
            r.client() == rpc_client,
    {
        DashboardService { rpc_client }
    }

    /// Whether a request posts calls of these methods as one batch to the
    /// service's node.
    pub open spec fn posts(&self, request: HttpRequest, methods: Seq<Seq<char>>) -> bool {
        &&& request.url@ == endpoint_of(self.client().config().url@, self.client().config().wallet@)
        &&& request.authorization@ == basic_auth_of(
            self.client().config().user@,
            self.client().config().password@,
        )
        &&& request.body@ == rendered(plain_batch(methods))
    }

    fn request_for(&self, calls: &Vec<RpcCall>, Ghost(methods): Ghost<Seq<Seq<char>>>) -> (r:
        HttpRequest)
        requires
            asks_for(calls@, methods),
        ensures
            self.posts(r, methods),
    {
        proof {
            assert(batch_payload_of(calls@)->Array_0 =~= plain_batch(methods)->Array_0);
        }
        self.rpc_client.post_request(&batch_payload(calls))
    }

    /// The request that fetches a snapshot.
    pub fn snapshot_request(&self) -> (r: HttpRequest)
        ensures
            self.posts(r, snapshot_methods()),
    {
        let calls = snapshot_calls();
        self.request_for(&calls, Ghost(snapshot_methods()))
    }

    /// The request that fetches a mempool update.
    pub fn mempool_request(&self) -> (r: HttpRequest)
        ensures
            self.posts(r, mempool_methods()),
    {
        let calls = mempool_calls();
        self.request_for(&calls, Ghost(mempool_methods()))
    }

    /// The request that fetches a chain and mempool update.
    pub fn chain_and_mempool_request(&self) -> (r: HttpRequest)
        ensures
            self.posts(r, chain_and_mempool_methods()),
    {
        let calls = chain_and_mempool_calls();
        self.request_for(&calls, Ghost(chain_and_mempool_methods()))
    }
}

} // verus!
