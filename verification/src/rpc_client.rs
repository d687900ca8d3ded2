use crate::json::{
    lemma_view_fields, lemma_view_items, parsed, rendered, view_fields, view_items, Json,
    JsonNumber, JsonView,
};
use crate::text::{joined, push_char, push_str};
use vstd::prelude::*;

verus! {

/// How many notifications the feed keeps where nothing else is
/// configured.
pub const DEFAULT_ZMQ_BUFFER_LIMIT: usize = 5000;

/// The least and the greatest number of notifications that the feed may be
/// configured to keep.
pub const MIN_ZMQ_BUFFER_LIMIT: usize = 50;

pub const MAX_ZMQ_BUFFER_LIMIT: usize = 100000;

/// A buffer limit brought into the accepted range.
pub open spec fn clamped_limit(limit: int) -> int {
    if limit < MIN_ZMQ_BUFFER_LIMIT {
        MIN_ZMQ_BUFFER_LIMIT as int
    } else if limit > MAX_ZMQ_BUFFER_LIMIT {
        MAX_ZMQ_BUFFER_LIMIT as int
    } else {
        limit
    }
}

/// A buffer limit brought into the accepted range.
pub fn clamp_buffer_limit(limit: usize) -> (r: usize)
    ensures
        r == clamped_limit(limit as int),
        MIN_ZMQ_BUFFER_LIMIT <= r <= MAX_ZMQ_BUFFER_LIMIT,
{
    if limit < MIN_ZMQ_BUFFER_LIMIT {
        MIN_ZMQ_BUFFER_LIMIT
    } else if limit > MAX_ZMQ_BUFFER_LIMIT {
        MAX_ZMQ_BUFFER_LIMIT
    } else {
        limit
    }
}

/// Where the node is and how to talk to it.
#[derive(Debug)]
pub struct RpcConfig {
    pub url: String,
    pub user: String,
    pub password: String,
    pub wallet: String,
    pub poll_interval_secs: u64,
    pub zmq_address: String,
    pub zmq_buffer_limit: usize,
}

impl RpcConfig {
    /// The buffer limit lies in the accepted range.
    pub open spec fn wf(&self) -> bool {
        MIN_ZMQ_BUFFER_LIMIT <= self.zmq_buffer_limit <= MAX_ZMQ_BUFFER_LIMIT
    }

    /// Whether two configurations hold the same values.
    pub open spec fn same(&self, other: &RpcConfig) -> bool {
        &&& self.url@ == other.url@
        &&& self.user@ == other.user@
        &&& self.password@ == other.password@
        &&& self.wallet@ == other.wallet@
        &&& self.poll_interval_secs == other.poll_interval_secs
        &&& self.zmq_address@ == other.zmq_address@
        &&& self.zmq_buffer_limit == other.zmq_buffer_limit
    }

    /// The configuration that is used where none is given: the local node,
    /// no credentials, no wallet, no feed.
    pub open spec fn is_default(&self) -> bool {
        &&& self.url@ == "http://127.0.0.1:8332"@
        &&& self.user@.len() == 0
        &&& self.password@.len() == 0
        &&& self.wallet@.len() == 0
        &&& self.poll_interval_secs == 5
        &&& self.zmq_address@.len() == 0
        &&& self.zmq_buffer_limit == DEFAULT_ZMQ_BUFFER_LIMIT
    }

    /// Stores a buffer limit, clamped into the accepted range.
    pub fn set_zmq_buffer_limit(&mut self, limit: usize)
        ensures
            final(self).zmq_buffer_limit == clamped_limit(limit as int),
            final(self).wf(),
            final(self).url == old(self).url,
            final(self).user == old(self).user,
            final(self).password == old(self).password,
            final(self).wallet == old(self).wallet,
            final(self).poll_interval_secs == old(self).poll_interval_secs,
            final(self).zmq_address == old(self).zmq_address,
    {
        self.zmq_buffer_limit = clamp_buffer_limit(limit);
    }

    pub fn duplicate(&self) -> (r: RpcConfig)
        ensures
            r.same(self),
    {
        RpcConfig {
            url: self.url.clone(),
            user: self.user.clone(),
            password: self.password.clone(),
            wallet: self.wallet.clone(),
            poll_interval_secs: self.poll_interval_secs,
            zmq_address: self.zmq_address.clone(),
            zmq_buffer_limit: self.zmq_buffer_limit,
        }
    }
}

impl Clone for RpcConfig {
    fn clone(&self) -> (r: RpcConfig)
        ensures
            r.same(self),
    {
        self.duplicate()
    }
}

impl Default for RpcConfig {
    fn default() -> (r: RpcConfig)
        ensures
            r.is_default(),
            r.wf(),
    {
        RpcConfig {
            url: "http://127.0.0.1:8332".to_owned(),
            user: String::new(),
            password: String::new(),
            wallet: String::new(),
            poll_interval_secs: 5,
            zmq_address: String::new(),
            zmq_buffer_limit: DEFAULT_ZMQ_BUFFER_LIMIT,
        }
    }
}

/// One call of a batch: the id that its response will carry, the method and
/// its parameters.
#[derive(Debug)]
pub struct RpcCall {
    pub id: Json,
    pub method: String,
    pub params: Json,
}

impl RpcCall {
    pub fn new(id: Json, method: &str, params: Json) -> (r: RpcCall)
        ensures
            r.id == id,
            r.method@ == method@,
            r.params == params,
    {
        RpcCall { id, method: method.to_owned(), params }
    }
}

/// A request ready to be posted: where to, with which `Authorization`
/// header, and the JSON body.
#[derive(Debug)]
pub struct HttpRequest {
    pub url: String,
    pub authorization: String,
    pub body: String,
}

/// The gateway to one node: it builds the requests for a configuration and
/// reads the node's answers.
#[derive(Debug)]
pub struct RpcClient {
    config: RpcConfig,
}

/// The address that requests go to: the base URL, or the wallet's path
/// under it where a wallet is named.
pub open spec fn endpoint_of(url: Seq<char>, wallet: Seq<char>) -> Seq<char> {
    if wallet.len() == 0 {
        url
    } else {
        url + "/wallet/"@ + wallet
    }
}

impl RpcClient {
    pub closed spec fn config(&self) -> RpcConfig {
        self.config
    }

    pub fn new(config: RpcConfig) -> (r: RpcClient)
        ensures
            r.config() == config,
    {
        RpcClient { config }
    }

    /// The address that requests go to.
    pub fn endpoint_url(&self) -> (r: String)
        ensures
            r@ == endpoint_of(self.config().url@, self.config().wallet@),
    {
        if self.config.wallet.as_str().is_empty() {
            return self.config.url.clone();
        }
        let mut out = joined(self.config.url.as_str(), "/wallet/");
        push_str(&mut out, self.config.wallet.as_str());
        out
    }
}

/// Why a call gave no result.
#[derive(Debug)]
pub enum RpcError {
    /// The call itself is malformed.
    InvalidRequest(String),
    /// The request did not reach the node, or its answer did not arrive.
    Transport(String),
    /// The answer is not what a node sends.
    InvalidResponse(String),
    /// The node answered with an error of its own.
    Rpc { code: Option<i64>, message: String, data: Option<Json> },
}

/// The value of an error.
pub enum RpcErrorView {
    InvalidRequest(Seq<char>),
    Transport(Seq<char>),
    InvalidResponse(Seq<char>),
    Rpc { code: Option<i64>, message: Seq<char>, data: Option<JsonView> },
}

impl View for RpcError {
    type V = RpcErrorView;

    open spec fn view(&self) -> RpcErrorView {
        match self {
            RpcError::InvalidRequest(m) => RpcErrorView::InvalidRequest(m@),
            RpcError::Transport(m) => RpcErrorView::Transport(m@),
            RpcError::InvalidResponse(m) => RpcErrorView::InvalidResponse(m@),
            RpcError::Rpc { code, message, data } => RpcErrorView::Rpc {
                code: *code,
                message: message@,
                data: match data {
                    Some(d) => Some(d@),
                    None => None,
                },
            },
        }
    }
}

impl RpcErrorView {
    /// The text shown for the error: its kind, then its message.
    pub open spec fn describe(self) -> Seq<char> {
        match self {
            RpcErrorView::InvalidRequest(m) => "invalid request: "@ + m,
            RpcErrorView::Transport(m) => "transport error: "@ + m,
            RpcErrorView::InvalidResponse(m) => "invalid response: "@ + m,
            RpcErrorView::Rpc { code, message, data } => "rpc error: "@ + message,
        }
    }
}

impl RpcError {
    /// The text shown for the error.
    pub fn describe(&self) -> (r: String)
        ensures
            r@ == self@.describe(),
    {
        match self {
            RpcError::InvalidRequest(m) => joined("invalid request: ", m.as_str()),
            RpcError::Transport(m) => joined("transport error: ", m.as_str()),
            RpcError::InvalidResponse(m) => joined("invalid response: ", m.as_str()),
            RpcError::Rpc { code, message, data } => joined("rpc error: ", message.as_str()),
        }
    }
}

/// The value of a result that holds a document or an error.
pub open spec fn outcome(r: Result<Json, RpcError>) -> Result<JsonView, RpcErrorView> {
    match r {
        Ok(v) => Ok(v@),
        Err(e) => Err(e@),
    }
}

/// The request envelope of one call.
pub open spec fn envelope(jsonrpc: JsonView, id: JsonView, method: Seq<char>, params: JsonView)
    -> JsonView {
    JsonView::Object(
        seq![
            ("jsonrpc"@, jsonrpc),
            ("id"@, id),
            ("method"@, JsonView::Str(method)),
            ("params"@, params),
        ],
    )
}

/// What `normalize_call` makes of a call: the envelope with the call's own
/// `params`, `id` and `jsonrpc` where it has them, and empty parameters, the
/// fallback id and version 2.0 where it has not.
pub open spec fn normalized(call: JsonView, fallback_id: u64) -> Result<JsonView, RpcErrorView> {
    match call.at("method"@).as_str() {
        None => Err(RpcErrorView::InvalidRequest("missing RPC method"@)),
        Some(method) => Ok(
            envelope(
                match call.get("jsonrpc"@) {
                    Some(v) => v,
                    None => JsonView::Str("2.0"@),
                },
                match call.get("id"@) {
                    Some(v) => v,
                    None => JsonView::Int(fallback_id as int),
                },
                method,
                match call.get("params"@) {
                    Some(v) => v,
                    None => JsonView::Array(Seq::empty()),
                },
            ),
        ),
    }
}

/// What a response object yields: the node's error where it reports one, the
/// `result` member otherwise.
pub open spec fn extracted(response: JsonView) -> Result<JsonView, RpcErrorView> {
    if response.get("error"@) is Some && !(response.at("error"@) is Null) {
        let error = response.at("error"@);
        Err(
            RpcErrorView::Rpc {
                code: error.at("code"@).as_i64(),
                message: match error.at("message"@).as_str() {
                    Some(m) => m,
                    None => "unknown rpc error"@,
                },
                data: error.get("data"@),
            },
        )
    } else {
        match response.get("result"@) {
            Some(v) => Ok(v),
            None => Err(RpcErrorView::InvalidResponse("missing result field"@)),
        }
    }
}

/// Builds the envelope of one call.
pub fn build_envelope(jsonrpc: Json, id: Json, method: &str, params: Json) -> (r: Json)
    ensures
        r@ == envelope(jsonrpc@, id@, method@, params@),
{
    let mut fields: Vec<(String, Json)> = Vec::new();
    fields.push(("jsonrpc".to_owned(), jsonrpc));
    fields.push(("id".to_owned(), id));
    fields.push(("method".to_owned(), Json::Str(method.to_owned())));
    fields.push(("params".to_owned(), params));
    proof {
        lemma_view_fields(fields@);
        assert(view_fields(fields@) =~= seq![
            ("jsonrpc"@, jsonrpc@),
            ("id"@, id@),
            ("method"@, JsonView::Str(method@)),
            ("params"@, params@),
        ]);
    }
    Json::Object(fields)
}

/// Completes a call object into a request envelope. A call without a string
/// `method` is rejected.
pub fn normalize_call(call: &Json, fallback_id: u64) -> (r: Result<Json, RpcError>)
    ensures
        outcome(r) == normalized(call@, fallback_id),
{
    let method = match call.get("method") {
        Some(m) => m.as_str(),
        None => None,
    };
    match method {
        None => Err(RpcError::InvalidRequest("missing RPC method".to_owned())),
        Some(method) => {
            let params = match call.get("params") {
                Some(v) => v.duplicate(),
                None => {
                    let empty: Vec<Json> = Vec::new();
                    assert(view_items(empty@) =~= Seq::<JsonView>::empty());
                    Json::Array(empty)
                },
            };
            let id = match call.get("id") {
                Some(v) => v.duplicate(),
                None => Json::Number(JsonNumber::PosInt(fallback_id)),
            };
            let jsonrpc = match call.get("jsonrpc") {
                Some(v) => v.duplicate(),
                None => Json::Str("2.0".to_owned()),
            };
            Ok(build_envelope(jsonrpc, id, method, params))
        },
    }
}

/// Unwraps one response object.
pub fn extract_result(response: &Json) -> (r: Result<Json, RpcError>)
    ensures
        outcome(r) == extracted(response@),
{
    match response.get("error") {
        Some(error) => {
            if !error.is_null() {
                let code = match error.get("code") {
                    Some(c) => c.as_i64(),
                    None => None,
                };
                let text = match error.get("message") {
                    Some(m) => m.as_str(),
                    None => None,
                };
                let message = match text {
                    Some(m) => m.to_owned(),
                    None => "unknown rpc error".to_owned(),
                };
                let data = match error.get("data") {
                    Some(d) => Some(d.duplicate()),
                    None => None,
                };
                return Err(RpcError::Rpc { code, message, data });
            }
        },
        None => {},
    }
    match response.get("result") {
        Some(v) => Ok(v.duplicate()),
        None => Err(RpcError::InvalidResponse("missing result field".to_owned())),
    }
}

/// The character that stands for a six-bit value in base64.
pub open spec fn base64_char(v: int) -> char {
    if v < 26 {
        ((65 + v) as u8) as char
    } else if v < 52 {
        ((97 + (v - 26)) as u8) as char
    } else if v < 62 {
        ((48 + (v - 52)) as u8) as char
    } else if v == 62 {
        '+'
    } else {
        '/'
    }
}

/// Standard base64 with padding: four characters for each group of up to
/// three bytes.
pub open spec fn base64(data: Seq<u8>) -> Seq<char>
    decreases data.len(),
{
    if data.len() == 0 {
        Seq::empty()
    } else if data.len() == 1 {
        seq![base64_char(data[0] as int / 4), base64_char((data[0] as int % 4) * 16), '=', '=']
    } else if data.len() == 2 {
        seq![
            base64_char(data[0] as int / 4),
            base64_char((data[0] as int % 4) * 16 + data[1] as int / 16),
            base64_char((data[1] as int % 16) * 4),
            '=',
        ]
    } else {
        seq![
            base64_char(data[0] as int / 4),
            base64_char((data[0] as int % 4) * 16 + data[1] as int / 16),
            base64_char((data[1] as int % 16) * 4 + data[2] as int / 64),
            base64_char(data[2] as int % 64),
        ] + base64(data.skip(3))
    }
}

/// The `Authorization` header for a user and a password.
pub open spec fn basic_auth_of(user: Seq<char>, password: Seq<char>) -> Seq<char> {
    "Basic "@ + base64(
        vstd::utf8::encode_utf8(user) + seq![58u8] + vstd::utf8::encode_utf8(password),
    )
}

fn sextet(v: u8) -> (c: char)
    requires
        v < 64,
    ensures
        c == base64_char(v as int),
{
    if v < 26 {
        (65 + v) as char
    } else if v < 52 {
        (97 + (v - 26)) as char
    } else if v < 62 {
        (48 + (v - 52)) as char
    } else if v == 62 {
        '+'
    } else {
        '/'
    }
}

/// Standard base64 with padding.
pub fn base64_encode(data: &[u8]) -> (r: String)
    ensures
        r@ == base64(data@),
{
    let mut out = String::new();
    let mut i: usize = 0;
    assert(data@.skip(0) =~= data@);
    while i < data.len()
        invariant
            i <= data.len(),
            base64(data@) == out@ + base64(data@.skip(i as int)),
        decreases data.len() - i,
    {
        let ghost rest = data@.skip(i as int);
        let ghost before = out@;
        let left: usize = data.len() - i;
        let b0: u8 = data[i];
        let b1: u8 = if left > 1 {
            data[i + 1]
        } else {
            0
        };
        let b2: u8 = if left > 2 {
            data[i + 2]
        } else {
            0
        };
        push_char(&mut out, sextet(b0 / 4));
        push_char(&mut out, sextet((b0 % 4) * 16 + b1 / 16));
        if left > 1 {
            push_char(&mut out, sextet((b1 % 16) * 4 + b2 / 64));
        } else {
            push_char(&mut out, '=');
        }
        if left > 2 {
            push_char(&mut out, sextet(b2 % 64));
        } else {
            push_char(&mut out, '=');
        }
        if left > 2 {
            proof {
                assert(rest.skip(3) =~= data@.skip(i + 3));
                assert(out@ =~= before + seq![
                    base64_char(b0 as int / 4),
                    base64_char((b0 as int % 4) * 16 + b1 as int / 16),
                    base64_char((b1 as int % 16) * 4 + b2 as int / 64),
                    base64_char(b2 as int % 64),
                ]);
                assert(out@ + base64(rest.skip(3)) =~= before + base64(rest));
            }
            i += 3;
        } else {
            proof {
                assert(data@.skip(data.len() as int) =~= Seq::<u8>::empty());
                assert(out@ =~= before + base64(rest));
                assert(out@ + base64(Seq::<u8>::empty()) =~= out@);
            }
            i = data.len();
        }
    }
    proof {
        assert(data@.skip(data.len() as int) =~= Seq::<u8>::empty());
        assert(out@ + Seq::<char>::empty() =~= out@);
    }
    out
}

/// The `Authorization` header for a user and a password.
pub fn basic_auth(user: &str, password: &str) -> (r: String)
    ensures
        r@ == basic_auth_of(user@, password@),
{
    let mut buffer: Vec<u8> = Vec::new();
    buffer.extend_from_slice(user.as_bytes());
    buffer.push(58u8);
    buffer.extend_from_slice(password.as_bytes());
    proof {
        assert(buffer@ =~= vstd::utf8::encode_utf8(user@) + seq![58u8] + vstd::utf8::encode_utf8(
            password@,
        ));
    }
    let encoded = base64_encode(buffer.as_slice());
    joined("Basic ", encoded.as_str())
}

/// The ids of a list of calls, in order.
pub open spec fn ids_of(calls: Seq<RpcCall>) -> Seq<JsonView> {
    Seq::new(calls.len(), |i: int| calls[i].id@)
}

/// The body of a batch: the envelopes of its calls, in order.
pub open spec fn batch_payload_of(calls: Seq<RpcCall>) -> JsonView {
    JsonView::Array(
        Seq::new(
            calls.len(),
            |i: int| envelope(JsonView::Str("2.0"@), calls[i].id@, calls[i].method@, calls[i].params@),
        ),
    )
}

/// The place of the first response that carries `id`.
pub open spec fn position_of(responses: Seq<JsonView>, id: JsonView) -> Option<int>
    decreases responses.len(),
{
    if responses.len() == 0 {
        None
    } else {
        match position_of(responses.drop_last(), id) {
            Some(j) => Some(j),
            None => if responses.last().at("id"@) == id {
                Some(responses.len() - 1)
            } else {
                None
            },
        }
    }
}

/// The results of a batch, one for each id and in the order of the ids:
/// each is what the response with that id yields. The first id, in order,
/// whose response is missing or reports an error decides the failure.
pub open spec fn correlated(ids: Seq<JsonView>, responses: Seq<JsonView>) -> Result<
    Seq<JsonView>,
    RpcErrorView,
>
    decreases ids.len(),
{
    if ids.len() == 0 {
        Ok(Seq::empty())
    } else {
        match correlated(ids.drop_last(), responses) {
            Err(e) => Err(e),
            Ok(results) => match position_of(responses, ids.last()) {
                None => Err(RpcErrorView::InvalidResponse("missing response for a call id"@)),
                Some(j) => match extracted(responses[j]) {
                    Ok(v) => Ok(results.push(v)),
                    Err(e) => Err(e),
                },
            },
        }
    }
}

/// What a batch of calls with these ids gets from the node's answer. An
/// empty batch gets no results, whatever the answer; otherwise the answer
/// must be an array with one response for each call.
pub open spec fn batch_outcome(ids: Seq<JsonView>, response: JsonView) -> Result<
    Seq<JsonView>,
    RpcErrorView,
> {
    if ids.len() == 0 {
        Ok(Seq::empty())
    } else {
        match response {
            JsonView::Array(responses) => if responses.len() != ids.len() {
                Err(RpcErrorView::InvalidResponse("expected one response for each call"@))
            } else {
                correlated(ids, responses)
            },
            _ => Err(RpcErrorView::InvalidResponse("expected batch array response"@)),
        }
    }
}

/// The value of a result that holds a list of documents or an error.
pub open spec fn outcomes(r: Result<Vec<Json>, RpcError>) -> Result<Seq<JsonView>, RpcErrorView> {
    match r {
        Ok(v) => Ok(view_items(v@)),
        Err(e) => Err(e@),
    }
}

/// A position that `position_of` gives lies in the list and holds the id.
pub proof fn lemma_position_of(responses: Seq<JsonView>, id: JsonView)
    ensures
        match position_of(responses, id) {
            Some(j) => 0 <= j < responses.len() && responses[j].at("id"@) == id && forall|k: int|
                0 <= k < j ==> responses[k].at("id"@) != id,
            None => forall|k: int| 0 <= k < responses.len() ==> responses[k].at("id"@) != id,
        },
    decreases responses.len(),
{
    if responses.len() > 0 {
        let front = responses.drop_last();
        lemma_position_of(front, id);
        assert(forall|k: int| 0 <= k < front.len() ==> front[k] == responses[k]);
    }
}

/// Results that were matched to ids are one for each id, in the order of
/// the ids, and each is the one that the first response with the id yields.
/// Different ids are matched to different responses.
pub proof fn lemma_correlated(ids: Seq<JsonView>, responses: Seq<JsonView>)
    requires
        correlated(ids, responses) is Ok,
    ensures
        correlated(ids, responses)->Ok_0.len() == ids.len(),
        forall|i: int|
            0 <= i < ids.len() ==> {
                let j = #[trigger] position_of(responses, ids[i]);
                &&& j is Some
                &&& 0 <= j->0 < responses.len()
                &&& responses[j->0].at("id"@) == ids[i]
                &&& extracted(responses[j->0]) == Ok::<JsonView, RpcErrorView>(
                    correlated(ids, responses)->Ok_0[i],
                )
            },
        forall|a: int, b: int|
            0 <= a < ids.len() && 0 <= b < ids.len() && ids[a] != ids[b] ==> position_of(
                responses,
                ids[a],
            ) != position_of(responses, ids[b]),
    decreases ids.len(),
{
    if ids.len() > 0 {
        let front = ids.drop_last();
        lemma_correlated(front, responses);
        lemma_position_of(responses, ids.last());
        assert forall|i: int| 0 <= i < ids.len() implies {
            let j = #[trigger] position_of(responses, ids[i]);
            &&& j is Some
            &&& 0 <= j->0 < responses.len()
            &&& responses[j->0].at("id"@) == ids[i]
            &&& extracted(responses[j->0]) == Ok::<JsonView, RpcErrorView>(
                correlated(ids, responses)->Ok_0[i],
            )
        } by {
            if i < ids.len() - 1 {
                assert(front[i] == ids[i]);
            }
        }
        assert forall|a: int, b: int|
            0 <= a < ids.len() && 0 <= b < ids.len() && ids[a] != ids[b] implies position_of(
            responses,
            ids[a],
        ) != position_of(responses, ids[b]) by {
            lemma_position_of(responses, ids[a]);
            lemma_position_of(responses, ids[b]);
        }
    }
}

/// A batch of any length, the empty one too, that succeeds returns one
/// result for each call, in the order of the calls. Each result is the one
/// that the response with the call's id yields, wherever in the answer that
/// response stands, and calls with different ids are answered by different
/// responses.
pub proof fn lemma_batch_correlation(ids: Seq<JsonView>, response: JsonView)
    requires
        batch_outcome(ids, response) is Ok,
    ensures
        batch_outcome(ids, response)->Ok_0.len() == ids.len(),
        ids.len() > 0 ==> response is Array && response->Array_0.len() == ids.len(),
        forall|i: int|
            0 <= i < ids.len() ==> {
                let j = #[trigger] position_of(response->Array_0, ids[i]);
                &&& j is Some
                &&& 0 <= j->0 < response->Array_0.len()
                &&& response->Array_0[j->0].at("id"@) == ids[i]
                &&& extracted(response->Array_0[j->0]) == Ok::<JsonView, RpcErrorView>(
                    batch_outcome(ids, response)->Ok_0[i],
                )
            },
        forall|a: int, b: int|
            0 <= a < ids.len() && 0 <= b < ids.len() && ids[a] != ids[b] ==> position_of(
                response->Array_0,
                ids[a],
            ) != position_of(response->Array_0, ids[b]),
{
    if ids.len() > 0 {
        lemma_correlated(ids, response->Array_0);
    }
}

/// Builds the body of a batch.
pub fn batch_payload(calls: &Vec<RpcCall>) -> (r: Json)
    ensures
        r@ == batch_payload_of(calls@),
{
    let mut items: Vec<Json> = Vec::new();
    let mut i: usize = 0;
    while i < calls.len()
        invariant
            i <= calls.len(),
            items.len() == i,
            forall|j: int|
                0 <= j < i ==> items[j]@ == envelope(
                    JsonView::Str("2.0"@),
                    calls[j].id@,
                    calls[j].method@,
                    calls[j].params@,
                ),
        decreases calls.len() - i,
    {
        let call = &calls[i];
        items.push(
            build_envelope(
                Json::Str("2.0".to_owned()),
                call.id.duplicate(),
                call.method.as_str(),
                call.params.duplicate(),
            ),
        );
        i += 1;
    }
    proof {
        lemma_view_items(items@);
        assert(view_items(items@) =~= batch_payload_of(calls@)->Array_0);
    }
    Json::Array(items)
}

/// Reads the node's answer as JSON.
pub fn parse_response(text: &str) -> (r: Result<Json, RpcError>)
    ensures
        match r {
            Ok(doc) => parsed(text@) == Some(doc@),
            Err(e) => e is InvalidResponse && parsed(text@) is None,
        },
{
    match Json::parse(text) {
        Ok(doc) => Ok(doc),
        Err(reason) => Err(
            RpcError::InvalidResponse(joined("invalid json response: ", reason.as_str())),
        ),
    }
}

/// Finds the first response that carries `id`.
fn find_response<'a>(responses: &'a Vec<Json>, id: &Json) -> (r: Option<&'a Json>)
    ensures
        match r {
            Some(found) => position_of(view_items(responses@), id@) matches Some(j)
                && view_items(responses@)[j] == found@,
            None => position_of(view_items(responses@), id@) is None,
        },
{
    let ghost all = view_items(responses@);
    proof {
        lemma_view_items(responses@);
        assert(all.take(0) =~= Seq::<JsonView>::empty());
    }
    let mut i: usize = 0;
    while i < responses.len()
        invariant
            i <= responses.len(),
            all == view_items(responses@),
            all.len() == responses.len(),
            forall|j: int| 0 <= j < responses.len() ==> #[trigger] all[j] == responses[j]@,
            position_of(all.take(i as int), id@) is None,
        decreases responses.len() - i,
    {
        let carried = responses[i].get("id");
        let hit = match carried {
            Some(v) => v.same(id),
            None => id.is_null(),
        };
        proof {
            let next = all.take(i + 1);
            assert(next.drop_last() =~= all.take(i as int));
            assert(next.last() == responses[i as int]@);
        }
        if hit {
            proof {
                lemma_position_stable(all, id@, i + 1);
            }
            return Some(&responses[i]);
        }
        i += 1;
    }
    proof {
        assert(all.take(responses.len() as int) =~= all);
    }
    None
}

/// A position found in a prefix of the responses is the position in all of
/// them.
pub proof fn lemma_position_stable(responses: Seq<JsonView>, id: JsonView, n: int)
    requires
        0 <= n <= responses.len(),
        position_of(responses.take(n), id) is Some,
    ensures
        position_of(responses, id) == position_of(responses.take(n), id),
    decreases responses.len() - n,
{
    if n < responses.len() {
        let next = responses.take(n + 1);
        assert(next.drop_last() =~= responses.take(n));
        lemma_position_stable(responses, id, n + 1);
    } else {
        assert(responses.take(n) =~= responses);
    }
}

/// Matches the node's answer to the calls of a batch by id and unwraps
/// each response.
pub fn batch_results(calls: &Vec<RpcCall>, response: &Json) -> (r: Result<Vec<Json>, RpcError>)
    ensures
        outcomes(r) == batch_outcome(ids_of(calls@), response@),
{
    let mut results: Vec<Json> = Vec::new();
    let ghost ids = ids_of(calls@);
    if calls.len() == 0 {
        proof {
            lemma_view_items(results@);
            assert(view_items(results@) =~= Seq::<JsonView>::empty());
        }
        return Ok(results);
    }
    let responses = match response.as_array() {
        Some(responses) => responses,
        None => {
            return Err(RpcError::InvalidResponse("expected batch array response".to_owned()));
        },
    };
    proof {
        lemma_view_items(responses@);
    }
    if responses.len() != calls.len() {
        return Err(RpcError::InvalidResponse("expected one response for each call".to_owned()));
    }
    let ghost all = view_items(responses@);
    proof {
        lemma_view_items(results@);
        assert(ids.take(0) =~= Seq::<JsonView>::empty());
        assert(view_items(results@) =~= Seq::<JsonView>::empty());
    }
    let mut i: usize = 0;
    while i < calls.len()
        invariant
            i <= calls.len(),
            ids == ids_of(calls@),
            all == view_items(responses@),
            response@ == JsonView::Array(all),
            all.len() == calls.len(),
            calls.len() > 0,
            correlated(ids.take(i as int), all) == Ok::<Seq<JsonView>, RpcErrorView>(
                view_items(results@),
            ),
        decreases calls.len() - i,
    {
        proof {
            let next = ids.take(i + 1);
            assert(next.drop_last() =~= ids.take(i as int));
            assert(next.last() == calls[i as int].id@);
        }
        let ghost before = view_items(results@);
        let ghost prev = results@;
        match find_response(responses, &calls[i].id) {
            None => {
                proof {
                    assert(correlated(ids.take(i + 1), all) is Err);
                    lemma_correlated_failure(ids, all, i + 1);
                }
                return Err(
                    RpcError::InvalidResponse("missing response for a call id".to_owned()),
                );
            },
            Some(found) => match extract_result(found) {
                Ok(value) => {
                    results.push(value);
                    proof {
                        lemma_view_items(results@);
                        lemma_view_items(prev);
                        assert(view_items(results@) =~= before.push(value@));
                    }
                },
                Err(e) => {
                    proof {
                        assert(correlated(ids.take(i + 1), all) is Err);
                        lemma_correlated_failure(ids, all, i + 1);
                    }
                    return Err(e);
                },
            },
        }
        i += 1;
    }
    proof {
        assert(ids.take(calls.len() as int) =~= ids);
    }
    Ok(results)
}

/// A failure among the first `n` ids is the failure of the whole batch.
pub proof fn lemma_correlated_failure(ids: Seq<JsonView>, responses: Seq<JsonView>, n: int)
    requires
        0 <= n <= ids.len(),
        correlated(ids.take(n), responses) is Err,
    ensures
        correlated(ids, responses) == correlated(ids.take(n), responses),
    decreases ids.len() - n,
{
    if n < ids.len() {
        let next = ids.take(n + 1);
        assert(next.drop_last() =~= ids.take(n));
        lemma_correlated_failure(ids, responses, n + 1);
    } else {
        assert(ids.take(n) =~= ids);
    }
}

impl RpcClient {
    /// The request for a single call: its envelope carries id 1.
    pub fn call_request(&self, method: &str, params: Json) -> (r: HttpRequest)
        ensures
            r.url@ == endpoint_of(self.config().url@, self.config().wallet@),
            r.authorization@ == basic_auth_of(self.config().user@, self.config().password@),
            r.body@ == rendered(
                envelope(JsonView::Str("2.0"@), JsonView::Int(1), method@, params@),
            ),
    {
        let payload = build_envelope(
            Json::Str("2.0".to_owned()),
            Json::Number(JsonNumber::PosInt(1)),
            method,
            params,
        );
        self.post_request(&payload)
    }

    /// The request that posts `payload` to the node.
    pub fn post_request(&self, payload: &Json) -> (r: HttpRequest)
        ensures
            r.url@ == endpoint_of(self.config().url@, self.config().wallet@),
            r.authorization@ == basic_auth_of(self.config().user@, self.config().password@),
            r.body@ == rendered(payload@),
    {
        HttpRequest {
            url: self.endpoint_url(),
            authorization: basic_auth(self.config.user.as_str(), self.config.password.as_str()),
            body: payload.render(),
        }
    }

    /// The request for a batch; none for an empty batch, which needs no
    /// network call.
    pub fn batch_request(&self, calls: &Vec<RpcCall>) -> (r: Option<HttpRequest>)
        ensures
            r is None <==> calls.len() == 0,
            r matches Some(request) ==> {
                &&& request.url@ == endpoint_of(self.config().url@, self.config().wallet@)
                &&& request.authorization@ == basic_auth_of(
                    self.config().user@,
                    self.config().password@,
                )
                &&& request.body@ == rendered(batch_payload_of(calls@))
            },
    {
        if calls.len() == 0 {
            return None;
        }
        let payload = batch_payload(calls);
        Some(self.post_request(&payload))
    }
}

/// What the text of the node's answer to a single call yields.
pub fn call_response(text: &str) -> (r: Result<Json, RpcError>)
    ensures
        match parsed(text@) {
            Some(doc) => outcome(r) == extracted(doc),
            None => r matches Err(e) && e is InvalidResponse,
        },
{
    let doc = parse_response(text)?;
    extract_result(&doc)
}

/// What the text of the node's answer to a batch yields for its calls.
pub fn batch_response(calls: &Vec<RpcCall>, text: &str) -> (r: Result<Vec<Json>, RpcError>)
    ensures
        match parsed(text@) {
            Some(doc) => outcomes(r) == batch_outcome(ids_of(calls@), doc),
            None => r matches Err(e) && e is InvalidResponse,
        },
{
    let doc = parse_response(text)?;
    batch_results(calls, &doc)
}

} // verus!
