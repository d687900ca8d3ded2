use crate::host::{copy_range, find_byte, hex_at, index_of};
use crate::json::{
    lemma_view_fields, lemma_view_items, parsed, rendered, view_fields, view_items, Json,
    JsonNumber, JsonView,
};
use crate::config::{update_config, url_blocked, updated, update_text, ConfigUpdateResult, FeedAction};
use crate::rpc_client::{
    basic_auth_of, build_envelope, clamped_limit, endpoint_of, envelope, HttpRequest, RpcClient,
    RpcConfig,
};
use crate::text::{lossy_text, parse_u64, parsed_u64, str_eq, utf8_lossy};
use crate::zmq::{clamp_wait_ms, is_raw_tx, trimmed, ZmqMessage, ZmqPage, ZmqState, MAX_WAIT_MS};
use vstd::prelude::*;
use vstd::string::*;
use vstd::utf8::encode_utf8;

verus! {

/// The byte that an escape `%xy` stands for: two hexadecimal digits, or a
/// plus sign and one digit.
pub open spec fn escape_value(s: Seq<u8>, i: int) -> Option<u8> {
    match hex_at(s, i + 2) {
        None => None,
        Some(low) => match hex_at(s, i + 1) {
            Some(high) => Some((high * 16 + low) as u8),
            None => if 0 <= i + 1 < s.len() && s[i + 1] == 43 {
                Some(low as u8)
            } else {
                None
            },
        },
    }
}

/// The bytes that a percent-encoded text stands for, from place `i` on: an
/// escape with both of its digits becomes its byte, a plus sign becomes a
/// space, and every other byte stands for itself.
pub open spec fn decoded_from(s: Seq<u8>, i: int) -> Seq<u8>
    decreases s.len() - i,
{
    if i < 0 || i >= s.len() {
        Seq::empty()
    } else if s[i] == 37 && i + 2 < s.len() && escape_value(s, i) is Some {
        seq![escape_value(s, i)->0] + decoded_from(s, i + 3)
    } else if s[i] == 43 {
        seq![32u8] + decoded_from(s, i + 1)
    } else {
        seq![s[i]] + decoded_from(s, i + 1)
    }
}

/// The text that a percent-encoded text stands for.
pub open spec fn percent_decoded(s: Seq<u8>) -> Seq<char> {
    lossy_text(decoded_from(s, 0))
}

fn hex_digit_at(s: &[u8], i: usize) -> (r: Option<u8>)
    ensures
        match r {
            Some(v) => hex_at(s@, i as int) == Some(v as int) && v < 16,
            None => hex_at(s@, i as int) is None,
        },
{
    if i >= s.len() {
        return None;
    }
    let b: u8 = s[i];
    if 48 <= b && b <= 57 {
        Some(b - 48)
    } else if 97 <= b && b <= 102 {
        Some(b - 87)
    } else if 65 <= b && b <= 70 {
        Some(b - 55)
    } else {
        None
    }
}

fn escape_at(s: &[u8], i: usize) -> (r: Option<u8>)
    requires
        i + 2 < s@.len(),
    ensures
        r == escape_value(s@, i as int),
{
    let n: usize = s.len();
    let low: u8 = match hex_digit_at(s, i + 2) {
        Some(v) => v,
        None => {
            return None;
        },
    };
    match hex_digit_at(s, i + 1) {
        Some(high) => Some(high * 16 + low),
        None => if s[i + 1] == 43 {
            Some(low)
        } else {
            None
        },
    }
}

/// The bytes that a percent-encoded text stands for.
pub fn percent_decode_bytes(s: &[u8]) -> (r: Vec<u8>)
    ensures
        r@ == decoded_from(s@, 0),
{
    let mut out: Vec<u8> = Vec::new();
    let n: usize = s.len();
    let mut i: usize = 0;
    while i < n
        invariant
            n == s@.len(),
            i <= n,
            decoded_from(s@, 0) == out@ + decoded_from(s@, i as int),
        decreases n - i,
    {
        let ghost before = out@;
        if s[i] == 37 && n - i > 2 {
            match escape_at(s, i) {
                Some(byte) => {
                    out.push(byte);
                    proof {
                        assert(out@ + decoded_from(s@, i + 3) =~= before + decoded_from(
                            s@,
                            i as int,
                        ));
                    }
                    i += 3;
                    continue ;
                },
                None => {},
            }
        }
        out.push(
            if s[i] == 43 {
                32
            } else {
                s[i]
            },
        );
        proof {
            assert(out@ + decoded_from(s@, i + 1) =~= before + decoded_from(s@, i as int));
        }
        i += 1;
    }
    proof {
        assert(out@ + Seq::<u8>::empty() =~= out@);
    }
    out
}

/// The text that a percent-encoded text stands for.
pub fn percent_decode(input: &str) -> (r: String)
    ensures
        r@ == percent_decoded(input.spec_bytes()),
{
    let bytes = percent_decode_bytes(input.as_bytes());
    utf8_lossy(bytes.as_slice())
}

/// The value that a query gives a key, still encoded: the query is a run of
/// pairs with `&` between them, a pair is a key, `=` and a value, and the
/// first pair with the key decides. A pair without `=` has an empty value.
pub open spec fn param_of(query: Seq<u8>, key: Seq<u8>) -> Option<Seq<u8>>
    decreases query.len(),
{
    let pair = query.take(index_of(query, 38));
    let name = pair.take(index_of(pair, 61));
    if name == key {
        if index_of(pair, 61) < pair.len() {
            Some(pair.skip(index_of(pair, 61) + 1))
        } else {
            Some(Seq::empty())
        }
    } else if 0 <= index_of(query, 38) < query.len() {
        param_of(query.skip(index_of(query, 38) + 1), key)
    } else {
        None
    }
}

/// The number that a query gives a key: the value of the first pair with
/// the key, decoded and read as a decimal.
pub open spec fn param_number(query: Seq<u8>, key: Seq<u8>) -> Option<u64> {
    match param_of(query, key) {
        Some(value) => parsed_u64(encode_utf8(percent_decoded(value))),
        None => None,
    }
}

fn same_bytes(a: &[u8], b: &[u8]) -> (r: bool)
    ensures
        r == (a@ == b@),
{
    if a.len() != b.len() {
        return false;
    }
    let mut i: usize = 0;
    while i < a.len()
        invariant
            i <= a@.len(),
            a@.len() == b@.len(),
            forall|j: int| 0 <= j < i ==> a@[j] == b@[j],
        decreases a@.len() - i,
    {
        if a[i] != b[i] {
            return false;
        }
        i += 1;
    }
    proof {
        assert(a@ =~= b@);
    }
    true
}

fn find_param(query: &[u8], key: &[u8]) -> (r: Option<Vec<u8>>)
    ensures
        match r {
            Some(value) => param_of(query@, key@) == Some(value@),
            None => param_of(query@, key@) is None,
        },
    decreases query@.len(),
{
    let n: usize = query.len();
    let end = find_byte(query, 38);
    let pair = copy_range(query, 0, end);
    let split = find_byte(pair.as_slice(), 61);
    let name = copy_range(pair.as_slice(), 0, split);
    if same_bytes(name.as_slice(), key) {
        let from: usize = if split < pair.len() {
            split + 1
        } else {
            split
        };
        let value = copy_range(pair.as_slice(), from, pair.len());
        proof {
            if split < pair.len() {
                assert(value@ =~= pair@.skip(index_of(pair@, 61) + 1));
            } else {
                assert(value@ =~= Seq::<u8>::empty());
            }
        }
        return Some(value);
    }
    if end < n {
        let rest = copy_range(query, end + 1, n);
        return find_param(rest.as_slice(), key);
    }
    None
}

/// The number that a query gives a key.
pub fn query_param_u64(query: &str, key: &str) -> (r: Option<u64>)
    ensures
        r == param_number(query.spec_bytes(), key.spec_bytes()),
{
    match find_param(query.as_bytes(), key.as_bytes()) {
        Some(value) => {
            let decoded = utf8_lossy(percent_decode_bytes(value.as_slice()).as_slice());
            parse_u64(decoded.as_str().as_bytes())
        },
        None => None,
    }
}

/// The object that reports an error to the caller.
pub open spec fn error_object(message: Seq<char>) -> JsonView {
    JsonView::Object(seq![("error"@, JsonView::Str(message))])
}

/// The JSON text that reports an error to the caller.
pub fn json_error(message: &str) -> (r: String)
    ensures
        r@ == rendered(error_object(message@)),
{
    let mut fields: Vec<(String, Json)> = Vec::new();
    fields.push(("error".to_owned(), Json::Str(message.to_owned())));
    proof {
        lemma_view_fields(fields@);
        assert(view_fields(fields@) =~= seq![("error"@, JsonView::Str(message@))]);
    }
    Json::Object(fields).render()
}

/// The envelope that passes a caller's call through: the call's method, or
/// an empty one where it names none, and its parameters, under id 1.
pub open spec fn passthrough(call: JsonView) -> JsonView {
    envelope(
        JsonView::Str("2.0"@),
        JsonView::Int(1),
        match call.at("method"@).as_str() {
            Some(method) => method,
            None => Seq::empty(),
        },
        call.at("params"@),
    )
}

/// The request that passes a caller's call through to the node. A body
/// that is no JSON gives the error report to answer with instead.
pub fn do_rpc(body: &str, client: &RpcClient) -> (r: Result<HttpRequest, String>)
    ensures
        match parsed(body@) {
            Some(call) => r matches Ok(request) && request.url@ == endpoint_of(
                client.config().url@,
                client.config().wallet@,
            ) && request.authorization@ == basic_auth_of(
                client.config().user@,
                client.config().password@,
            ) && request.body@ == rendered(passthrough(call)),
            None => r matches Err(report) && exists|reason: Seq<char>|
                report@ == rendered(#[trigger] error_object(reason)),
        },
{
    let call = match Json::parse(body) {
        Ok(call) => call,
        Err(reason) => {
            let report = json_error(reason.as_str());
            proof {
                assert(report@ == rendered(error_object(reason@)));
            }
            return Err(report);
        },
    };
    proof {
        reveal_strlit("");
        assert(""@ =~= Seq::<char>::empty());
    }
    let found = match call.get("method") {
        Some(m) => m.as_str(),
        None => None,
    };
    let method = match found {
        Some(m) => m,
        None => "",
    };
    let params = match call.get("params") {
        Some(p) => p.duplicate(),
        None => Json::Null,
    };
    let payload = build_envelope(
        Json::Str("2.0".to_owned()),
        Json::Number(JsonNumber::PosInt(1)),
        method,
        params,
    );
    Ok(client.post_request(&payload))
}

/// One buffered message as the page shows it.
pub open spec fn message_object(m: ZmqMessage) -> JsonView {
    JsonView::Object(
        seq![
            ("cursor"@, JsonView::Int(m.cursor as int)),
            ("topic"@, JsonView::Str(m.topic@)),
            ("body_hex"@, JsonView::Str(m.body_hex@)),
            ("body_size"@, JsonView::Int(m.body_size as int)),
            ("sequence"@, JsonView::Int(m.sequence as int)),
            ("timestamp"@, JsonView::Int(m.timestamp as int)),
            (
                "event_hash"@,
                match m.event_hash {
                    Some(hash) => JsonView::Str(hash@),
                    None => JsonView::Null,
                },
            ),
        ],
    )
}

/// A page of a long-poll read as the caller gets it.
pub open spec fn page_object(page: ZmqPage) -> JsonView {
    JsonView::Object(
        seq![
            ("connected"@, JsonView::Bool(page.connected)),
            ("address"@, JsonView::Str(page.address@)),
            ("buffer_limit"@, JsonView::Int(page.buffer_limit as int)),
            ("cursor"@, JsonView::Int(page.cursor as int)),
            ("truncated"@, JsonView::Bool(page.truncated)),
            (
                "messages"@,
                JsonView::Array(
                    Seq::new(page.messages@.len(), |i: int| message_object(page.messages@[i])),
                ),
            ),
        ],
    )
}

fn message_json(m: &ZmqMessage) -> (r: Json)
    ensures
        r@ == message_object(*m),
{
    let mut fields: Vec<(String, Json)> = Vec::new();
    fields.push(("cursor".to_owned(), Json::Number(JsonNumber::PosInt(m.cursor))));
    fields.push(("topic".to_owned(), Json::Str(m.topic.clone())));
    fields.push(("body_hex".to_owned(), Json::Str(m.body_hex.clone())));
    fields.push(("body_size".to_owned(), Json::Number(JsonNumber::PosInt(m.body_size as u64))));
    fields.push(("sequence".to_owned(), Json::Number(JsonNumber::PosInt(m.sequence as u64))));
    fields.push(("timestamp".to_owned(), Json::Number(JsonNumber::PosInt(m.timestamp))));
    let hash = match &m.event_hash {
        Some(hash) => Json::Str(hash.clone()),
        None => Json::Null,
    };
    fields.push(("event_hash".to_owned(), hash));
    proof {
        lemma_view_fields(fields@);
        assert(view_fields(fields@) =~= message_object(*m)->Object_0);
    }
    Json::Object(fields)
}

/// The JSON text of a page of a long-poll read.
pub fn zmq_messages_response(page: &ZmqPage) -> (r: String)
    ensures
        r@ == rendered(page_object(*page)),
{
    let mut items: Vec<Json> = Vec::new();
    let mut i: usize = 0;
    while i < page.messages.len()
        invariant
            i <= page.messages@.len(),
            items@.len() == i,
            forall|j: int| 0 <= j < i ==> items@[j]@ == message_object(page.messages@[j]),
        decreases page.messages@.len() - i,
    {
        items.push(message_json(&page.messages[i]));
        i += 1;
    }
    let mut fields: Vec<(String, Json)> = Vec::new();
    fields.push(("connected".to_owned(), Json::Bool(page.connected)));
    fields.push(("address".to_owned(), Json::Str(page.address.clone())));
    fields.push(
        ("buffer_limit".to_owned(), Json::Number(JsonNumber::PosInt(page.buffer_limit as u64))),
    );
    fields.push(("cursor".to_owned(), Json::Number(JsonNumber::PosInt(page.cursor))));
    fields.push(("truncated".to_owned(), Json::Bool(page.truncated)));
    proof {
        lemma_view_items(items@);
        assert(view_items(items@) =~= page_object(*page)->Object_0[5].1->Array_0);
    }
    fields.push(("messages".to_owned(), Json::Array(items)));
    proof {
        lemma_view_fields(fields@);
        assert(view_fields(fields@) =~= page_object(*page)->Object_0);
    }
    Json::Object(fields).render()
}

/// What a request asks for.
#[derive(Clone, Copy, Debug, PartialEq, Eq, Structural)]
pub enum Route {
    /// Pass a call through to the node.
    Rpc,
    /// Update the configuration.
    Config,
    /// Say whether any host is admitted.
    AllowInsecure,
    /// Say which features are there.
    Features,
    /// Look a raw transaction up in the buffer and have the node decode it.
    DecodeRawTx,
    /// Read the feed's buffer, waiting for news if asked to.
    ZmqMessages,
    /// Anything else.
    Other,
}

/// What a path asks for.
pub open spec fn route_of(path: Seq<char>) -> Route {
    if path == "/rpc"@ {
        Route::Rpc
    } else if path == "/config"@ {
        Route::Config
    } else if path == "/allow-insecure-rpc"@ {
        Route::AllowInsecure
    } else if path == "/features"@ {
        Route::Features
    } else if path == "/zmq/decode-rawtx"@ {
        Route::DecodeRawTx
    } else if path == "/zmq/messages"@ {
        Route::ZmqMessages
    } else {
        Route::Other
    }
}

/// What a path asks for.
pub fn route(path: &str) -> (r: Route)
    ensures
        r == route_of(path@),
{
    if str_eq(path, "/rpc") {
        Route::Rpc
    } else if str_eq(path, "/config") {
        Route::Config
    } else if str_eq(path, "/allow-insecure-rpc") {
        Route::AllowInsecure
    } else if str_eq(path, "/features") {
        Route::Features
    } else if str_eq(path, "/zmq/decode-rawtx") {
        Route::DecodeRawTx
    } else if str_eq(path, "/zmq/messages") {
        Route::ZmqMessages
    } else {
        Route::Other
    }
}

/// The body that a request carries: for a post, the decoded header that
/// holds the JSON, if it is there and not empty, else the body, if it is not
/// empty; in every other case the decoded query.
pub open spec fn body_of(
    is_post: bool,
    header: Option<Seq<u8>>,
    body: Seq<u8>,
    query: Seq<u8>,
) -> Seq<char> {
    if is_post && header is Some && percent_decoded(header->0).len() > 0 {
        percent_decoded(header->0)
    } else if is_post && body.len() > 0 {
        lossy_text(body)
    } else {
        percent_decoded(query)
    }
}

/// The bytes of a text that may be missing.
pub open spec fn bytes_of(text: Option<&str>) -> Option<Seq<u8>> {
    match text {
        Some(t) => Some(t.spec_bytes()),
        None => None,
    }
}

/// The body that a request carries.
pub fn request_body(is_post: bool, header: Option<&str>, body: &[u8], query: &str) -> (r: String)
    ensures
        r@ == body_of(is_post, bytes_of(header), body@, query.spec_bytes()),
{
    if is_post {
        match header {
            Some(encoded) => {
                let decoded = percent_decode(encoded);
                if !decoded.as_str().is_empty() {
                    return decoded;
                }
            },
            None => {},
        }
        if body.len() > 0 {
            return utf8_lossy(body);
        }
    }
    percent_decode(query)
}

/// The cursor and the wait of a long-poll read: what the query gives for
/// `since` and `wait_ms`, zero where it gives nothing, the wait capped.
pub fn poll_params(query: &str) -> (r: (u64, u64))
    ensures
        r.0 == match param_number(query.spec_bytes(), vstd::utf8::encode_utf8("since"@)) {
            Some(since) => since,
            None => 0,
        },
        r.1 == match param_number(query.spec_bytes(), vstd::utf8::encode_utf8("wait_ms"@)) {
            Some(wait) => if wait > MAX_WAIT_MS {
                MAX_WAIT_MS
            } else {
                wait
            },
            None => 0,
        },
{
    let since = match query_param_u64(query, "since") {
        Some(since) => since,
        None => 0,
    };
    let wait = match query_param_u64(query, "wait_ms") {
        Some(wait) => wait,
        None => 0,
    };
    (since, clamp_wait_ms(wait))
}

/// The answer to an update of the configuration.
pub open spec fn config_answer(insecure_blocked: bool) -> Seq<char> {
    if insecure_blocked {
        "{\"ok\":true,\"insecure_blocked\":true}"@
    } else {
        "{\"ok\":true}"@
    }
}

/// Updates the configuration from a request and brings the feed in line
/// with it: the buffer gets the configured limit and drops what is beyond
/// it, and where the feed address changed the subscriber is to be stopped
/// and, for an address that is not empty, started again. Returns the
/// answer and what is to be done with the subscriber.
pub fn handle_config_request(
    body: &str,
    config: &mut RpcConfig,
    feed: &mut ZmqState,
    allow_insecure: bool,
) -> (r: (String, FeedAction))
    ensures
        match parsed(body@) {
            Some(update) => {
                &&& updated(old(config), final(config), update, allow_insecure)
                &&& r.0@ == config_answer(url_blocked(update, allow_insecure))
                &&& match update_text(update, "zmq_address"@) {
                    Some(address) => if address == old(config).zmq_address@ {
                        r.1 is Keep
                    } else if address.len() == 0 {
                        r.1 is Stop
                    } else {
                        r.1 matches FeedAction::Restart(to) && to@ == address
                    },
                    None => r.1 is Keep,
                }
            },
            None => *final(config) == *old(config) && r.0@ == config_answer(false) && r.1 is Keep,
        },
        final(feed).buffer_limit == clamped_limit(final(config).zmq_buffer_limit as int),
        final(feed).messages@ == trimmed(
            old(feed).messages@,
            clamped_limit(final(config).zmq_buffer_limit as int),
        ),
        final(feed).connected == old(feed).connected,
        final(feed).address == old(feed).address,
        final(feed).next_cursor == old(feed).next_cursor,
        old(feed).wf() ==> final(feed).wf(),
{
    let result = update_config(body, config, allow_insecure);
    feed.set_buffer_limit(config.zmq_buffer_limit);
    let action = if !result.zmq_changed {
        FeedAction::Keep
    } else if config.zmq_address.as_str().is_empty() {
        FeedAction::Stop
    } else {
        FeedAction::Restart(config.zmq_address.clone())
    };
    let answer = if result.insecure_blocked {
        "{\"ok\":true,\"insecure_blocked\":true}".to_owned()
    } else {
        "{\"ok\":true}".to_owned()
    };
    (answer, action)
}

/// The request that has the node decode a raw transaction from the buffer:
/// the latest one with the time and the sequence number that the query
/// names. Where the query names none, or the buffer holds no such
/// transaction, the error report to answer with instead.
pub fn raw_tx_request(query: &str, feed: &ZmqState, client: &RpcClient) -> (r: Result<
    HttpRequest,
    String,
>)
    ensures
        match (
            param_number(query.spec_bytes(), vstd::utf8::encode_utf8("timestamp"@)),
            param_number(query.spec_bytes(), vstd::utf8::encode_utf8("sequence"@)),
        ) {
            (Some(timestamp), Some(sequence)) => match r {
                Ok(request) => exists|i: int|
                    0 <= i < feed.messages@.len() && is_raw_tx(
                        &#[trigger] feed.messages@[i],
                        timestamp,
                        sequence,
                    ) && request.body@ == rendered(
                        envelope(
                            JsonView::Str("2.0"@),
                            JsonView::Int(1),
                            "decoderawtransaction"@,
                            JsonView::Array(seq![JsonView::Str(feed.messages@[i].body_hex@)]),
                        ),
                    ) && forall|j: int|
                        i < j < feed.messages@.len() ==> !is_raw_tx(
                            &#[trigger] feed.messages@[j],
                            timestamp,
                            sequence,
                        ),
                Err(report) => report@ == "{\"error\":\"rawtx message not found\"}"@ && forall|
                    j: int,
                |
                    0 <= j < feed.messages@.len() ==> !is_raw_tx(
                        &#[trigger] feed.messages@[j],
                        timestamp,
                        sequence,
                    ),
            },
            _ => r matches Err(report) && report@ == "{\"error\":\"invalid rawtx selector\"}"@,
        },
        r matches Ok(request) ==> request.url@ == endpoint_of(
            client.config().url@,
            client.config().wallet@,
        ) && request.authorization@ == basic_auth_of(
            client.config().user@,
            client.config().password@,
        ),
{
    let timestamp = query_param_u64(query, "timestamp");
    let sequence = query_param_u64(query, "sequence");
    match (timestamp, sequence) {
        (Some(timestamp), Some(sequence)) => match feed.find_raw_tx(timestamp, sequence) {
            Some(message) => {
                let mut params: Vec<Json> = Vec::new();
                params.push(Json::Str(message.body_hex.clone()));
                proof {
                    lemma_view_items(params@);
                    assert(view_items(params@) =~= seq![JsonView::Str(message.body_hex@)]);
                }
                Ok(client.call_request("decoderawtransaction", Json::Array(params)))
            },
            None => Err("{\"error\":\"rawtx message not found\"}".to_owned()),
        },
        _ => Err("{\"error\":\"invalid rawtx selector\"}".to_owned()),
    }
}

/// The answer to the question whether any host is admitted.
pub fn allow_insecure_response(allowed: bool) -> (r: String)
    ensures
        r@ == rendered(JsonView::Object(seq![("allowed"@, JsonView::Bool(allowed))])),
{
    let mut fields: Vec<(String, Json)> = Vec::new();
    fields.push(("allowed".to_owned(), Json::Bool(allowed)));
    proof {
        lemma_view_fields(fields@);
        assert(view_fields(fields@) =~= seq![("allowed"@, JsonView::Bool(allowed))]);
    }
    Json::Object(fields).render()
}

} // verus!
