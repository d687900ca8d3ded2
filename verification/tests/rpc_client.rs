use bitcoin_rpc_web::host::is_safe_rpc_host;
use bitcoin_rpc_web::json::{Json, JsonNumber};
use bitcoin_rpc_web::rpc_client::{
    base64_encode, basic_auth, batch_payload, batch_response, batch_results, build_envelope,
    call_response, clamp_buffer_limit, extract_result, normalize_call, parse_response, RpcCall,
    RpcClient, RpcConfig, RpcError, DEFAULT_ZMQ_BUFFER_LIMIT, MAX_ZMQ_BUFFER_LIMIT,
    MIN_ZMQ_BUFFER_LIMIT,
};

fn json(text: &str) -> Json {
    parse_response(text).expect("test document should be JSON")
}

fn number(n: u64) -> Json {
    Json::Number(JsonNumber::PosInt(n))
}

fn normalize_payload(input: &Json) -> Result<(String, Json), RpcError> {
    if let Some(calls) = input.as_array() {
        let mut out = Vec::with_capacity(calls.len());
        for (index, call) in calls.iter().enumerate() {
            out.push(normalize_call(call, (index + 1) as u64)?);
        }
        return Ok((format!("batch[{}]", calls.len()), Json::Array(out)));
    }
    let method = input.get("method").and_then(|m| m.as_str()).unwrap_or("").to_string();
    Ok((method, normalize_call(input, 1)?))
}

#[test]
fn single_payload_is_normalized() {
    let (method, payload) = normalize_payload(&json(
        r#"{"method": "getblockcount", "params": []}"#,
    ))
    .expect("payload should normalize");

    assert_eq!(method, "getblockcount");
    assert_eq!(payload.get("jsonrpc").unwrap().as_str(), Some("2.0"));
    assert_eq!(payload.get("id").unwrap().as_u64(), Some(1));
    assert_eq!(payload.get("method").unwrap().as_str(), Some("getblockcount"));
}

#[test]
fn batch_payload_is_normalized() {
    let (method, payload) = normalize_payload(&json(
        r#"[{"method": "uptime", "params": []}, {"id": 99, "method": "getmempoolinfo", "params": []}]"#,
    ))
    .expect("payload should normalize");

    assert_eq!(method, "batch[2]");
    let calls = payload.as_array().expect("batch should be array");
    assert_eq!(calls[0].get("id").unwrap().as_u64(), Some(1));
    assert_eq!(calls[1].get("id").unwrap().as_u64(), Some(99));
}

#[test]
fn missing_method_maps_to_invalid_request() {
    let error = normalize_payload(&json(r#"{ "params": [] }"#))
        .expect_err("payload without method should fail");

    assert!(matches!(error, RpcError::InvalidRequest(_)));
}

#[test]
fn safe_host_validation_matches_expected_ranges() {
    assert!(is_safe_rpc_host("http://127.0.0.1:8332"));
    assert!(is_safe_rpc_host("http://10.0.0.5:8332"));
    assert!(is_safe_rpc_host("http://[::1]:8332"));
    assert!(is_safe_rpc_host("http://100.64.1.2:8332"));
    assert!(!is_safe_rpc_host("http://8.8.8.8:8332"));
    assert!(!is_safe_rpc_host("http://example.com:8332"));
}

#[test]
fn rpc_error_display_is_stable() {
    let error = RpcError::Rpc { code: Some(-1), message: "boom".to_string(), data: None };
    assert_eq!(error.describe(), "rpc error: boom");
}

#[test]
fn rpc_error_response_maps_to_rpc_error_variant() {
    let result = extract_result(&json(
        r#"{"jsonrpc": "2.0", "id": 1, "error": { "code": -8, "message": "wallet not found" }}"#,
    ));

    assert!(matches!(result, Err(RpcError::Rpc { code: Some(-8), .. })));
}

#[test]
fn every_error_kind_is_described_with_its_prefix() {
    assert_eq!(RpcError::InvalidRequest("a".to_string()).describe(), "invalid request: a");
    assert_eq!(RpcError::Transport("b".to_string()).describe(), "transport error: b");
    assert_eq!(RpcError::InvalidResponse("c".to_string()).describe(), "invalid response: c");
}

#[test]
fn extract_result_returns_the_result_member() {
    let result = extract_result(&json(r#"{"result": {"blocks": 7}, "error": null, "id": 1}"#))
        .expect("result should be extracted");
    assert_eq!(result.get("blocks").unwrap().as_u64(), Some(7));
}

#[test]
fn extract_result_without_result_is_invalid_response() {
    let error = extract_result(&json(r#"{"id": 1}"#)).expect_err("no result member");
    match error {
        RpcError::InvalidResponse(message) => assert_eq!(message, "missing result field"),
        other => panic!("unexpected error: {:?}", other),
    }
}

#[test]
fn extract_result_keeps_error_message_and_data() {
    let error = extract_result(&json(
        r#"{"error": {"code": -32601, "message": "Method not found", "data": [1, 2]}}"#,
    ))
    .expect_err("node error");
    match error {
        RpcError::Rpc { code, message, data } => {
            assert_eq!(code, Some(-32601));
            assert_eq!(message, "Method not found");
            assert_eq!(data.unwrap().as_array().unwrap().len(), 2);
        }
        other => panic!("unexpected error: {:?}", other),
    }
}

#[test]
fn extract_result_defaults_a_missing_error_message() {
    let error = extract_result(&json(r#"{"error": {"code": "x"}}"#)).expect_err("node error");
    match error {
        RpcError::Rpc { code, message, data } => {
            assert_eq!(code, None);
            assert_eq!(message, "unknown rpc error");
            assert!(data.is_none());
        }
        other => panic!("unexpected error: {:?}", other),
    }
}

#[test]
fn parse_response_rejects_text_that_is_no_json() {
    let error = parse_response("not json").expect_err("text is no JSON");
    match error {
        RpcError::InvalidResponse(message) => {
            assert!(message.starts_with("invalid json response: "))
        }
        other => panic!("unexpected error: {:?}", other),
    }
}

#[test]
fn call_response_unwraps_the_answer_text() {
    let value = call_response(r#"{"result": 840000, "error": null, "id": 1}"#).unwrap();
    assert_eq!(value.as_u64(), Some(840000));
    assert!(matches!(call_response("{"), Err(RpcError::InvalidResponse(_))));
    assert!(matches!(
        call_response(r#"{"error": {"code": -1, "message": "no"}}"#),
        Err(RpcError::Rpc { code: Some(-1), .. })
    ));
}

#[test]
fn call_request_carries_endpoint_auth_and_envelope() {
    let config = RpcConfig {
        user: "alice".to_string(),
        password: "secret".to_string(),
        wallet: "hot".to_string(),
        ..RpcConfig::default()
    };
    let client = RpcClient::new(config);
    let request = client.call_request("getblockcount", Json::Array(Vec::new()));
    assert_eq!(request.url, "http://127.0.0.1:8332/wallet/hot");
    assert_eq!(request.authorization, "Basic YWxpY2U6c2VjcmV0");
    assert_eq!(
        request.body,
        r#"{"id":1,"jsonrpc":"2.0","method":"getblockcount","params":[]}"#
    );
}

#[test]
fn endpoint_url_without_wallet_is_the_base_url() {
    let client = RpcClient::new(RpcConfig::default());
    assert_eq!(client.endpoint_url(), "http://127.0.0.1:8332");
}

#[test]
fn empty_batch_needs_no_request_and_has_no_results() {
    let client = RpcClient::new(RpcConfig::default());
    let calls: Vec<RpcCall> = Vec::new();
    assert!(client.batch_request(&calls).is_none());
    let results = batch_results(&calls, &Json::Null).expect("empty batch succeeds");
    assert!(results.is_empty());
}

#[test]
fn batch_request_posts_one_envelope_per_call() {
    let client = RpcClient::new(RpcConfig::default());
    let calls = vec![
        RpcCall::new(number(1), "uptime", Json::Array(Vec::new())),
        RpcCall::new(Json::Str("b".to_string()), "getblockcount", Json::Array(Vec::new())),
    ];
    let request = client.batch_request(&calls).expect("batch has calls");
    assert_eq!(
        request.body,
        r#"[{"id":1,"jsonrpc":"2.0","method":"uptime","params":[]},{"id":"b","jsonrpc":"2.0","method":"getblockcount","params":[]}]"#
    );
    let payload = batch_payload(&calls);
    assert_eq!(payload.as_array().unwrap().len(), 2);
}

#[test]
fn batch_results_follow_the_order_of_the_calls_by_id() {
    let calls = vec![
        RpcCall::new(number(1), "a", Json::Array(Vec::new())),
        RpcCall::new(number(2), "b", Json::Array(Vec::new())),
        RpcCall::new(number(3), "c", Json::Array(Vec::new())),
    ];
    let results = batch_response(
        &calls,
        r#"[{"id": 3, "result": "third"}, {"id": 1, "result": "first"}, {"id": 2, "result": "second"}]"#,
    )
    .expect("batch should succeed");
    assert_eq!(results.len(), 3);
    assert_eq!(results[0].as_str(), Some("first"));
    assert_eq!(results[1].as_str(), Some("second"));
    assert_eq!(results[2].as_str(), Some("third"));
}

#[test]
fn batch_with_wrong_cardinality_is_invalid_response() {
    let calls = vec![
        RpcCall::new(number(1), "a", Json::Array(Vec::new())),
        RpcCall::new(number(2), "b", Json::Array(Vec::new())),
    ];
    assert!(matches!(
        batch_response(&calls, r#"[{"id": 1, "result": 1}]"#),
        Err(RpcError::InvalidResponse(_))
    ));
    assert!(matches!(
        batch_response(&calls, r#"{"id": 1, "result": 1}"#),
        Err(RpcError::InvalidResponse(_))
    ));
    assert!(matches!(
        batch_response(&calls, r#"[{"id": 1, "result": 1}, {"id": 7, "result": 2}]"#),
        Err(RpcError::InvalidResponse(_))
    ));
}

#[test]
fn batch_reports_the_first_failing_call_in_order() {
    let calls = vec![
        RpcCall::new(number(1), "a", Json::Array(Vec::new())),
        RpcCall::new(number(2), "b", Json::Array(Vec::new())),
        RpcCall::new(number(3), "c", Json::Array(Vec::new())),
    ];
    let result = batch_response(
        &calls,
        r#"[{"id": 3, "error": {"code": -3, "message": "late"}},
            {"id": 2, "error": {"code": -2, "message": "early"}},
            {"id": 1, "result": true}]"#,
    );
    assert!(matches!(result, Err(RpcError::Rpc { code: Some(-2), .. })));
}

#[test]
fn envelope_keeps_the_given_members() {
    let envelope = build_envelope(
        Json::Str("2.0".to_string()),
        number(5),
        "ping",
        Json::Array(vec![Json::Bool(true)]),
    );
    assert_eq!(envelope.get("id").unwrap().as_u64(), Some(5));
    assert_eq!(envelope.get("method").unwrap().as_str(), Some("ping"));
    assert_eq!(envelope.get("params").unwrap().as_array().unwrap().len(), 1);
}

#[test]
fn normalize_call_keeps_explicit_members() {
    let envelope = normalize_call(
        &json(r#"{"jsonrpc": "1.0", "id": "abc", "method": "help", "params": {"a": 1}}"#),
        9,
    )
    .unwrap();
    assert_eq!(envelope.get("jsonrpc").unwrap().as_str(), Some("1.0"));
    assert_eq!(envelope.get("id").unwrap().as_str(), Some("abc"));
    assert!(envelope.get("params").unwrap().is_object());
}

#[test]
fn normalize_call_fills_defaults() {
    let envelope = normalize_call(&json(r#"{"method": "help"}"#), 9).unwrap();
    assert_eq!(envelope.get("jsonrpc").unwrap().as_str(), Some("2.0"));
    assert_eq!(envelope.get("id").unwrap().as_u64(), Some(9));
    assert_eq!(envelope.get("params").unwrap().as_array().unwrap().len(), 0);
}

#[test]
fn base64_matches_known_vectors() {
    assert_eq!(base64_encode(b""), "");
    assert_eq!(base64_encode(b"f"), "Zg==");
    assert_eq!(base64_encode(b"fo"), "Zm8=");
    assert_eq!(base64_encode(b"foo"), "Zm9v");
    assert_eq!(base64_encode(b"foob"), "Zm9vYg==");
    assert_eq!(base64_encode(b"fooba"), "Zm9vYmE=");
    assert_eq!(base64_encode(b"foobar"), "Zm9vYmFy");
    assert_eq!(base64_encode(&[0xfb, 0xff, 0xfe]), "+//+");
}

#[test]
fn basic_auth_encodes_user_and_password() {
    assert_eq!(basic_auth("user", "pass"), "Basic dXNlcjpwYXNz");
    assert_eq!(basic_auth("", ""), "Basic Og==");
}

#[test]
fn buffer_limit_is_clamped_into_its_range() {
    assert_eq!(clamp_buffer_limit(0), MIN_ZMQ_BUFFER_LIMIT);
    assert_eq!(clamp_buffer_limit(49), 50);
    assert_eq!(clamp_buffer_limit(50), 50);
    assert_eq!(clamp_buffer_limit(5000), DEFAULT_ZMQ_BUFFER_LIMIT);
    assert_eq!(clamp_buffer_limit(100000), 100000);
    assert_eq!(clamp_buffer_limit(100001), MAX_ZMQ_BUFFER_LIMIT);
    let mut config = RpcConfig::default();
    config.set_zmq_buffer_limit(7);
    assert_eq!(config.zmq_buffer_limit, 50);
    assert_eq!(config.clone().zmq_buffer_limit, 50);
}

#[test]
fn default_config_points_at_the_local_node() {
    let config = RpcConfig::default();
    assert_eq!(config.url, "http://127.0.0.1:8332");
    assert_eq!(config.poll_interval_secs, 5);
    assert_eq!(config.zmq_buffer_limit, 5000);
    assert!(config.user.is_empty() && config.password.is_empty() && config.wallet.is_empty());
    assert!(config.zmq_address.is_empty());
}
