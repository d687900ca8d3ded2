use bitcoin_rpc_web::dashboard_service::{
    apply_partial, build_snapshot, chain_and_mempool_calls, format_services, lists_peer,
    mempool_calls, parse_chain, parse_mempool, parse_network, parse_peer, parse_traffic,
    read_chain_and_mempool_update, read_mempool_update, read_snapshot, service_code,
    snapshot_calls, to_ascii_lower, DashboardPartialUpdate, DashboardService, MempoolSummary,
};
use bitcoin_rpc_web::json::{Json, JsonNumber};
use bitcoin_rpc_web::rpc_client::{parse_response, RpcClient, RpcConfig, RpcError};

fn json(text: &str) -> Json {
    parse_response(text).expect("test document should be JSON")
}

fn as_float(n: &JsonNumber) -> f64 {
    match n {
        JsonNumber::PosInt(u) => *u as f64,
        JsonNumber::NegInt(i) => *i as f64,
        JsonNumber::Float(text) => text.parse::<f64>().unwrap(),
    }
}

fn fixture() -> Vec<Json> {
    vec![
        json(r#"{"chain": "regtest", "blocks": 101, "headers": 101, "verificationprogress": 1.0}"#),
        json(r#"{"version": 299900, "subversion": "/Satoshi:30.99.0/", "protocolversion": 70016, "connections": 8}"#),
        json(r#"{"size": 2, "bytes": 1234, "usage": 5678, "maxmempool": 300000000}"#),
        json(r#"[{
            "id": 1,
            "addr": "127.0.0.1:18444",
            "subver": "/Satoshi:28.0.0/",
            "network": "ipv4",
            "servicesnames": ["NETWORK", "WITNESS", "NETWORK_LIMITED", "P2P_V2"],
            "transport_protocol_type": 2,
            "inbound": true,
            "connection_type": "manual",
            "minping": 0.0005,
            "pingtime": 0.001,
            "lastsend": 1700000100,
            "lastrecv": 1700000200,
            "last_transaction": 1700000050,
            "last_block": 1700000000,
            "conntime": 1699999000,
            "relaytxes": true,
            "bip152_hb_to": false,
            "bip152_hb_from": true,
            "addr_processed": 42,
            "addr_rate_limited": 3,
            "addr_relay_enabled": true,
            "version": 70016
        }]"#),
        json("123"),
        json(r#"{"totalbytesrecv": 1000, "totalbytessent": 2000}"#),
    ]
}

#[test]
fn snapshot_builder_maps_representative_payloads() {
    let responses = fixture();

    let snapshot = build_snapshot(&responses).expect("snapshot should build");

    assert_eq!(snapshot.chain.chain, "regtest");
    assert_eq!(snapshot.chain.blocks, 101);
    assert_eq!(snapshot.network.connections, 8);
    assert_eq!(snapshot.mempool.transactions, 2);
    assert_eq!(snapshot.traffic.total_bytes_sent, 2000);
    assert_eq!(snapshot.uptime_secs, 123);
    assert_eq!(snapshot.peers.len(), 1);
    assert_eq!(snapshot.peers[0].connection_type, "manual");
    assert_eq!(snapshot.peers[0].network, "ipv4");
    assert_eq!(snapshot.peers[0].services, "nwl2");
    assert_eq!(snapshot.peers[0].transport_version, 2);
    assert_eq!(snapshot.peers[0].version, 70016);
    assert!(snapshot.peers[0].is_bip152_hb_from);
    assert!(!snapshot.peers[0].is_bip152_hb_to);
    assert!(snapshot.peer_details.contains_key(&1));
}

#[test]
fn chain_parser_maps_representative_payload() {
    let chain = parse_chain(&json(
        r#"{"chain": "regtest", "blocks": 5, "headers": 7, "verificationprogress": 0.91}"#,
    ))
    .expect("chain should parse");
    assert_eq!(chain.chain, "regtest");
    assert_eq!(chain.blocks, 5);
    assert_eq!(chain.headers, 7);
    assert_eq!(as_float(&chain.verification_progress), 0.91);
}

#[test]
fn mempool_partial_update_variant_holds_values() {
    let mempool = parse_mempool(&json(
        r#"{"size": 10, "bytes": 100, "usage": 200, "maxmempool": 300}"#,
    ))
    .expect("mempool should parse");

    let update = DashboardPartialUpdate::Mempool(mempool.clone());
    match update {
        DashboardPartialUpdate::Mempool(inner) => {
            assert_eq!(inner.transactions, 10);
            assert_eq!(inner.bytes, 100);
            assert_eq!(inner.usage, 200);
            assert_eq!(inner.maxmempool, 300);
        }
        _ => panic!("expected mempool update"),
    }
}

#[test]
fn fixture_snapshot_has_the_expected_summary() {
    let snapshot = build_snapshot(&fixture()).unwrap();
    assert_eq!(snapshot.chain.blocks, 101);
    assert_eq!(snapshot.chain.headers, 101);
    assert_eq!(as_float(&snapshot.chain.verification_progress), 1.0);
    assert_eq!(snapshot.network.connections, 8);
    assert_eq!(snapshot.network.version, 299900);
    assert_eq!(snapshot.network.protocol_version, 70016);
    assert_eq!(snapshot.network.subversion, "/Satoshi:30.99.0/");
    assert_eq!(snapshot.mempool.transactions, 2);
    assert_eq!(snapshot.mempool.bytes, 1234);
    assert_eq!(snapshot.traffic.total_bytes_recv, 1000);
    assert_eq!(snapshot.traffic.total_bytes_sent, 2000);
    assert_eq!(snapshot.peers.len(), 1);
    let peer = &snapshot.peers[0];
    assert_eq!(peer.id, 1);
    assert_eq!(peer.addr, "127.0.0.1:18444");
    assert_eq!(peer.subver, "/Satoshi:28.0.0/");
    assert!(peer.inbound);
    assert_eq!(as_float(peer.min_ping.as_ref().unwrap()), 0.0005);
    assert_eq!(as_float(peer.ping_time.as_ref().unwrap()), 0.001);
    assert_eq!(peer.last_send, 1700000100);
    assert_eq!(peer.last_recv, 1700000200);
    assert_eq!(peer.last_transaction, 1700000050);
    assert_eq!(peer.last_block, 1700000000);
    assert_eq!(peer.conn_time, 1699999000);
    assert!(peer.is_tx_relay);
    assert_eq!(peer.addr_processed, 42);
    assert_eq!(peer.addr_rate_limited, 3);
    assert!(peer.is_addr_relay_enabled);
    assert_eq!(snapshot.peer_details[&1].get("addr").unwrap().as_str(), Some("127.0.0.1:18444"));
}

#[test]
fn snapshot_is_all_or_nothing() {
    let wrong_count = fixture().into_iter().take(5).collect::<Vec<_>>();
    match build_snapshot(&wrong_count) {
        Err(RpcError::InvalidResponse(message)) => {
            assert_eq!(message, "expected 6 dashboard responses, got 5")
        }
        other => panic!("unexpected result: {:?}", other.map(|s| s.uptime_secs)),
    }
    let message_of = |index: usize, text: &str| {
        let mut responses = fixture();
        responses[index] = json(text);
        match build_snapshot(&responses) {
            Err(RpcError::InvalidResponse(message)) => message,
            other => panic!("unexpected result: {:?}", other.map(|s| s.uptime_secs)),
        }
    };
    assert_eq!(message_of(0, "7"), "getblockchaininfo result must be object");
    assert_eq!(message_of(1, "7"), "getnetworkinfo result must be object");
    assert_eq!(message_of(2, "7"), "getmempoolinfo result must be object");
    assert_eq!(message_of(3, "7"), "getpeerinfo result must be array");
    assert_eq!(message_of(4, "{}"), "uptime result must be u64");
    assert_eq!(message_of(5, "7"), "getnettotals result must be object");
    assert_eq!(message_of(0, "{}"), "missing string field: chain");
    assert_eq!(
        message_of(0, r#"{"chain": "main", "blocks": 1, "headers": 1}"#),
        "missing f64 field: verificationprogress"
    );
    assert_eq!(message_of(1, r#"{"version": 1}"#), "missing string field: subversion");
    assert_eq!(message_of(2, r#"{"size": 1}"#), "missing u64 field: bytes");
    assert_eq!(message_of(5, r#"{"totalbytessent": 1}"#), "missing u64 field: totalbytesrecv");

    let breaks: [(usize, &str); 8] = [
        (0, r#"{"chain": "regtest", "blocks": 101, "headers": 101}"#),
        (0, r#"{"chain": "regtest", "blocks": -1, "headers": 101, "verificationprogress": 1}"#),
        (0, r#"[]"#),
        (1, r#"{"version": 1, "subversion": 2, "protocolversion": 3, "connections": 4}"#),
        (2, r#"{"size": 2, "bytes": 1234, "usage": 5678, "maxmempool": "big"}"#),
        (3, r#"{"id": 1}"#),
        (4, r#"-1"#),
        (5, r#"{"totalbytesrecv": 1000}"#),
    ];
    for (index, text) in breaks {
        let mut responses = fixture();
        responses[index] = json(text);
        assert!(
            matches!(build_snapshot(&responses), Err(RpcError::InvalidResponse(_))),
            "response {} should void the snapshot",
            index
        );
    }
}

#[test]
fn peers_without_an_id_are_passed_over() {
    let mut responses = fixture();
    responses[3] = json(
        r#"[{"addr": "a"}, 7, {"id": "x"}, {"id": 5}, {"id": 2, "addr": "b"}, {"id": 5, "addr": "later"}]"#,
    );
    let snapshot = build_snapshot(&responses).unwrap();
    assert_eq!(snapshot.peers.len(), 3);
    assert_eq!(snapshot.peers[0].id, 5);
    assert_eq!(snapshot.peers[1].id, 2);
    assert_eq!(snapshot.peers[2].id, 5);
    assert_eq!(snapshot.peer_details.len(), 2);
    assert_eq!(snapshot.peer_details[&5].get("addr").unwrap().as_str(), Some("later"));
    assert!(lists_peer(&snapshot.peers, 2));
    assert!(!lists_peer(&snapshot.peers, 3));
}

#[test]
fn a_bare_peer_gets_every_default() {
    let peer = parse_peer(&json(r#"{"id": -3}"#)).expect("peer has an id");
    assert_eq!(peer.id, -3);
    assert_eq!(peer.addr, "?");
    assert_eq!(peer.subver, "");
    assert_eq!(peer.network, "");
    assert_eq!(peer.services, "");
    assert_eq!(peer.transport_version, 1);
    assert!(!peer.inbound);
    assert_eq!(peer.connection_type, "unknown");
    assert!(peer.min_ping.is_none() && peer.ping_time.is_none());
    assert_eq!(peer.last_send, 0);
    assert_eq!(peer.conn_time, 0);
    assert!(!peer.is_tx_relay && !peer.is_bip152_hb_to && !peer.is_bip152_hb_from);
    assert!(!peer.is_addr_relay_enabled);
    assert_eq!(peer.version, 0);
    assert!(parse_peer(&json(r#"{"addr": "x"}"#)).is_none());
    assert!(parse_peer(&json(r#"{"id": 1.5}"#)).is_none());
}

#[test]
fn transport_version_keeps_the_low_byte() {
    let peer = parse_peer(&json(r#"{"id": 1, "transport_protocol_type": 258}"#)).unwrap();
    assert_eq!(peer.transport_version, 2);
}

#[test]
fn service_names_become_one_letter_codes() {
    assert_eq!(service_code("NETWORK"), 'n');
    assert_eq!(service_code("NETWORK_LIMITED"), 'l');
    assert_eq!(service_code("P2P_V2"), '2');
    assert_eq!(service_code("WITNESS"), 'w');
    assert_eq!(service_code("bloom"), 'b');
    assert_eq!(service_code(""), '?');
    assert_eq!(service_code("9x"), '9');
    assert_eq!(to_ascii_lower('Z'), 'z');
    assert_eq!(to_ascii_lower('a'), 'a');
    assert_eq!(to_ascii_lower('['), '[');
    assert_eq!(
        format_services(&json(r#"{"servicesnames": ["COMPACT_FILTERS", 3, "", "P2P_V2", null, "BLOOM"]}"#)),
        "c?2b"
    );
    assert_eq!(format_services(&json(r#"{"servicesnames": "NETWORK"}"#)), "");
    assert_eq!(format_services(&json(r#"{}"#)), "");
}

#[test]
fn each_summary_names_what_it_needs() {
    assert!(parse_network(&json(r#"{"version": 1, "subversion": "s", "protocolversion": 2, "connections": 3}"#)).is_ok());
    assert!(matches!(
        parse_network(&json(r#"{"version": 1, "subversion": "s", "protocolversion": 2}"#)),
        Err(RpcError::InvalidResponse(_))
    ));
    assert!(parse_traffic(&json(r#"{"totalbytesrecv": 1, "totalbytessent": 2}"#)).is_ok());
    assert!(parse_traffic(&json(r#"{"totalbytesrecv": 1, "totalbytessent": -2}"#)).is_err());
    assert!(parse_mempool(&json(r#"[1, 2, 3, 4]"#)).is_err());
    match parse_chain(&json(r#"{"chain": "main", "blocks": 1, "verificationprogress": 1}"#)) {
        Err(RpcError::InvalidResponse(message)) => {
            assert_eq!(message, "missing u64 field: headers")
        }
        other => panic!("unexpected result: {:?}", other),
    }
    let whole = parse_chain(&json(
        r#"{"chain": "main", "blocks": 1, "headers": 2, "verificationprogress": 1}"#,
    ))
    .unwrap();
    assert_eq!(as_float(&whole.verification_progress), 1.0);
}

#[test]
fn partial_updates_replace_their_parts_only() {
    let mut snapshot = build_snapshot(&fixture()).unwrap();
    let mempool = MempoolSummary { transactions: 9, bytes: 8, usage: 7, maxmempool: 6 };
    apply_partial(&mut snapshot, DashboardPartialUpdate::Mempool(mempool));
    assert_eq!(snapshot.mempool, mempool);
    assert_eq!(snapshot.chain.blocks, 101);

    let chain = parse_chain(&json(
        r#"{"chain": "regtest", "blocks": 102, "headers": 103, "verificationprogress": 0.5}"#,
    ))
    .unwrap();
    let newer = MempoolSummary { transactions: 1, bytes: 2, usage: 3, maxmempool: 4 };
    apply_partial(&mut snapshot, DashboardPartialUpdate::ChainAndMempool { chain, mempool: newer });
    assert_eq!(snapshot.chain.blocks, 102);
    assert_eq!(snapshot.chain.headers, 103);
    assert_eq!(snapshot.mempool, newer);
    assert_eq!(snapshot.network.connections, 8);
    assert_eq!(snapshot.peers.len(), 1);
    assert_eq!(snapshot.uptime_secs, 123);
}

#[test]
fn batches_ask_for_the_fixed_methods() {
    let names = |calls: &Vec<bitcoin_rpc_web::rpc_client::RpcCall>| {
        calls.iter().map(|c| (c.id.as_u64().unwrap(), c.method.clone())).collect::<Vec<_>>()
    };
    assert_eq!(
        names(&snapshot_calls()),
        vec![
            (1, "getblockchaininfo".to_string()),
            (2, "getnetworkinfo".to_string()),
            (3, "getmempoolinfo".to_string()),
            (4, "getpeerinfo".to_string()),
            (5, "uptime".to_string()),
            (6, "getnettotals".to_string()),
        ]
    );
    assert_eq!(names(&mempool_calls()), vec![(1, "getmempoolinfo".to_string())]);
    assert_eq!(
        names(&chain_and_mempool_calls()),
        vec![(1, "getblockchaininfo".to_string()), (2, "getmempoolinfo".to_string())]
    );
    let service = DashboardService::new(RpcClient::new(RpcConfig::default()));
    assert_eq!(
        service.mempool_request().body,
        r#"[{"id":1,"jsonrpc":"2.0","method":"getmempoolinfo","params":[]}]"#
    );
    assert!(service.snapshot_request().body.contains(r#""method":"getnettotals""#));
    assert!(service.chain_and_mempool_request().body.starts_with(r#"[{"id":1,"#));
}

#[test]
fn answers_are_read_into_updates_and_snapshots() {
    let update = read_mempool_update(
        r#"[{"id": 1, "result": {"size": 1, "bytes": 2, "usage": 3, "maxmempool": 4}}]"#,
    )
    .unwrap();
    assert!(matches!(update, DashboardPartialUpdate::Mempool(m) if m.transactions == 1));

    let update = read_chain_and_mempool_update(
        r#"[{"id": 2, "result": {"size": 1, "bytes": 2, "usage": 3, "maxmempool": 4}},
            {"id": 1, "result": {"chain": "main", "blocks": 3, "headers": 4, "verificationprogress": 1}}]"#,
    )
    .unwrap();
    match update {
        DashboardPartialUpdate::ChainAndMempool { chain, mempool } => {
            assert_eq!(chain.blocks, 3);
            assert_eq!(mempool.maxmempool, 4);
        }
        other => panic!("unexpected update: {:?}", other),
    }

    assert!(matches!(
        read_mempool_update(r#"[{"id": 1, "error": {"code": -28, "message": "warming up"}}]"#),
        Err(RpcError::Rpc { code: Some(-28), .. })
    ));
    assert!(matches!(read_mempool_update("[]"), Err(RpcError::InvalidResponse(_))));
    assert!(matches!(read_snapshot("oops"), Err(RpcError::InvalidResponse(_))));

    let texts = [
        r#"{"chain": "regtest", "blocks": 101, "headers": 101, "verificationprogress": 1.0}"#,
        r#"{"version": 299900, "subversion": "/Satoshi:30.99.0/", "protocolversion": 70016, "connections": 8}"#,
        r#"{"size": 2, "bytes": 1234, "usage": 5678, "maxmempool": 300000000}"#,
        r#"[{"id": 1}]"#,
        "123",
        r#"{"totalbytesrecv": 1000, "totalbytessent": 2000}"#,
    ];
    let answer = format!(
        "[{}]",
        texts
            .iter()
            .enumerate()
            .rev()
            .map(|(i, t)| format!(r#"{{"id": {}, "result": {}}}"#, i + 1, t))
            .collect::<Vec<_>>()
            .join(",")
    );
    let snapshot = read_snapshot(&answer).expect("snapshot should be read");
    assert_eq!(snapshot.chain.blocks, 101);
    assert_eq!(snapshot.network.connections, 8);
    assert_eq!(snapshot.mempool.transactions, 2);
    assert_eq!(snapshot.traffic.total_bytes_sent, 2000);
    assert_eq!(snapshot.peers.len(), 1);
}
