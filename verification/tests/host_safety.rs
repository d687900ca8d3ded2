use bitcoin_rpc_web::host::{
    allow_insecure, extract_host, is_cgnat, is_safe_host, is_safe_rpc_host, is_safe_rpc_ip,
    parse_host_addr, validate_rpc_host, HostAddr,
};
use bitcoin_rpc_web::rpc_client::RpcConfig;

#[test]
fn safe_ipv4_hosts_are_allowed() {
    assert!(is_safe_rpc_host("http://127.0.0.1:8332"));
    assert!(is_safe_rpc_host("http://10.0.0.2:8332"));
    assert!(is_safe_rpc_host("http://172.16.1.2:8332"));
    assert!(is_safe_rpc_host("http://192.168.1.2:8332"));
    assert!(is_safe_rpc_host("http://100.64.1.2:8332"));
    assert!(is_safe_rpc_host("http://localhost:8332"));
}

#[test]
fn safe_ipv6_hosts_are_allowed() {
    assert!(is_safe_rpc_host("http://[::1]:8332"));
    assert!(is_safe_rpc_host("http://[fd00::1]:8332"));
    assert!(is_safe_rpc_host("http://[fe80::1]:8332"));
    assert!(is_safe_rpc_host("http://[::ffff:127.0.0.1]:8332"));
}

#[test]
fn public_or_invalid_hosts_are_blocked() {
    assert!(!is_safe_rpc_host("http://8.8.8.8:8332"));
    assert!(!is_safe_rpc_host("http://[2001:4860:4860::8888]:8332"));
    assert!(!is_safe_rpc_host("http://example.com:8332"));
    assert!(!is_safe_rpc_host("not-a-url"));
}

#[test]
fn range_edges_are_classified() {
    assert!(is_safe_rpc_host("http://127.255.255.255"));
    assert!(!is_safe_rpc_host("http://126.0.0.1"));
    assert!(!is_safe_rpc_host("http://128.0.0.1"));
    assert!(is_safe_rpc_host("http://172.31.255.255"));
    assert!(!is_safe_rpc_host("http://172.15.0.1"));
    assert!(!is_safe_rpc_host("http://172.32.0.1"));
    assert!(!is_safe_rpc_host("http://192.167.0.1"));
    assert!(is_safe_rpc_host("http://100.127.255.255"));
    assert!(!is_safe_rpc_host("http://100.63.0.1"));
    assert!(!is_safe_rpc_host("http://100.128.0.1"));
    assert!(is_safe_rpc_host("http://[fc00::1]"));
    assert!(is_safe_rpc_host("http://[fdff:ffff::1]"));
    assert!(!is_safe_rpc_host("http://[fe00::1]"));
    assert!(is_safe_rpc_host("http://[febf::1]"));
    assert!(!is_safe_rpc_host("http://[fec0::1]"));
    assert!(!is_safe_rpc_host("http://[::2]"));
    assert!(is_safe_rpc_host("http://[::ffff:10.1.2.3]"));
    assert!(is_safe_rpc_host("http://[::ffff:192.168.0.1]"));
    assert!(!is_safe_rpc_host("http://[::ffff:8.8.8.8]"));
    assert!(!is_safe_rpc_host("http://[::ffff:100.64.0.1]"));
}

#[test]
fn host_is_cut_out_of_the_url() {
    let host = |url: &str| extract_host(url.as_bytes()).map(|h| String::from_utf8(h).unwrap());
    assert_eq!(host("http://example.com:8332/path?x=1"), Some("example.com".to_string()));
    assert_eq!(host("https://user:pw@10.0.0.1:1/"), Some("10.0.0.1".to_string()));
    assert_eq!(host("http://a@b@c"), Some("c".to_string()));
    assert_eq!(host("http://[::1]:8332"), Some("::1".to_string()));
    assert_eq!(host("http://[[fe80::1]]"), Some("fe80::1".to_string()));
    assert_eq!(host("http://host?q=a/b"), Some("host".to_string()));
    assert_eq!(host("x://"), Some(String::new()));
    assert_eq!(host("a://b://c"), Some("b".to_string()));
    assert_eq!(host("no scheme"), None);
    assert_eq!(host(":/"), None);
    assert_eq!(host(""), None);
}

#[test]
fn localhost_passes_in_any_case() {
    assert!(is_safe_rpc_host("http://LocalHost:8332"));
    assert!(is_safe_host(b"LOCALHOST"));
    assert!(!is_safe_host(b"localhost."));
    assert!(!is_safe_host(b"localhos"));
    assert!(!is_safe_host(b""));
}

#[test]
fn ipv4_literals_are_read_strictly() {
    assert!(matches!(parse_host_addr(b"1.2.3.4"), Some(HostAddr::V4(1, 2, 3, 4))));
    assert!(matches!(parse_host_addr(b"255.0.0.255"), Some(HostAddr::V4(255, 0, 0, 255))));
    assert!(parse_host_addr(b"256.0.0.1").is_none());
    assert!(parse_host_addr(b"01.2.3.4").is_none());
    assert!(parse_host_addr(b"1.2.3").is_none());
    assert!(parse_host_addr(b"1.2.3.4.5").is_none());
    assert!(parse_host_addr(b"1.2.3.4 ").is_none());
    assert!(parse_host_addr(b"1.2.3.1000").is_none());
    assert!(parse_host_addr(b"1..3.4").is_none());
    assert!(parse_host_addr(b"").is_none());
    assert!(parse_host_addr(b"example.com").is_none());
}

#[test]
fn ipv6_literals_are_read_in_every_form() {
    let groups = |text: &str| match parse_host_addr(text.as_bytes()) {
        Some(HostAddr::V6(g)) => Some(g),
        _ => None,
    };
    assert_eq!(groups("::"), Some(vec![0, 0, 0, 0, 0, 0, 0, 0]));
    assert_eq!(groups("::1"), Some(vec![0, 0, 0, 0, 0, 0, 0, 1]));
    assert_eq!(groups("1::"), Some(vec![1, 0, 0, 0, 0, 0, 0, 0]));
    assert_eq!(groups("1:2:3:4:5:6:7:8"), Some(vec![1, 2, 3, 4, 5, 6, 7, 8]));
    assert_eq!(
        groups("2001:4860:4860::8888"),
        Some(vec![0x2001, 0x4860, 0x4860, 0, 0, 0, 0, 0x8888])
    );
    assert_eq!(groups("FE80::AbCd"), Some(vec![0xfe80, 0, 0, 0, 0, 0, 0, 0xabcd]));
    assert_eq!(groups("::ffff:1.2.3.4"), Some(vec![0, 0, 0, 0, 0, 0xffff, 0x0102, 0x0304]));
    assert_eq!(groups("1:2:3:4:5:6:1.2.3.4"), Some(vec![1, 2, 3, 4, 5, 6, 0x0102, 0x0304]));
    assert_eq!(groups("1:2:3:4:5:6:7::"), Some(vec![1, 2, 3, 4, 5, 6, 7, 0]));
    assert_eq!(groups("1:2:3:4:5:6:7:8:9"), None);
    assert_eq!(groups("1::2::3"), None);
    assert_eq!(groups("12345::"), None);
    assert_eq!(groups("1:2:3:4:5:6:7"), None);
    assert_eq!(groups("1.2.3.4::"), None);
    assert_eq!(groups(":1"), None);
    assert_eq!(groups("::g"), None);
    assert_eq!(groups("fe80::1%eth0"), None);
}

#[test]
fn addresses_are_classified() {
    assert!(is_safe_rpc_ip(&HostAddr::V4(127, 9, 9, 9)));
    assert!(!is_safe_rpc_ip(&HostAddr::V4(1, 1, 1, 1)));
    assert!(is_safe_rpc_ip(&HostAddr::V6(vec![0, 0, 0, 0, 0, 0, 0, 1])));
    assert!(!is_safe_rpc_ip(&HostAddr::V6(vec![0, 0, 0, 0, 0, 0, 0])));
    assert!(!is_safe_rpc_ip(&HostAddr::V6(vec![0x2001, 0, 0, 0, 0, 0, 0, 1])));
    assert!(is_cgnat(100, 64));
    assert!(is_cgnat(100, 127));
    assert!(!is_cgnat(100, 128));
    assert!(!is_cgnat(101, 64));
}

#[test]
fn override_admits_any_host() {
    let public = RpcConfig { url: "http://8.8.8.8:8332".to_string(), ..RpcConfig::default() };
    assert_eq!(
        validate_rpc_host(&public, false),
        Err("RPC URL must be localhost/private unless DANGER_INSECURE_RPC=1".to_string())
    );
    assert_eq!(validate_rpc_host(&public, true), Ok(()));
    assert_eq!(validate_rpc_host(&RpcConfig::default(), false), Ok(()));
    let named = RpcConfig { url: "http://node.example:8332".to_string(), ..RpcConfig::default() };
    assert!(validate_rpc_host(&named, false).is_err());
}

#[test]
fn override_is_on_only_for_the_setting_one() {
    assert!(allow_insecure(Some("1")));
    assert!(!allow_insecure(Some("0")));
    assert!(!allow_insecure(Some("true")));
    assert!(!allow_insecure(Some("")));
    assert!(!allow_insecure(None));
}
