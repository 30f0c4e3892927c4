use yggdre::peers::{
    check_peers_size, check_peers_status, collect_public_peers, region_name, scheme_name, PeerEntry, PeerSource,
    RawPublicPeer, MAX_PUBLIC_PEERS_BYTES,
};

fn raw(up: Option<bool>, response_ms: Option<u64>) -> RawPublicPeer {
    RawPublicPeer { up, key: None, response_ms, last_seen: None, proto_minor: None, priority: None }
}

fn entry(uri: &str, up: Option<bool>, response_ms: Option<u64>) -> PeerEntry {
    PeerEntry { uri: uri.to_string(), peer: raw(up, response_ms) }
}

#[test]
fn region_names_drop_md_and_space_words() {
    assert_eq!(region_name("north-america_canada.md"), "north america canada");
    assert_eq!(region_name("germany.md.md"), "germany");
    assert_eq!(region_name("asia"), "asia");
}

#[test]
fn scheme_names_come_before_separator() {
    assert_eq!(scheme_name("tls://host:443"), "tls");
    assert_eq!(scheme_name("quic://[::1]:1"), "quic");
    assert_eq!(scheme_name("host:443"), "unknown");
    assert_eq!(scheme_name("://x"), "");
}

#[test]
fn public_peers_sort_up_then_latency_then_uri() {
    let sources = vec![
        PeerSource {
            source: "germany.md".to_string(),
            entries: vec![
                entry("tcp://b.example:1", Some(true), Some(50)),
                entry("tcp://z.example:1", None, Some(1)),
                entry("tls://a.example:1", Some(true), None),
            ],
        },
        PeerSource {
            source: "united-states.md".to_string(),
            entries: vec![
                entry("tcp://a.example:1", Some(true), Some(50)),
                entry("tcp://c.example:1", Some(true), Some(10)),
                entry("tcp://y.example:1", Some(false), None),
            ],
        },
    ];
    let peers = collect_public_peers(&sources);
    let uris: Vec<&str> = peers.iter().map(|p| p.uri.as_str()).collect();
    assert_eq!(
        uris,
        vec![
            "tcp://c.example:1",
            "tcp://a.example:1",
            "tcp://b.example:1",
            "tls://a.example:1",
            "tcp://z.example:1",
            "tcp://y.example:1"
        ]
    );
    let first = &peers[0];
    assert_eq!(first.source, "united-states.md");
    assert_eq!(first.region, "united states");
    assert_eq!(first.scheme, "tcp");
    assert!(first.up);
    assert_eq!(first.response_ms, Some(10));
    assert!(!peers[4].up);
}

#[test]
fn public_peers_that_rank_alike_keep_list_order() {
    let sources = vec![
        PeerSource { source: "a.md".to_string(), entries: vec![entry("tcp://same:1", Some(true), Some(5))] },
        PeerSource { source: "b.md".to_string(), entries: vec![entry("tcp://same:1", Some(true), Some(5))] },
    ];
    let peers = collect_public_peers(&sources);
    assert_eq!(peers[0].source, "a.md");
    assert_eq!(peers[1].source, "b.md");
    assert!(collect_public_peers(&vec![]).is_empty());
}

#[test]
fn public_peer_keeps_raw_fields() {
    let sources = vec![PeerSource {
        source: "x.md".to_string(),
        entries: vec![PeerEntry {
            uri: "tls://k:1".to_string(),
            peer: RawPublicPeer {
                up: Some(true),
                key: Some("abcd".to_string()),
                response_ms: Some(3),
                last_seen: Some(1700000000),
                proto_minor: Some(5),
                priority: Some(-1),
            },
        }],
    }];
    let p = &collect_public_peers(&sources)[0];
    assert_eq!(p.key, Some("abcd".to_string()));
    assert_eq!(p.last_seen, Some(1700000000));
    assert_eq!(p.proto_minor, Some(5));
    assert_eq!(p.priority, Some(-1));
}

#[test]
fn peers_status_and_size_checks() {
    assert_eq!(check_peers_status(true, "200 OK"), Ok(()));
    assert_eq!(
        check_peers_status(false, "503 Service Unavailable"),
        Err("Public peers endpoint returned HTTP 503 Service Unavailable".to_string())
    );
    assert_eq!(check_peers_size(MAX_PUBLIC_PEERS_BYTES), Ok(()));
    assert_eq!(MAX_PUBLIC_PEERS_BYTES, 4194304);
    assert_eq!(
        check_peers_size(MAX_PUBLIC_PEERS_BYTES + 1),
        Err("Public peers response is too large: 4194305 bytes".to_string())
    );
}
