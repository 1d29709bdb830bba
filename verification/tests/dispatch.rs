use kayak::dispatch::{Receiver, RpcOp, Sender, MAX_RX_PACKETS};
use kayak::headers::{IpHeader, MacHeader, UdpHeader};

const CLIENT_MAC: [u8; 6] = [0x3c, 0xfd, 0xfe, 0x04, 0x9c, 0x12];
const SERVER_MAC: [u8; 6] = [0x3c, 0xfd, 0xfe, 0x04, 0xb1, 0x00];
const CLIENT_IP: u32 = 0x0c0c_0c0b; // 12.12.12.11
const SERVER_IP: u32 = 0x0c0c_0c0a; // 12.12.12.10

fn sender(dst_ports: u16) -> Sender {
    Sender::new(CLIENT_MAC, SERVER_MAC, CLIENT_IP, SERVER_IP, 3, dst_ports)
}

#[test]
fn new_precomputes_headers() {
    let s = sender(8);
    assert_eq!(
        s.mac_header(),
        MacHeader { dst: SERVER_MAC, src: CLIENT_MAC, etype: 0x0800 }
    );
    assert_eq!(
        s.ip_header(),
        IpHeader {
            src: CLIENT_IP,
            dst: SERVER_IP,
            ttl: 128,
            version: 4,
            ihl: 5,
            length: 20,
            protocol: 0x11,
        }
    );
    assert_eq!(
        s.udp_header(),
        UdpHeader { src_port: 3, dst_port: 0, length: 8, checksum: 0 }
    );
    assert_eq!(s.requests_sent(), 0);
    assert_eq!(s.dst_ports(), 8);
}

#[test]
fn dst_port_masks_low_bytes_of_tenant() {
    let s = sender(8);
    assert_eq!(s.get_dst_port(13), 5);
    assert_eq!(s.get_dst_port(0x0012_3456), 6);
    assert_eq!(s.get_dst_port(0xffff_0000), 0);
}

#[test]
fn dst_port_is_tenant_mod_ports_for_power_of_two() {
    for ports in [1u16, 2, 4, 16, 1024, 32768] {
        let s = sender(ports);
        for tenant in [0u32, 1, 7, 255, 65535, 65536, 0xdead_beef, u32::MAX] {
            assert_eq!(s.get_dst_port(tenant) as u32, (tenant % 0x10000) % ports as u32);
        }
    }
}

#[test]
fn dst_port_stays_in_range_for_any_port_count() {
    for ports in [1u16, 3, 5, 6, 100, 65535] {
        let s = sender(ports);
        for tenant in [0u32, 1, 7, 255, 65535, 65536, 0xdead_beef, u32::MAX] {
            assert!(s.get_dst_port(tenant) < ports);
        }
    }
    // Six ports: the mask 5 reaches only 0, 1, 4 and 5.
    assert_eq!(sender(6).get_dst_port(2), 0);
    assert_eq!(sender(6).get_dst_port(3), 1);
}

#[test]
fn send_get_builds_request_and_counts_it() {
    let mut s = sender(4);
    let out = s.send_get(7, 42, b"key-1", 99);
    assert!(out.report_progress);
    assert_eq!(out.request.tenant, 7);
    assert_eq!(out.request.id, 99);
    assert_eq!(out.request.dst_port, 3);
    assert_eq!(out.request.mac, s.mac_header());
    assert_eq!(out.request.ip, s.ip_header());
    assert_eq!(out.request.udp, s.udp_header());
    match out.request.op {
        RpcOp::Get { table, key } => {
            assert_eq!(table, 42);
            assert_eq!(key, b"key-1".to_vec());
        }
        _ => panic!("expected a get request"),
    }
    assert_eq!(s.requests_sent(), 1);
}

#[test]
fn send_put_builds_request() {
    let mut s = sender(4);
    let out = s.send_put(2, 5, b"k", b"value", 1);
    assert_eq!(out.request.dst_port, 2);
    match out.request.op {
        RpcOp::Put { table, key, value } => {
            assert_eq!(table, 5);
            assert_eq!(key, b"k".to_vec());
            assert_eq!(value, b"value".to_vec());
        }
        _ => panic!("expected a put request"),
    }
}

#[test]
fn send_multiget_builds_request() {
    let mut s = sender(4);
    let out = s.send_multiget(5, 9, 2, 3, b"aabbcc", 11);
    assert_eq!(out.request.dst_port, 1);
    assert_eq!(out.request.id, 11);
    match out.request.op {
        RpcOp::MultiGet { table, key_len, num_keys, keys } => {
            assert_eq!(table, 9);
            assert_eq!(key_len, 2);
            assert_eq!(num_keys, 3);
            assert_eq!(keys, b"aabbcc".to_vec());
        }
        _ => panic!("expected a multiget request"),
    }
}

#[test]
fn send_invoke_builds_request() {
    let mut s = sender(1);
    let out = s.send_invoke(0xffff, 5, b"ycsbtARGS", 12);
    assert_eq!(out.request.dst_port, 0);
    assert_eq!(out.request.tenant, 0xffff);
    match out.request.op {
        RpcOp::Invoke { name_len, payload } => {
            assert_eq!(name_len, 5);
            assert_eq!(payload, b"ycsbtARGS".to_vec());
        }
        _ => panic!("expected an invoke request"),
    }
}

#[test]
fn progress_is_reported_on_first_request_only_among_few() {
    let mut s = sender(2);
    let reports: Vec<bool> = (0..5u64)
        .map(|i| s.send_invoke(1, 0, b"", i).report_progress)
        .collect();
    assert_eq!(reports, vec![true, false, false, false, false]);
    assert_eq!(s.requests_sent(), 5);
}

#[test]
fn receiver_starts_empty() {
    let r = Receiver::new(String::from("port 0"));
    assert_eq!(r.port(), "port 0");
    assert_eq!(r.max_rx_packets(), MAX_RX_PACKETS);
    assert_eq!(r.max_rx_packets(), 32);
    assert_eq!(r.responses_recv(), 0);
}

#[test]
fn empty_burst_yields_nothing() {
    let mut r = Receiver::new(0u8);
    assert!(r.on_burst(0).is_none());
    assert_eq!(r.responses_recv(), 0);
}

#[test]
fn bursts_are_kept_whole_and_counted() {
    let mut r = Receiver::new(0u8);
    let first = r.on_burst(5).unwrap();
    assert_eq!(first.count, 5);
    assert!(first.report_progress);
    let second = r.on_burst(32).unwrap();
    assert_eq!(second.count, 32);
    assert!(!second.report_progress);
    assert_eq!(r.responses_recv(), 2);
}
