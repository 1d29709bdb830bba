//! The client's request generator and response receiver.
//!
//! A [`Sender`] pre-computes the MAC, IP and UDP headers of its requests once,
//! picks the destination UDP port of each request from its tenant, and counts
//! the requests it has sent. Building the packet and handing it to the network
//! card is left to the caller, which gets every request as an [`RpcRequest`].
//!
//! A [`Receiver`] owns the port that responses arrive on and decides, for each
//! receive burst, how many packets to keep and whether progress is due to be
//! reported.

use vstd::prelude::*;
use vstd::slice::slice_to_vec;
use vstd::arithmetic::power2::pow2;
use vstd::bits::{lemma_u16_low_bits_mask_is_mod, lemma_u16_pow2_no_overflow, low_bits_mask};
use crate::headers::{
    MacHeader, IpHeader, UdpHeader, ETHERTYPE_IPV4, IP_PROTOCOL_UDP, REQUEST_TTL, IPV4_HEADER_LEN,
    UDP_HEADER_LEN,
};

verus! {

/// Progress is due whenever the low 24 bits of a counter are all zero,
/// that is once every 2^24 requests or bursts.
pub const PROGRESS_MASK: u64 = 0xffffff;

/// The most packets a [`Receiver`] takes from its port in one burst.
pub const MAX_RX_PACKETS: u32 = 32;

/// What a [`Sender`] holds, as plain values.
pub struct SenderState {
    pub mac: MacHeader,
    pub ip: IpHeader,
    pub udp: UdpHeader,
    pub requests_sent: u64,
    pub dst_ports: u16,
}

/// Whether progress is due to be reported when the counter stands at `count`:
/// on every count whose low 24 bits are all zero.
pub open spec fn progress_due(count: u64) -> bool {
    count % 0x1000000 == 0
}

/// The destination UDP port of a request from `tenant` when requests are
/// spread over `dst_ports` ports: the two low bytes of the tenant id, masked
/// with `dst_ports - 1`.
pub open spec fn dst_port_for(dst_ports: u16, tenant: u32) -> u16 {
    ((tenant & 0xffff) as u16) & ((dst_ports - 1) as u16)
}

/// The MAC header of a sender: between the given addresses, carrying IPv4.
pub open spec fn initial_mac(src_mac: [u8; 6], dst_mac: [u8; 6]) -> MacHeader {
    MacHeader { dst: dst_mac, src: src_mac, etype: ETHERTYPE_IPV4 }
}

/// The IP header of a sender: IPv4 without options between the given
/// addresses, TTL 128, carrying UDP; the length covers the header alone and
/// is set per packet when the request is written out.
pub open spec fn initial_ip(src_ip: u32, dst_ip: u32) -> IpHeader {
    IpHeader {
        src: src_ip,
        dst: dst_ip,
        ttl: REQUEST_TTL,
        version: 4,
        ihl: 5,
        length: IPV4_HEADER_LEN,
        protocol: IP_PROTOCOL_UDP,
    }
}

/// The UDP header of a sender: from the given port; destination port and
/// checksum zero; the length covers the header alone and is set per packet
/// when the request is written out.
pub open spec fn initial_udp(src_port: u16) -> UdpHeader {
    UdpHeader { src_port: src_port, dst_port: 0, length: UDP_HEADER_LEN, checksum: 0 }
}

/// The operation that a request asks of the server, with its arguments.
pub enum RpcOp {
    /// Look up `key` in `table`.
    Get { table: u64, key: Vec<u8> },
    /// Insert `value` under `key` into `table`.
    Put { table: u64, key: Vec<u8>, value: Vec<u8> },
    /// Look up `num_keys` keys of `key_len` bytes each, laid end to end in `keys`.
    MultiGet { table: u64, key_len: u16, num_keys: u32, keys: Vec<u8> },
    /// Run an extension: the first `name_len` bytes of `payload` name it, the
    /// rest are its arguments.
    Invoke { name_len: u32, payload: Vec<u8> },
}

/// A request ready to be written into a packet and sent.
pub struct RpcRequest {
    pub mac: MacHeader,
    pub ip: IpHeader,
    pub udp: UdpHeader,
    pub tenant: u32,
    pub id: u64,
    /// The UDP port the request goes to.
    pub dst_port: u16,
    pub op: RpcOp,
}

/// What a send hands to the caller: the request, and whether this is a
/// request on which progress is due to be reported.
pub struct Outgoing {
    pub request: RpcRequest,
    pub report_progress: bool,
}

/// A simple RPC request generator.
pub struct Sender {
    // The MAC header on each packet generated by the request generator.
    req_mac_header: MacHeader,
    // The IP header on each packet generated by the request generator.
    req_ip_header: IpHeader,
    // The UDP header on each packet generated by the request generator.
    req_udp_header: UdpHeader,
    // Number of requests handed out so far.
    requests_sent: u64,
    // The number of destination UDP ports a packet can be sent to.
    dst_ports: u16,
}

impl View for Sender {
    type V = SenderState;

    closed spec fn view(&self) -> SenderState {
        SenderState {
            mac: self.req_mac_header,
            ip: self.req_ip_header,
            udp: self.req_udp_header,
            requests_sent: self.requests_sent,
            dst_ports: self.dst_ports,
        }
    }
}

/// The request that `s` builds for `tenant`, `id` and `op`: the sender's
/// headers, and the destination port of the tenant.
pub open spec fn request_from(s: SenderState, req: RpcRequest, tenant: u32, id: u64) -> bool {
    &&& req.mac == s.mac
    &&& req.ip == s.ip
    &&& req.udp == s.udp
    &&& req.tenant == tenant
    &&& req.id == id
    &&& req.dst_port == dst_port_for(s.dst_ports, tenant)
}

/// `post` is `pre` after one more request went out.
pub open spec fn one_more_sent(pre: SenderState, post: SenderState) -> bool {
    post == SenderState { requests_sent: (pre.requests_sent + 1) as u64, ..pre }
}

impl Sender {
    /// Constructs a Sender whose requests go from `src_mac`, `src_ip` and UDP
    /// port `udp_src_port` to `dst_mac` and `dst_ip`, spread over `dst_ports`
    /// destination UDP ports.
    pub fn new(
        src_mac: [u8; 6],
        dst_mac: [u8; 6],
        src_ip: u32,
        dst_ip: u32,
        udp_src_port: u16,
        dst_ports: u16,
    ) -> (s: Sender)
        ensures
            s@.mac == initial_mac(src_mac, dst_mac),
            s@.ip == initial_ip(src_ip, dst_ip),
            s@.udp == initial_udp(udp_src_port),
            s@.requests_sent == 0,
            s@.dst_ports == dst_ports,
    {
        let udp_header = UdpHeader {
            src_port: udp_src_port,
            dst_port: 0,
            length: UDP_HEADER_LEN,
            checksum: 0,
        };
        let ip_header = IpHeader {
            src: src_ip,
            dst: dst_ip,
            ttl: REQUEST_TTL,
            version: 4,
            ihl: 5,
            length: IPV4_HEADER_LEN,
            protocol: IP_PROTOCOL_UDP,
        };
        let mac_header = MacHeader { dst: dst_mac, src: src_mac, etype: ETHERTYPE_IPV4 };
        Sender {
            req_mac_header: mac_header,
            req_ip_header: ip_header,
            req_udp_header: udp_header,
            requests_sent: 0,
            dst_ports: dst_ports,
        }
    }

    /// Computes the destination UDP port given a tenant identifier.
    pub fn get_dst_port(&self, tenant: u32) -> (port: u16)
        requires
            self@.dst_ports > 0,
        ensures
            port == dst_port_for(self@.dst_ports, tenant),
    {
        // The two least significant bytes of the tenant id % the total number of destination
        // ports.
        ((tenant & 0xffff) as u16) & (self.dst_ports - 1)
    }

    /// Counts one more request sent, and tells whether progress is due.
    fn send_req(&mut self) -> (report: bool)
        requires
            old(self)@.requests_sent < u64::MAX,
        ensures
            one_more_sent(old(self)@, final(self)@),
            report == progress_due(old(self)@.requests_sent),
    {
        let r: u64 = self.requests_sent;
        let report = r & PROGRESS_MASK == 0;
        assert(r & 0xffffff == r % 0x1000000) by (bit_vector);
        self.requests_sent = r + 1;
        report
    }

    /// Creates a get() request for `key` in `table`, on behalf of `tenant`,
    /// with RPC identifier `id`, and counts it as sent.
    pub fn send_get(&mut self, tenant: u32, table: u64, key: &[u8], id: u64) -> (out: Outgoing)
        requires
            old(self)@.dst_ports > 0,
            old(self)@.requests_sent < u64::MAX,
        ensures
            request_from(old(self)@, out.request, tenant, id),
            out.request.tenant == tenant && out.request.id == id,
            out.request.dst_port == ((tenant & 0xffff) as u16) & ((old(self)@.dst_ports - 1) as u16),
            out.request.op matches RpcOp::Get { table: t, key: k } && t == table && k@ == key@,
            out.report_progress == progress_due(old(self)@.requests_sent),
            one_more_sent(old(self)@, final(self)@),
    {
        let request = self.request(tenant, id, RpcOp::Get { table: table, key: slice_to_vec(key) });
        let report_progress = self.send_req();
        Outgoing { request, report_progress }
    }

    /// Creates a put() request that inserts `val` under `key` into `table`, on
    /// behalf of `tenant`, with RPC identifier `id`, and counts it as sent.
    pub fn send_put(&mut self, tenant: u32, table: u64, key: &[u8], val: &[u8], id: u64) -> (out:
        Outgoing)
        requires
            old(self)@.dst_ports > 0,
            old(self)@.requests_sent < u64::MAX,
        ensures
            request_from(old(self)@, out.request, tenant, id),
            out.request.tenant == tenant && out.request.id == id,
            out.request.dst_port == ((tenant & 0xffff) as u16) & ((old(self)@.dst_ports - 1) as u16),
            out.request.op matches RpcOp::Put { table: t, key: k, value: v } && t == table && k@
                == key@ && v@ == val@,
            out.report_progress == progress_due(old(self)@.requests_sent),
            one_more_sent(old(self)@, final(self)@),
    {
        let op = RpcOp::Put { table: table, key: slice_to_vec(key), value: slice_to_vec(val) };
        let request = self.request(tenant, id, op);
        let report_progress = self.send_req();
        Outgoing { request, report_progress }
    }

    /// Creates a multiget() request for `n_keys` keys of `k_len` bytes each,
    /// laid end to end in `keys`, from `table`, on behalf of `tenant`, with
    /// RPC identifier `id`, and counts it as sent.
    pub fn send_multiget(
        &mut self,
        tenant: u32,
        table: u64,
        k_len: u16,
        n_keys: u32,
        keys: &[u8],
        id: u64,
    ) -> (out: Outgoing)
        requires
            old(self)@.dst_ports > 0,
            old(self)@.requests_sent < u64::MAX,
        ensures
            request_from(old(self)@, out.request, tenant, id),
            out.request.tenant == tenant && out.request.id == id,
            out.request.dst_port == ((tenant & 0xffff) as u16) & ((old(self)@.dst_ports - 1) as u16),
            out.request.op matches RpcOp::MultiGet { table: t, key_len, num_keys, keys: ks } && t
                == table && key_len == k_len && num_keys == n_keys && ks@ == keys@,
            out.report_progress == progress_due(old(self)@.requests_sent),
            one_more_sent(old(self)@, final(self)@),
    {
        let op = RpcOp::MultiGet {
            table: table,
            key_len: k_len,
            num_keys: n_keys,
            keys: slice_to_vec(keys),
        };
        let request = self.request(tenant, id, op);
        let report_progress = self.send_req();
        Outgoing { request, report_progress }
    }

    /// Creates an invoke() request on behalf of `tenant`, with RPC identifier
    /// `id`, and counts it as sent. The first `name_len` bytes of `payload`
    /// name the extension, the rest are its arguments.
    pub fn send_invoke(&mut self, tenant: u32, name_len: u32, payload: &[u8], id: u64) -> (out:
        Outgoing)
        requires
            old(self)@.dst_ports > 0,
            old(self)@.requests_sent < u64::MAX,
        ensures
            request_from(old(self)@, out.request, tenant, id),
            out.request.tenant == tenant && out.request.id == id,
            out.request.dst_port == ((tenant & 0xffff) as u16) & ((old(self)@.dst_ports - 1) as u16),
            out.request.op matches RpcOp::Invoke { name_len: n, payload: p } && n == name_len
                && p@ == payload@,
            out.report_progress == progress_due(old(self)@.requests_sent),
            one_more_sent(old(self)@, final(self)@),
    {
        let op = RpcOp::Invoke { name_len: name_len, payload: slice_to_vec(payload) };
        let request = self.request(tenant, id, op);
        let report_progress = self.send_req();
        Outgoing { request, report_progress }
    }

    /// The MAC header put on every request.
    pub fn mac_header(&self) -> (h: MacHeader)
        ensures
            h == self@.mac,
    {
        self.req_mac_header
    }

    /// The IP header put on every request.
    pub fn ip_header(&self) -> (h: IpHeader)
        ensures
            h == self@.ip,
    {
        self.req_ip_header
    }

    /// The UDP header put on every request.
    pub fn udp_header(&self) -> (h: UdpHeader)
        ensures
            h == self@.udp,
    {
        self.req_udp_header
    }

    /// The number of requests created so far.
    pub fn requests_sent(&self) -> (n: u64)
        ensures
            n == self@.requests_sent,
    {
        self.requests_sent
    }

    /// The number of destination UDP ports requests are spread over.
    pub fn dst_ports(&self) -> (n: u16)
        ensures
            n == self@.dst_ports,
    {
        self.dst_ports
    }

    fn request(&self, tenant: u32, id: u64, op: RpcOp) -> (req: RpcRequest)
        requires
            self@.dst_ports > 0,
        ensures
            request_from(self@, req, tenant, id),
            req.op == op,
    {
        RpcRequest {
            mac: self.req_mac_header,
            ip: self.req_ip_header,
            udp: self.req_udp_header,
            tenant: tenant,
            id: id,
            dst_port: self.get_dst_port(tenant),
            op: op,
        }
    }
}

/// What a receive burst leaves the caller with: how many of the received
/// packets to keep, and whether progress is due to be reported.
pub struct Burst {
    pub count: usize,
    pub report_progress: bool,
}

/// A Receiver of responses to RPC requests.
pub struct Receiver<T> {
    // The network interface over which responses will be received from.
    net_port: T,
    // The maximum number of packets that can be received from the network port in one shot.
    max_rx_packets: u32,
    // The number of bursts that brought at least one response.
    responses_recv: u64,
}

impl<T: Clone> Receiver<T> {
    /// The port that responses are received from.
    pub closed spec fn spec_port(&self) -> T {
        self.net_port
    }

    /// The most packets taken from the port in one burst.
    pub closed spec fn spec_max_rx_packets(&self) -> u32 {
        self.max_rx_packets
    }

    /// The number of bursts that brought at least one response.
    pub closed spec fn spec_responses_recv(&self) -> u64 {
        self.responses_recv
    }

    /// Constructs a Receiver that receives responses over a clone of `port`.
    pub fn new(port: T) -> (r: Receiver<T>)
        ensures
            cloned(port, r.spec_port()),
            r.spec_max_rx_packets() == MAX_RX_PACKETS,
            r.spec_responses_recv() == 0,
    {
        Receiver { net_port: port.clone(), max_rx_packets: MAX_RX_PACKETS, responses_recv: 0 }
    }

    /// The port that responses are received from.
    pub fn port(&self) -> (p: &T)
        ensures
            *p == self.spec_port(),
    {
        &self.net_port
    }

    /// The most packets to take from the port in one burst.
    pub fn max_rx_packets(&self) -> (n: u32)
        ensures
            n == self.spec_max_rx_packets(),
    {
        self.max_rx_packets
    }

    /// The number of bursts that brought at least one response.
    pub fn responses_recv(&self) -> (n: u64)
        ensures
            n == self.spec_responses_recv(),
    {
        self.responses_recv
    }

    /// Accounts for a burst in which the port delivered `recvd` packets.
    /// An empty burst yields `None` and changes nothing. Otherwise all
    /// `recvd` packets are kept, the burst is counted, and progress is due
    /// when the count stood at a multiple of 2^24 before it.
    pub fn on_burst(&mut self, recvd: usize) -> (burst: Option<Burst>)
        requires
            recvd <= old(self).spec_max_rx_packets(),
            recvd > 0 ==> old(self).spec_responses_recv() < u64::MAX,
        ensures
            final(self).spec_port() == old(self).spec_port(),
            final(self).spec_max_rx_packets() == old(self).spec_max_rx_packets(),
            recvd == 0 ==> burst is None && final(self).spec_responses_recv()
                == old(self).spec_responses_recv(),
            recvd > 0 ==> final(self).spec_responses_recv() == old(self).spec_responses_recv() + 1,
            recvd > 0 ==> (burst matches Some(b) && b.count == recvd && b.report_progress
                == progress_due(old(self).spec_responses_recv())),
    {
        // Return if packets weren't available for receive.
        if recvd == 0 {
            return None;
        }
        let r: u64 = self.responses_recv;
        let report_progress = r & PROGRESS_MASK == 0;
        assert(r & 0xffffff == r % 0x1000000) by (bit_vector);
        self.responses_recv = r + 1;
        Some(Burst { count: recvd, report_progress })
    }
}

/// A request carries the tenant and RPC id it was made for, the sender's
/// headers, and goes to the port picked from the two low bytes of its tenant
/// alone, whatever its operation: one of the sender's `dst_ports` ports.
pub proof fn lemma_request_fields(s: SenderState, req: RpcRequest, tenant: u32, id: u64)
    requires
        request_from(s, req, tenant, id),
        s.dst_ports > 0,
    ensures
        req.tenant == tenant,
        req.id == id,
        req.mac == s.mac && req.ip == s.ip && req.udp == s.udp,
        req.dst_port == ((tenant & 0xffff) as u16) & ((s.dst_ports - 1) as u16),
        req.dst_port < s.dst_ports,
{
    lemma_dst_port_in_range(s.dst_ports, tenant);
}

/// Two requests of one sender for the same tenant go to the same port,
/// whatever their operations and RPC ids; so do two tenants that agree in
/// their two low bytes.
pub proof fn lemma_port_depends_on_tenant_only(
    s: SenderState,
    r1: RpcRequest,
    r2: RpcRequest,
    t1: u32,
    t2: u32,
    id1: u64,
    id2: u64,
)
    requires
        request_from(s, r1, t1, id1),
        request_from(s, r2, t2, id2),
        t1 % 0x10000 == t2 % 0x10000,
    ensures
        r1.dst_port == r2.dst_port,
{
    assert(t1 % 0x10000 == t2 % 0x10000 ==> t1 & 0xffff == t2 & 0xffff) by (bit_vector);
}

/// With a power-of-two number of ports, a request goes to port
/// (tenant mod 2^16) mod `dst_ports`.
pub proof fn lemma_request_port_is_mod(s: SenderState, req: RpcRequest, tenant: u32, id: u64, k: nat)
    requires
        request_from(s, req, tenant, id),
        k < 16,
        s.dst_ports == pow2(k),
    ensures
        req.dst_port == (tenant as int % 0x10000) % (s.dst_ports as int),
{
    lemma_dst_port_is_mod(s.dst_ports, tenant, k);
}

/// Progress falls due once every 2^24 counts: two counts at which it is due
/// are at least 2^24 apart, and it is due again 2^24 counts later.
pub proof fn lemma_progress_period(c: u64, d: u64)
    ensures
        progress_due(c) && progress_due(d) && c < d ==> d - c >= 0x1000000,
        progress_due(c) && d == c + 0x1000000 ==> progress_due(d),
        progress_due(0),
        0 < c < 0x1000000 ==> !progress_due(c),
{
}

/// Every request goes to one of the `dst_ports` destination ports.
pub proof fn lemma_dst_port_in_range(dst_ports: u16, tenant: u32)
    requires
        dst_ports > 0,
    ensures
        dst_port_for(dst_ports, tenant) < dst_ports,
{
    let x: u16 = (tenant & 0xffff) as u16;
    assert(dst_ports > 0 ==> x & ((dst_ports - 1) as u16) < dst_ports) by (bit_vector);
}

/// When the number of destination ports is a power of two, the destination
/// port of a tenant is its two least significant bytes modulo the number of
/// ports.
pub proof fn lemma_dst_port_is_mod(dst_ports: u16, tenant: u32, k: nat)
    requires
        k < 16,
        dst_ports == pow2(k),
    ensures
        dst_port_for(dst_ports, tenant) == (tenant as int % 0x10000) % (dst_ports as int),
{
    let x: u16 = (tenant & 0xffff) as u16;
    assert((tenant & 0xffff) as u16 == tenant % 0x10000) by (bit_vector);
    lemma_u16_pow2_no_overflow(k);
    assert(low_bits_mask(k) as u16 == (dst_ports - 1) as u16);
    lemma_u16_low_bits_mask_is_mod(x, k);
}

} // verus!
