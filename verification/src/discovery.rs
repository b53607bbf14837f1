//! How the client and the servers on its network find each other.

use vstd::prelude::*;

use crate::config::ClientConfig;
use crate::protocol::{
    alvr_protocol_string, discovery_bytes, hash_of, is_discovery, protocol_string,
    semantic_version, until_zero, DiscoveryPacket, ProtocolId,
};
use crate::text::{join_text, joined, views};
use crate::wire::{le64, same_bytes};

verus! {

// ---------------------------------------------------------------------------
// Addresses
// ---------------------------------------------------------------------------

/// An address on the network, as a number.
#[derive(Clone, Copy, Debug, PartialEq, Eq, Structural)]
pub enum IpAddress {
    V4(u32),
    V6(u128),
}

/// Where a datagram goes or comes from.
#[derive(Clone, Copy, Debug, PartialEq, Eq, Structural)]
pub enum SocketAddress {
    V4 { ip: u32, port: u16 },
    V6 { ip6: u128, port6: u16, flowinfo: u32, scope_id: u32 },
}

/// The address to which everyone on the network listens.
pub const BROADCAST_IP: u32 = 0xffff_ffff;

/// The order of addresses: the short ones first, then by address, port, flow and scope.
pub open spec fn address_less(left: SocketAddress, right: SocketAddress) -> bool {
    match (left, right) {
        (SocketAddress::V4 { ip, port }, SocketAddress::V4 { ip: ip_r, port: port_r }) => {
            ip < ip_r || (ip == ip_r && port < port_r)
        },
        (SocketAddress::V4 { .. }, SocketAddress::V6 { .. }) => true,
        (SocketAddress::V6 { .. }, SocketAddress::V4 { .. }) => false,
        (
            SocketAddress::V6 { ip6, port6, flowinfo, scope_id },
            SocketAddress::V6 {
                ip6: ip_r,
                port6: port_r,
                flowinfo: flow_r,
                scope_id: scope_r,
            },
        ) => {
            ||| ip6 < ip_r
            ||| ip6 == ip_r && port6 < port_r
            ||| ip6 == ip_r && port6 == port_r && flowinfo < flow_r
            ||| ip6 == ip_r && port6 == port_r && flowinfo == flow_r && scope_id < scope_r
        },
    }
}

fn is_less(left: &SocketAddress, right: &SocketAddress) -> (less: bool)
    ensures
        less == address_less(*left, *right),
{
    match left {
        SocketAddress::V4 { ip, port } => match right {
            SocketAddress::V4 { ip: ip_r, port: port_r } => *ip < *ip_r || (*ip == *ip_r && *port
                < *port_r),
            SocketAddress::V6 { .. } => true,
        },
        SocketAddress::V6 { ip6, port6, flowinfo, scope_id } => match right {
            SocketAddress::V4 { .. } => false,
            SocketAddress::V6 {
                ip6: ip_r,
                port6: port_r,
                flowinfo: flow_r,
                scope_id: scope_r,
            } => {
                if *ip6 != *ip_r {
                    *ip6 < *ip_r
                } else if *port6 != *port_r {
                    *port6 < *port_r
                } else if *flowinfo != *flow_r {
                    *flowinfo < *flow_r
                } else {
                    *scope_id < *scope_r
                }
            },
        },
    }
}

// ---------------------------------------------------------------------------
// Making the client known
// ---------------------------------------------------------------------------

/// The targets of a heartbeat: everyone, and the configured server where it is another.
pub open spec fn heartbeat_targets(server_ip: Option<IpAddress>, port: u16) -> Seq<SocketAddress> {
    let everyone = SocketAddress::V4 { ip: BROADCAST_IP, port };
    match server_ip {
        Some(IpAddress::V4(ip)) if ip != BROADCAST_IP => seq![
            everyone,
            SocketAddress::V4 { ip, port },
        ],
        _ => seq![everyone],
    }
}

/// The targets of a heartbeat. Only short addresses are targeted.
pub fn discovery_heartbeat_targets(
    server_ip: Option<IpAddress>,
    discovery_port: u16,
) -> (targets: Vec<SocketAddress>)
    ensures
        targets@ == heartbeat_targets(server_ip, discovery_port),
{
    let mut targets: Vec<SocketAddress> = Vec::new();
    targets.push(SocketAddress::V4 { ip: BROADCAST_IP, port: discovery_port });
    match server_ip {
        Some(IpAddress::V4(ip)) => {
            if ip != BROADCAST_IP {
                targets.push(SocketAddress::V4 { ip, port: discovery_port });
            }
        },
        _ => {},
    }
    assert(targets@ =~= heartbeat_targets(server_ip, discovery_port));
    targets
}

/// The packet by which a client makes itself known.
pub fn heartbeat_packet(config: &ClientConfig) -> (bytes: Vec<u8>)
    ensures
        bytes@ == discovery_bytes(
            le64(
                hash_of(
                    protocol_string(
                        config.version_string@,
                        semantic_version(config.version_string@),
                    ),
                ),
            ),
            config.client_name@,
        ),
{
    let packet = DiscoveryPacket {
        protocol_id: config.protocol_id(),
        hostname: config.client_name.clone(),
    };
    packet.encode()
}

/// What came of a heartbeat: it succeeds where it reached at least one target, and otherwise the
/// error lists why each target was not reached.
pub fn heartbeat_outcome(sent_any: bool, errors: &Vec<String>) -> (outcome: Result<(), String>)
    ensures
        match outcome {
            Ok(()) => sent_any,
            Err(text) => {
                &&& !sent_any
                &&& text@ == "send ALVR discovery heartbeat failed for all targets: "@ + joined(
                    views(errors@),
                    "; "@,
                )
            },
        },
{
    if sent_any {
        return Ok(());
    }
    let mut text: String = "send ALVR discovery heartbeat failed for all targets: ".to_owned();
    let list: String = join_text(errors, "; ");
    text.append(list.as_str());
    Err(text)
}

/// The kind of service under which the client is announced.
pub const MDNS_SERVICE_TYPE: &'static str = "_alvr._tcp.local.";

/// The client as it is announced on the local network.
#[derive(Clone, Debug, PartialEq, Eq)]
pub struct MdnsRegistration {
    pub instance_name: String,
    pub host_name: String,
    pub port: u16,
    /// The protocol, among the announced properties.
    pub protocol: String,
    /// The client's name, among the announced properties.
    pub device_id: String,
}

/// The announcement of a client.
pub fn mdns_registration(config: &ClientConfig) -> (registration: MdnsRegistration)
    ensures
        registration.instance_name@ == "alvr-"@ + config.client_name@,
        registration.host_name@ == config.client_name@ + ".local."@,
        registration.port == config.discovery_port,
        registration.protocol@ == protocol_string(
            config.version_string@,
            semantic_version(config.version_string@),
        ),
        registration.device_id@ == config.client_name@,
{
    let mut instance_name: String = "alvr-".to_owned();
    instance_name.append(config.client_name.as_str());
    let mut host_name: String = config.client_name.clone();
    host_name.append(".local.");
    MdnsRegistration {
        instance_name,
        host_name,
        port: config.discovery_port,
        protocol: alvr_protocol_string(config.version_string.as_str()),
        device_id: config.client_name.clone(),
    }
}

/// What to do about the announcement.
#[derive(Clone, Copy, Debug, PartialEq, Eq, Structural)]
pub enum MdnsStep {
    /// Nothing: it is there.
    Keep,
    /// End the old one and make a new one.
    Replace,
    /// Make one.
    Register,
}

/// Decides about the announcement. It is made once, and made anew only where that is asked for.
pub fn ensure_alvr_mdns_registration(registered: bool, force_refresh: bool) -> (step: MdnsStep)
    ensures
        step == if !registered {
            MdnsStep::Register
        } else if force_refresh {
            MdnsStep::Replace
        } else {
            MdnsStep::Keep
        },
{
    if !registered {
        MdnsStep::Register
    } else if force_refresh {
        MdnsStep::Replace
    } else {
        MdnsStep::Keep
    }
}

// ---------------------------------------------------------------------------
// Finding servers
// ---------------------------------------------------------------------------

/// A server that answered. Of one that speaks another language only the address is known.
#[derive(Clone, Debug, PartialEq, Eq)]
pub struct DiscoveredStreamer {
    pub addr: SocketAddress,
    pub hostname: Option<String>,
    pub protocol_id: Option<ProtocolId>,
}

/// Reads an answer. A server of another protocol is passed over.
pub fn read_discovery_response(
    response: &[u8],
    addr: SocketAddress,
    protocol_id: ProtocolId,
) -> (streamer: Option<DiscoveredStreamer>)
    ensures
        if !is_discovery(response@) {
            streamer matches Some(streamer) && {
                &&& streamer.addr == addr
                &&& streamer.hostname is None
                &&& streamer.protocol_id is None
            }
        } else if response@.subrange(16, 24) == protocol_id.0@ {
            streamer matches Some(streamer) && {
                &&& streamer.addr == addr
                &&& streamer.hostname is Some
                &&& streamer.hostname->0@ == vstd::utf8::decode_utf8(
                    until_zero(response@.subrange(24, 56)),
                )
                &&& streamer.protocol_id matches Some(id) && id.0@ == protocol_id.0@
            }
        } else {
            streamer is None
        },
{
    match DiscoveryPacket::decode(response) {
        Some(packet) => {
            if same_bytes(
                vstd::array::array_as_slice(&packet.protocol_id.0),
                vstd::array::array_as_slice(&protocol_id.0),
            ) {
                Some(
                    DiscoveredStreamer {
                        addr,
                        hostname: Some(packet.hostname),
                        protocol_id: Some(packet.protocol_id),
                    },
                )
            } else {
                None
            }
        },
        None => Some(DiscoveredStreamer { addr, hostname: None, protocol_id: None }),
    }
}

/// Servers in the order of their addresses, each address once.
pub open spec fn in_order(streamers: Seq<DiscoveredStreamer>) -> bool {
    forall|i: int, j: int|
        0 <= i < j < streamers.len() ==> address_less(
            (#[trigger] streamers[i]).addr,
            (#[trigger] streamers[j]).addr,
        )
}

/// A server at the address is listed.
pub open spec fn lists(streamers: Seq<DiscoveredStreamer>, addr: SocketAddress) -> bool {
    exists|i: int| 0 <= i < streamers.len() && (#[trigger] streamers[i]).addr == addr
}

/// Number of servers in front of the address.
pub open spec fn rank(streamers: Seq<DiscoveredStreamer>, addr: SocketAddress) -> int
    decreases streamers.len(),
{
    if streamers.len() == 0 {
        0
    } else if address_less(streamers[0].addr, addr) {
        1 + rank(streamers.skip(1), addr)
    } else {
        0
    }
}

/// The list with a server added at its place. Of two answers from one address the first stays.
pub open spec fn with_streamer(
    streamers: Seq<DiscoveredStreamer>,
    streamer: DiscoveredStreamer,
) -> Seq<DiscoveredStreamer> {
    if lists(streamers, streamer.addr) {
        streamers
    } else {
        streamers.insert(rank(streamers, streamer.addr), streamer)
    }
}

/// The list that the answers make, in the order in which they came.
pub open spec fn listed(found: Seq<DiscoveredStreamer>) -> Seq<DiscoveredStreamer>
    decreases found.len(),
{
    if found.len() == 0 {
        Seq::empty()
    } else {
        with_streamer(listed(found.drop_last()), found.last())
    }
}

proof fn lemma_rank(streamers: Seq<DiscoveredStreamer>, addr: SocketAddress)
    requires
        in_order(streamers),
    ensures
        0 <= rank(streamers, addr) <= streamers.len(),
        forall|i: int|
            0 <= i < rank(streamers, addr) ==> address_less(
                (#[trigger] streamers[i]).addr,
                addr,
            ),
        forall|i: int|
            rank(streamers, addr) <= i < streamers.len() ==> !address_less(
                (#[trigger] streamers[i]).addr,
                addr,
            ),
    decreases streamers.len(),
{
    if streamers.len() > 0 {
        let rest = streamers.skip(1);
        assert(forall|i: int| 0 <= i < rest.len() ==> rest[i] == #[trigger] streamers[i + 1]);
        assert(in_order(rest));
        lemma_rank(rest, addr);
        if address_less(streamers[0].addr, addr) {
            assert forall|i: int| 0 <= i < rank(streamers, addr) implies address_less(
                (#[trigger] streamers[i]).addr,
                addr,
            ) by {
                if i > 0 {
                    assert(rest[i - 1] == streamers[i]);
                }
            }
            assert forall|i: int| rank(streamers, addr) <= i < streamers.len() implies
                !address_less((#[trigger] streamers[i]).addr, addr) by {
                assert(rest[i - 1] == streamers[i]);
            }
        } else {
            assert forall|i: int| 0 <= i < streamers.len() implies !address_less(
                (#[trigger] streamers[i]).addr,
                addr,
            ) by {
                if i > 0 {
                    assert(address_less(streamers[0].addr, streamers[i].addr));
                }
            }
        }
    }
}

proof fn lemma_with_streamer_in_order(
    streamers: Seq<DiscoveredStreamer>,
    streamer: DiscoveredStreamer,
)
    requires
        in_order(streamers),
    ensures
        in_order(with_streamer(streamers, streamer)),
{
    lemma_rank(streamers, streamer.addr);
    if !lists(streamers, streamer.addr) {
        let at = rank(streamers, streamer.addr);
        let all = streamers.insert(at, streamer);
        assert forall|i: int, j: int| 0 <= i < j < all.len() implies address_less(
            (#[trigger] all[i]).addr,
            (#[trigger] all[j]).addr,
        ) by {
            assert(i < at ==> all[i] == streamers[i]);
            assert(i > at ==> all[i] == streamers[i - 1]);
            assert(j < at ==> all[j] == streamers[j]);
            assert(j > at ==> all[j] == streamers[j - 1]);
            if i == at {
                assert(streamers[j - 1].addr != streamer.addr);
            }
        }
    }
}

/// Adds a server at its place, unless its address is listed.
pub fn add_streamer(streamers: &mut Vec<DiscoveredStreamer>, streamer: DiscoveredStreamer)
    requires
        in_order(old(streamers)@),
    ensures
        final(streamers)@ == with_streamer(old(streamers)@, streamer),
        in_order(final(streamers)@),
{
    proof {
        lemma_rank(streamers@, streamer.addr);
        lemma_with_streamer_in_order(streamers@, streamer);
    }
    let ghost place = rank(streamers@, streamer.addr);
    let mut index: usize = 0;
    while index < streamers.len() && is_less(&streamers[index].addr, &streamer.addr)
        invariant
            index <= place <= streamers@.len(),
            streamers@ == old(streamers)@,
            place == rank(streamers@, streamer.addr),
            in_order(streamers@),
        decreases streamers@.len() - index,
    {
        proof {
            lemma_rank(streamers@, streamer.addr);
            assert(address_less(streamers@[index as int].addr, streamer.addr));
        }
        index = index + 1;
    }
    proof {
        lemma_rank(streamers@, streamer.addr);
        assert(index == place) by {
            if index < place {
                assert(address_less(streamers@[index as int].addr, streamer.addr));
            }
        }
    }
    if index < streamers.len() && streamers[index].addr == streamer.addr {
        assert(lists(streamers@, streamer.addr));
        return;
    }
    assert(!lists(streamers@, streamer.addr)) by {
        if lists(streamers@, streamer.addr) {
            let i = choose|i: int|
                0 <= i < streamers@.len() && (#[trigger] streamers@[i]).addr == streamer.addr;
            assert(streamers@[i].addr == streamer.addr);
            assert(i >= index);
            if i > index {
                assert(address_less(streamers@[index as int].addr, streamers@[i].addr));
            }
        }
    }
    streamers.insert(index, streamer);
}

/// The servers that answered, in the order of their addresses. Of two answers from one address
/// the first counts.
pub fn sort_streamers(found: Vec<DiscoveredStreamer>) -> (streamers: Vec<DiscoveredStreamer>)
    ensures
        streamers@ == listed(found@),
        in_order(streamers@),
{
    let ghost all = found@;
    let mut rest = found;
    let mut streamers: Vec<DiscoveredStreamer> = Vec::new();
    let ghost mut taken: int = 0;
    assert(all.skip(0) =~= all);
    assert(all.take(0) =~= Seq::empty());
    while rest.len() > 0
        invariant
            0 <= taken <= all.len(),
            rest@ == all.skip(taken),
            streamers@ == listed(all.take(taken)),
            in_order(streamers@),
        decreases rest@.len(),
    {
        let streamer = rest.remove(0);
        proof {
            assert(all.take(taken + 1).drop_last() =~= all.take(taken));
            assert(rest@ =~= all.skip(taken + 1));
            taken = taken + 1;
        }
        add_streamer(&mut streamers, streamer);
    }
    assert(all.take(taken) =~= all);
    streamers
}

/// No server is known.
#[derive(Clone, Copy, Debug, PartialEq, Eq, Structural)]
pub struct NoLastKnownServer;

/// The server that the client was connected to, where one is known.
pub fn last_known_server(config: &ClientConfig) -> (ip: Result<String, NoLastKnownServer>)
    ensures
        match ip {
            Ok(ip) => config.last_server_ip is Some && ip@ == config.last_server_ip->0@,
            Err(_) => config.last_server_ip is None,
        },
{
    match &config.last_server_ip {
        Some(ip) => Ok(ip.clone()),
        None => Err(NoLastKnownServer),
    }
}

// ---------------------------------------------------------------------------
// Laws
// ---------------------------------------------------------------------------

/// The server gave the first answer of its address.
pub open spec fn answered_first(
    found: Seq<DiscoveredStreamer>,
    streamer: DiscoveredStreamer,
) -> bool {
    exists|j: int|
        {
            &&& 0 <= j < found.len()
            &&& (#[trigger] found[j]) == streamer
            &&& forall|k: int| 0 <= k < j ==> (#[trigger] found[k]).addr != streamer.addr
        }
}

/// Every address that answered is listed, every listed server answered, and of the answers of an
/// address the first one is listed.
pub proof fn law_first_answers_are_listed(found: Seq<DiscoveredStreamer>, addr: SocketAddress)
    ensures
        in_order(listed(found)),
        lists(listed(found), addr) == lists(found, addr),
        forall|i: int|
            0 <= i < listed(found).len() ==> answered_first(found, #[trigger] listed(found)[i]),
    decreases found.len(),
{
    if found.len() > 0 {
        let before = found.drop_last();
        let last = found.last();
        law_first_answers_are_listed(before, addr);
        law_first_answers_are_listed(before, last.addr);
        lemma_rank(listed(before), last.addr);
        lemma_with_streamer_in_order(listed(before), last);
        let at = rank(listed(before), last.addr);
        let all = listed(found);
        assert(before.push(last) =~= found);
        assert forall|i: int| 0 <= i < all.len() implies answered_first(
            found,
            #[trigger] all[i],
        ) by {
            if lists(listed(before), last.addr) {
                lemma_answered_earlier(before, last, all[i]);
            } else if i < at {
                assert(all[i] == listed(before)[i]);
                lemma_answered_earlier(before, last, all[i]);
            } else if i > at {
                assert(all[i] == listed(before)[i - 1]);
                lemma_answered_earlier(before, last, all[i]);
            } else {
                assert(found[found.len() - 1] == last);
                assert forall|k: int| 0 <= k < found.len() - 1 implies (#[trigger] found[k]).addr
                    != last.addr by {
                    assert(before[k] == found[k]);
                    if found[k].addr == last.addr {
                        assert(lists(before, last.addr));
                    }
                }
            }
        }
        assert(lists(all, addr) == lists(found, addr)) by {
            if lists(found, addr) {
                let j = choose|j: int|
                    0 <= j < found.len() && (#[trigger] found[j]).addr == addr;
                if j < before.len() {
                    assert(before[j].addr == addr);
                    assert(lists(listed(before), addr));
                    let i = choose|i: int|
                        0 <= i < listed(before).len() && (
                        #[trigger] listed(before)[i]).addr == addr;
                    assert(all[i] == listed(before)[i] || all[i + 1] == listed(before)[i]);
                } else if !lists(listed(before), last.addr) {
                    assert(all[at] == last);
                }
            }
            if lists(all, addr) {
                let i = choose|i: int| 0 <= i < all.len() && (#[trigger] all[i]).addr == addr;
                assert(answered_first(found, all[i]));
                let j = choose|j: int| 0 <= j < found.len() && (#[trigger] found[j]) == all[i];
                assert(found[j].addr == addr);
            }
        }
    }
}

proof fn lemma_answered_earlier(
    before: Seq<DiscoveredStreamer>,
    last: DiscoveredStreamer,
    streamer: DiscoveredStreamer,
)
    requires
        answered_first(before, streamer),
    ensures
        answered_first(before.push(last), streamer),
{
    let found = before.push(last);
    let j = choose|j: int|
        {
            &&& 0 <= j < before.len()
            &&& (#[trigger] before[j]) == streamer
            &&& forall|k: int| 0 <= k < j ==> (#[trigger] before[k]).addr != streamer.addr
        };
    assert(found[j] == streamer);
    assert forall|k: int| 0 <= k < j implies (#[trigger] found[k]).addr != streamer.addr by {
        assert(before[k] == found[k]);
    }
}

/// A heartbeat always goes to everyone, and to the configured server where that is another short
/// address; every target is on the port of discovery.
pub proof fn law_heartbeats_reach_everyone(server_ip: Option<IpAddress>, port: u16)
    ensures
        ({
            let targets = heartbeat_targets(server_ip, port);
            &&& targets[0] == (SocketAddress::V4 { ip: 0xffff_ffff, port })
            &&& forall|ip: u32|
                ip != 0xffff_ffff ==> (server_ip == Some(#[trigger] ipv4(ip)) <==> targets.len()
                    == 2 && targets[1] == (SocketAddress::V4 { ip, port }))
            &&& targets.len() == 1 || targets.len() == 2
        }),
{
    assert forall|ip: u32| ip != 0xffff_ffff implies (server_ip == Some(#[trigger] ipv4(ip))
        <==> heartbeat_targets(server_ip, port).len() == 2 && heartbeat_targets(
        server_ip,
        port,
    )[1] == (SocketAddress::V4 { ip, port })) by {}
}

/// A short address.
pub open spec fn ipv4(ip: u32) -> IpAddress {
    IpAddress::V4(ip)
}

/// Addresses are ordered: none comes before itself, of two different ones exactly one comes before
/// the other, and what comes before an address comes before those behind it.
pub proof fn law_addresses_are_ordered(
    first: SocketAddress,
    second: SocketAddress,
    third: SocketAddress,
)
    ensures
        !address_less(first, first),
        first != second ==> address_less(first, second) || address_less(second, first),
        !(address_less(first, second) && address_less(second, first)),
        address_less(first, second) && address_less(second, third) ==> address_less(first, third),
        first is V4 && second is V6 ==> address_less(first, second),
{
}

/// Addresses of one kind are ordered by their number first, and by their port where that is the
/// same.
pub proof fn law_numbers_come_before_ports(ip: u32, other: u32, port: u16, other_port: u16)
    ensures
        ip < other ==> address_less(
            SocketAddress::V4 { ip, port },
            SocketAddress::V4 { ip: other, port: other_port },
        ),
        port < other_port ==> address_less(
            SocketAddress::V4 { ip, port },
            SocketAddress::V4 { ip, port: other_port },
        ),
{
}

/// A client that hears another client of its own protocol learns its name and its address.
pub proof fn law_heartbeats_are_understood(
    config: ClientConfig,
    packet: Vec<u8>,
    response: &[u8],
    addr: SocketAddress,
    protocol_id: ProtocolId,
    streamer: Option<DiscoveredStreamer>,
)
    requires
        call_ensures(heartbeat_packet, (&config,), packet),
        response@ == packet@,
        call_ensures(ClientConfig::protocol_id, (&config,), protocol_id),
        call_ensures(read_discovery_response, (response, addr, protocol_id), streamer),
        vstd::utf8::encode_utf8(config.client_name@).len() <= 32,
        forall|i: int|
            0 <= i < vstd::utf8::encode_utf8(config.client_name@).len()
                ==> vstd::utf8::encode_utf8(config.client_name@)[i] != 0,
    ensures
        streamer matches Some(found) && {
            &&& found.addr == addr
            &&& found.hostname is Some && found.hostname->0@ == config.client_name@
            &&& found.protocol_id is Some && (found.protocol_id->0).0@ == protocol_id.0@
        },
{
    crate::protocol::law_discovery_packet_round_trips(protocol_id.0@, config.client_name@);
}

/// A server of another protocol is passed over; one that speaks no protocol at all is listed by
/// its address alone.
pub proof fn law_other_protocols_are_passed_over(
    response: &[u8],
    addr: SocketAddress,
    protocol_id: ProtocolId,
    streamer: Option<DiscoveredStreamer>,
)
    requires
        call_ensures(read_discovery_response, (response, addr, protocol_id), streamer),
    ensures
        streamer is None <==> is_discovery(response@) && response@.subrange(16, 24)
            != protocol_id.0@,
        streamer matches Some(found) ==> found.addr == addr,
        !is_discovery(response@) ==> streamer->0.hostname is None && streamer->0.protocol_id
            is None,
{
}

/// The client is announced under its own name, on its own port, with its protocol.
pub proof fn law_announcements_name_the_client(
    config: ClientConfig,
    registration: MdnsRegistration,
)
    requires
        call_ensures(mdns_registration, (&config,), registration),
    ensures
        registration.instance_name@ == "alvr-"@ + config.client_name@,
        registration.host_name@ == config.client_name@ + ".local."@,
        registration.device_id@ == config.client_name@,
        registration.port == config.discovery_port,
        registration.protocol@ == protocol_string(
            config.version_string@,
            semantic_version(config.version_string@),
        ),
        MDNS_SERVICE_TYPE@ == "_alvr._tcp.local."@,
{
}

/// An announcement is made where there is none, made anew where that is asked for, and otherwise
/// kept.
pub proof fn law_announcements_are_made_once(
    registered: bool,
    force_refresh: bool,
    step: MdnsStep,
)
    requires
        call_ensures(ensure_alvr_mdns_registration, (registered, force_refresh), step),
    ensures
        step == MdnsStep::Register <==> !registered,
        step == MdnsStep::Replace <==> registered && force_refresh,
        step == MdnsStep::Keep <==> registered && !force_refresh,
{
}

/// A heartbeat fails only where it reached nobody, and then says why.
pub proof fn law_one_target_is_enough(
    sent_any: bool,
    errors: Vec<String>,
    outcome: Result<(), String>,
)
    requires
        call_ensures(heartbeat_outcome, (sent_any, &errors), outcome),
    ensures
        outcome is Ok <==> sent_any,
        outcome matches Err(text) ==> text@
            == "send ALVR discovery heartbeat failed for all targets: "@ + joined(
            views(errors@),
            "; "@,
        ),
{
}

/// The last server is the one that the configuration holds.
pub proof fn law_last_server_is_remembered(
    config: ClientConfig,
    ip: Result<String, NoLastKnownServer>,
)
    requires
        call_ensures(last_known_server, (&config,), ip),
    ensures
        ip is Ok <==> config.last_server_ip is Some,
        ip matches Ok(known) ==> known@ == config.last_server_ip->0@,
{
}

/// Heartbeats go to everyone first, and then to the server that is known.
pub proof fn law_heartbeats_go_to_everyone(
    server_ip: Option<IpAddress>,
    port: u16,
    targets: Vec<SocketAddress>,
    ip: u32,
)
    requires
        call_ensures(discovery_heartbeat_targets, (server_ip, port), targets),
        ip != 0xffff_ffff,
    ensures
        targets@[0] == (SocketAddress::V4 { ip: 0xffff_ffff, port }),
        server_ip == Some(ipv4(ip)) ==> targets@.len() == 2 && targets@[1] == (SocketAddress::V4 {
            ip,
            port,
        }),
        server_ip is None ==> targets@.len() == 1,
{
    law_heartbeats_reach_everyone(server_ip, port);
}

} // verus!
