//! The statistics report: one record per protocol layer, every counter an
//! unsigned 64-bit number, several of them as a pair of directions.
//!
//! Besides the records themselves this module names every counter and every
//! pair of the report, so that contracts can speak of "the counter `c`" of a
//! report whichever record holds it.

use vstd::prelude::*;

verus! {

/// A counter kept once for each direction of traffic.
#[derive(Clone, Copy, Debug, PartialEq, Eq)]
pub struct NetworkData {
    pub received: u64,
    pub sent: u64,
}

impl NetworkData {
    /// The pair of two zeros.
    pub open spec fn zero() -> NetworkData {
        NetworkData { received: 0, sent: 0 }
    }
}

/// The pairs of the interface record.
#[derive(Clone, Copy, Debug, PartialEq, Eq)]
pub enum InterfacePair {
    Bytes,
    UnicastPackets,
    NonUnicastPackets,
    Discards,
    Errors,
}

/// The counters of an IP record, the same for both versions of the protocol.
#[derive(Clone, Copy, Debug, PartialEq, Eq)]
pub enum IpCounter {
    PacketsReceived,
    ReceivedHeaderErrors,
    ReceivedAddressErrors,
    DatagramsForwarded,
    UnknownProtocolsReceived,
    ReceivedPacketsDiscarded,
    ReceivedPacketsDelivered,
    OutputRequests,
    RoutingDiscards,
    DiscardedOutputPackets,
    OutputPacketNoRoute,
    ReassemblyRequired,
    ReassemblySuccessful,
    ReassemblyFailures,
    DatagramsSuccessfullyFragmented,
    DatagramsFailingFragmentation,
    FragmentsCreated,
}

/// The pairs of the ICMPv4 record.
#[derive(Clone, Copy, Debug, PartialEq, Eq)]
pub enum Icmpv4Pair {
    Messages,
    Errors,
    DestinationUnreachable,
    TimeExceeded,
    ParameterProblems,
    SourceQuenches,
    Redirects,
    EchoReplies,
    Echos,
    Timestamps,
    TimestampReplies,
    AddressMasks,
    AddressMaskReplies,
    RouterSolicitations,
    RouterAdvertisements,
}

/// The pairs of the ICMPv6 record.
#[derive(Clone, Copy, Debug, PartialEq, Eq)]
pub enum Icmpv6Pair {
    Messages,
    Errors,
    DestinationUnreachable,
    PacketTooBig,
    TimeExceeded,
    ParameterProblems,
    Echos,
    EchoReplies,
    MldQueries,
    MldReports,
    MldDones,
    RouterSolicitations,
    RouterAdvertisements,
    NeighborSolicitations,
    NeighborAdvertisements,
    Redirects,
    RouterRenumberings,
}

/// The counters of a TCP record, the same over both versions of IP.
#[derive(Clone, Copy, Debug, PartialEq, Eq)]
pub enum TcpCounter {
    ActiveOpens,
    PassiveOpens,
    FailedConnectionAttempts,
    ResetConnections,
    CurrentConnections,
    SegmentsReceived,
    SegmentsSent,
    SegmentsRetransmitted,
}

/// The counters of a UDP record, the same over both versions of IP.
#[derive(Clone, Copy, Debug, PartialEq, Eq)]
pub enum UdpCounter {
    DatagramsReceived,
    NoPorts,
    ReceiveErrors,
    DatagramsSent,
}

/// A counter of the report.
#[derive(Clone, Copy, Debug, PartialEq, Eq)]
pub enum Counter {
    UnknownProtocols,
    Ipv4(IpCounter),
    Ipv6(IpCounter),
    TcpIpv4(TcpCounter),
    TcpIpv6(TcpCounter),
    UdpIpv4(UdpCounter),
    UdpIpv6(UdpCounter),
}

/// A pair of the report.
#[derive(Clone, Copy, Debug, PartialEq, Eq)]
pub enum Pair {
    Interface(InterfacePair),
    Icmpv4(Icmpv4Pair),
    Icmpv6(Icmpv6Pair),
}

/// Traffic of the network interfaces.
#[derive(Clone, Copy, Debug, PartialEq, Eq)]
pub struct InterfaceStats {
    pub bytes: NetworkData,
    pub unicast_packets: NetworkData,
    pub non_unicast_packets: NetworkData,
    pub discards: NetworkData,
    pub errors: NetworkData,
    pub unknown_protocols: u64,
}

impl InterfaceStats {
    /// The pair that `which` names.
    pub open spec fn pair(self, which: InterfacePair) -> NetworkData {
        match which {
            InterfacePair::Bytes => self.bytes,
            InterfacePair::UnicastPackets => self.unicast_packets,
            InterfacePair::NonUnicastPackets => self.non_unicast_packets,
            InterfacePair::Discards => self.discards,
            InterfacePair::Errors => self.errors,
        }
    }

    /// Stores `value` as the pair that `which` names and leaves the rest as it is.
    pub fn set_pair(&mut self, which: InterfacePair, value: NetworkData)
        ensures
            forall|other: InterfacePair|
                #![trigger final(self).pair(other)]
                final(self).pair(other) == if other == which {
                    value
                } else {
                    old(self).pair(other)
                },
            final(self).unknown_protocols == old(self).unknown_protocols,
    {
        match which {
            InterfacePair::Bytes => self.bytes = value,
            InterfacePair::UnicastPackets => self.unicast_packets = value,
            InterfacePair::NonUnicastPackets => self.non_unicast_packets = value,
            InterfacePair::Discards => self.discards = value,
            InterfacePair::Errors => self.errors = value,
        }
    }
}

/// Counters of IPv4.
#[derive(Clone, Copy, Debug, PartialEq, Eq)]
pub struct IpV4Statistics {
    pub packets_received: u64,
    pub received_header_errors: u64,
    pub received_address_errors: u64,
    pub datagrams_forwarded: u64,
    pub unknown_protocols_received: u64,
    pub received_packets_discarded: u64,
    pub received_packets_delivered: u64,
    pub output_requests: u64,
    pub routing_discards: u64,
    pub discarded_output_packets: u64,
    pub output_packet_no_route: u64,
    pub reassembly_required: u64,
    pub reassembly_successful: u64,
    pub reassembly_failures: u64,
    pub datagrams_successfully_fragmented: u64,
    pub datagrams_failing_fragmentation: u64,
    pub fragments_created: u64,
}

impl IpV4Statistics {
    /// The counter that `which` names.
    pub open spec fn counter(self, which: IpCounter) -> u64 {
        match which {
            IpCounter::PacketsReceived => self.packets_received,
            IpCounter::ReceivedHeaderErrors => self.received_header_errors,
            IpCounter::ReceivedAddressErrors => self.received_address_errors,
            IpCounter::DatagramsForwarded => self.datagrams_forwarded,
            IpCounter::UnknownProtocolsReceived => self.unknown_protocols_received,
            IpCounter::ReceivedPacketsDiscarded => self.received_packets_discarded,
            IpCounter::ReceivedPacketsDelivered => self.received_packets_delivered,
            IpCounter::OutputRequests => self.output_requests,
            IpCounter::RoutingDiscards => self.routing_discards,
            IpCounter::DiscardedOutputPackets => self.discarded_output_packets,
            IpCounter::OutputPacketNoRoute => self.output_packet_no_route,
            IpCounter::ReassemblyRequired => self.reassembly_required,
            IpCounter::ReassemblySuccessful => self.reassembly_successful,
            IpCounter::ReassemblyFailures => self.reassembly_failures,
            IpCounter::DatagramsSuccessfullyFragmented => self.datagrams_successfully_fragmented,
            IpCounter::DatagramsFailingFragmentation => self.datagrams_failing_fragmentation,
            IpCounter::FragmentsCreated => self.fragments_created,
        }
    }

    /// Stores `value` as the counter that `which` names and leaves the rest as it is.
    pub fn set_counter(&mut self, which: IpCounter, value: u64)
        ensures
            forall|other: IpCounter|
                #![trigger final(self).counter(other)]
                final(self).counter(other) == if other == which {
                    value
                } else {
                    old(self).counter(other)
                },
    {
        match which {
            IpCounter::PacketsReceived => self.packets_received = value,
            IpCounter::ReceivedHeaderErrors => self.received_header_errors = value,
            IpCounter::ReceivedAddressErrors => self.received_address_errors = value,
            IpCounter::DatagramsForwarded => self.datagrams_forwarded = value,
            IpCounter::UnknownProtocolsReceived => self.unknown_protocols_received = value,
            IpCounter::ReceivedPacketsDiscarded => self.received_packets_discarded = value,
            IpCounter::ReceivedPacketsDelivered => self.received_packets_delivered = value,
            IpCounter::OutputRequests => self.output_requests = value,
            IpCounter::RoutingDiscards => self.routing_discards = value,
            IpCounter::DiscardedOutputPackets => self.discarded_output_packets = value,
            IpCounter::OutputPacketNoRoute => self.output_packet_no_route = value,
            IpCounter::ReassemblyRequired => self.reassembly_required = value,
            IpCounter::ReassemblySuccessful => self.reassembly_successful = value,
            IpCounter::ReassemblyFailures => self.reassembly_failures = value,
            IpCounter::DatagramsSuccessfullyFragmented => self.datagrams_successfully_fragmented = value,
            IpCounter::DatagramsFailingFragmentation => self.datagrams_failing_fragmentation = value,
            IpCounter::FragmentsCreated => self.fragments_created = value,
        }
    }
}

/// Counters of IPv6.
#[derive(Clone, Copy, Debug, PartialEq, Eq)]
pub struct IpV6Statistics {
    pub packets_received: u64,
    pub received_header_errors: u64,
    pub received_address_errors: u64,
    pub datagrams_forwarded: u64,
    pub unknown_protocols_received: u64,
    pub received_packets_discarded: u64,
    pub received_packets_delivered: u64,
    pub output_requests: u64,
    pub routing_discards: u64,
    pub discarded_output_packets: u64,
    pub output_packet_no_route: u64,
    pub reassembly_required: u64,
    pub reassembly_successful: u64,
    pub reassembly_failures: u64,
    pub datagrams_successfully_fragmented: u64,
    pub datagrams_failing_fragmentation: u64,
    pub fragments_created: u64,
}

impl IpV6Statistics {
    /// The counter that `which` names.
    pub open spec fn counter(self, which: IpCounter) -> u64 {
        match which {
            IpCounter::PacketsReceived => self.packets_received,
            IpCounter::ReceivedHeaderErrors => self.received_header_errors,
            IpCounter::ReceivedAddressErrors => self.received_address_errors,
            IpCounter::DatagramsForwarded => self.datagrams_forwarded,
            IpCounter::UnknownProtocolsReceived => self.unknown_protocols_received,
            IpCounter::ReceivedPacketsDiscarded => self.received_packets_discarded,
            IpCounter::ReceivedPacketsDelivered => self.received_packets_delivered,
            IpCounter::OutputRequests => self.output_requests,
            IpCounter::RoutingDiscards => self.routing_discards,
            IpCounter::DiscardedOutputPackets => self.discarded_output_packets,
            IpCounter::OutputPacketNoRoute => self.output_packet_no_route,
            IpCounter::ReassemblyRequired => self.reassembly_required,
            IpCounter::ReassemblySuccessful => self.reassembly_successful,
            IpCounter::ReassemblyFailures => self.reassembly_failures,
            IpCounter::DatagramsSuccessfullyFragmented => self.datagrams_successfully_fragmented,
            IpCounter::DatagramsFailingFragmentation => self.datagrams_failing_fragmentation,
            IpCounter::FragmentsCreated => self.fragments_created,
        }
    }

    /// Stores `value` as the counter that `which` names and leaves the rest as it is.
    pub fn set_counter(&mut self, which: IpCounter, value: u64)
        ensures
            forall|other: IpCounter|
                #![trigger final(self).counter(other)]
                final(self).counter(other) == if other == which {
                    value
                } else {
                    old(self).counter(other)
                },
    {
        match which {
            IpCounter::PacketsReceived => self.packets_received = value,
            IpCounter::ReceivedHeaderErrors => self.received_header_errors = value,
            IpCounter::ReceivedAddressErrors => self.received_address_errors = value,
            IpCounter::DatagramsForwarded => self.datagrams_forwarded = value,
            IpCounter::UnknownProtocolsReceived => self.unknown_protocols_received = value,
            IpCounter::ReceivedPacketsDiscarded => self.received_packets_discarded = value,
            IpCounter::ReceivedPacketsDelivered => self.received_packets_delivered = value,
            IpCounter::OutputRequests => self.output_requests = value,
            IpCounter::RoutingDiscards => self.routing_discards = value,
            IpCounter::DiscardedOutputPackets => self.discarded_output_packets = value,
            IpCounter::OutputPacketNoRoute => self.output_packet_no_route = value,
            IpCounter::ReassemblyRequired => self.reassembly_required = value,
            IpCounter::ReassemblySuccessful => self.reassembly_successful = value,
            IpCounter::ReassemblyFailures => self.reassembly_failures = value,
            IpCounter::DatagramsSuccessfullyFragmented => self.datagrams_successfully_fragmented = value,
            IpCounter::DatagramsFailingFragmentation => self.datagrams_failing_fragmentation = value,
            IpCounter::FragmentsCreated => self.fragments_created = value,
        }
    }
}

/// Messages of ICMPv4, by kind.
#[derive(Clone, Copy, Debug, PartialEq, Eq)]
pub struct IcmpV4Statistics {
    pub messages: NetworkData,
    pub errors: NetworkData,
    pub destination_unreachable: NetworkData,
    pub time_exceeded: NetworkData,
    pub parameter_problems: NetworkData,
    pub source_quenches: NetworkData,
    pub redirects: NetworkData,
    pub echo_replies: NetworkData,
    pub echos: NetworkData,
    pub timestamps: NetworkData,
    pub timestamp_replies: NetworkData,
    pub address_masks: NetworkData,
    pub address_mask_replies: NetworkData,
    pub router_solicitations: NetworkData,
    pub router_advertisements: NetworkData,
}

impl IcmpV4Statistics {
    /// The pair that `which` names.
    pub open spec fn pair(self, which: Icmpv4Pair) -> NetworkData {
        match which {
            Icmpv4Pair::Messages => self.messages,
            Icmpv4Pair::Errors => self.errors,
            Icmpv4Pair::DestinationUnreachable => self.destination_unreachable,
            Icmpv4Pair::TimeExceeded => self.time_exceeded,
            Icmpv4Pair::ParameterProblems => self.parameter_problems,
            Icmpv4Pair::SourceQuenches => self.source_quenches,
            Icmpv4Pair::Redirects => self.redirects,
            Icmpv4Pair::EchoReplies => self.echo_replies,
            Icmpv4Pair::Echos => self.echos,
            Icmpv4Pair::Timestamps => self.timestamps,
            Icmpv4Pair::TimestampReplies => self.timestamp_replies,
            Icmpv4Pair::AddressMasks => self.address_masks,
            Icmpv4Pair::AddressMaskReplies => self.address_mask_replies,
            Icmpv4Pair::RouterSolicitations => self.router_solicitations,
            Icmpv4Pair::RouterAdvertisements => self.router_advertisements,
        }
    }

    /// Stores `value` as the pair that `which` names and leaves the rest as it is.
    pub fn set_pair(&mut self, which: Icmpv4Pair, value: NetworkData)
        ensures
            forall|other: Icmpv4Pair|
                #![trigger final(self).pair(other)]
                final(self).pair(other) == if other == which {
                    value
                } else {
                    old(self).pair(other)
                },
    {
        match which {
            Icmpv4Pair::Messages => self.messages = value,
            Icmpv4Pair::Errors => self.errors = value,
            Icmpv4Pair::DestinationUnreachable => self.destination_unreachable = value,
            Icmpv4Pair::TimeExceeded => self.time_exceeded = value,
            Icmpv4Pair::ParameterProblems => self.parameter_problems = value,
            Icmpv4Pair::SourceQuenches => self.source_quenches = value,
            Icmpv4Pair::Redirects => self.redirects = value,
            Icmpv4Pair::EchoReplies => self.echo_replies = value,
            Icmpv4Pair::Echos => self.echos = value,
            Icmpv4Pair::Timestamps => self.timestamps = value,
            Icmpv4Pair::TimestampReplies => self.timestamp_replies = value,
            Icmpv4Pair::AddressMasks => self.address_masks = value,
            Icmpv4Pair::AddressMaskReplies => self.address_mask_replies = value,
            Icmpv4Pair::RouterSolicitations => self.router_solicitations = value,
            Icmpv4Pair::RouterAdvertisements => self.router_advertisements = value,
        }
    }
}

/// Messages of ICMPv6, by kind.
#[derive(Clone, Copy, Debug, PartialEq, Eq)]
pub struct IcmpV6Statistics {
    pub messages: NetworkData,
    pub errors: NetworkData,
    pub destination_unreachable: NetworkData,
    pub packet_too_big: NetworkData,
    pub time_exceeded: NetworkData,
    pub parameter_problems: NetworkData,
    pub echos: NetworkData,
    pub echo_replies: NetworkData,
    pub mld_queries: NetworkData,
    pub mld_reports: NetworkData,
    pub mld_dones: NetworkData,
    pub router_solicitations: NetworkData,
    pub router_advertisements: NetworkData,
    pub neighbor_solicitations: NetworkData,
    pub neighbor_advertisements: NetworkData,
    pub redirects: NetworkData,
    pub router_renumberings: NetworkData,
}

impl IcmpV6Statistics {
    /// The pair that `which` names.
    pub open spec fn pair(self, which: Icmpv6Pair) -> NetworkData {
        match which {
            Icmpv6Pair::Messages => self.messages,
            Icmpv6Pair::Errors => self.errors,
            Icmpv6Pair::DestinationUnreachable => self.destination_unreachable,
            Icmpv6Pair::PacketTooBig => self.packet_too_big,
            Icmpv6Pair::TimeExceeded => self.time_exceeded,
            Icmpv6Pair::ParameterProblems => self.parameter_problems,
            Icmpv6Pair::Echos => self.echos,
            Icmpv6Pair::EchoReplies => self.echo_replies,
            Icmpv6Pair::MldQueries => self.mld_queries,
            Icmpv6Pair::MldReports => self.mld_reports,
            Icmpv6Pair::MldDones => self.mld_dones,
            Icmpv6Pair::RouterSolicitations => self.router_solicitations,
            Icmpv6Pair::RouterAdvertisements => self.router_advertisements,
            Icmpv6Pair::NeighborSolicitations => self.neighbor_solicitations,
            Icmpv6Pair::NeighborAdvertisements => self.neighbor_advertisements,
            Icmpv6Pair::Redirects => self.redirects,
            Icmpv6Pair::RouterRenumberings => self.router_renumberings,
        }
    }

    /// Stores `value` as the pair that `which` names and leaves the rest as it is.
    pub fn set_pair(&mut self, which: Icmpv6Pair, value: NetworkData)
        ensures
            forall|other: Icmpv6Pair|
                #![trigger final(self).pair(other)]
                final(self).pair(other) == if other == which {
                    value
                } else {
                    old(self).pair(other)
                },
    {
        match which {
            Icmpv6Pair::Messages => self.messages = value,
            Icmpv6Pair::Errors => self.errors = value,
            Icmpv6Pair::DestinationUnreachable => self.destination_unreachable = value,
            Icmpv6Pair::PacketTooBig => self.packet_too_big = value,
            Icmpv6Pair::TimeExceeded => self.time_exceeded = value,
            Icmpv6Pair::ParameterProblems => self.parameter_problems = value,
            Icmpv6Pair::Echos => self.echos = value,
            Icmpv6Pair::EchoReplies => self.echo_replies = value,
            Icmpv6Pair::MldQueries => self.mld_queries = value,
            Icmpv6Pair::MldReports => self.mld_reports = value,
            Icmpv6Pair::MldDones => self.mld_dones = value,
            Icmpv6Pair::RouterSolicitations => self.router_solicitations = value,
            Icmpv6Pair::RouterAdvertisements => self.router_advertisements = value,
            Icmpv6Pair::NeighborSolicitations => self.neighbor_solicitations = value,
            Icmpv6Pair::NeighborAdvertisements => self.neighbor_advertisements = value,
            Icmpv6Pair::Redirects => self.redirects = value,
            Icmpv6Pair::RouterRenumberings => self.router_renumberings = value,
        }
    }
}

/// Counters of TCP over IPv4.
#[derive(Clone, Copy, Debug, PartialEq, Eq)]
pub struct TcpV4Statistics {
    pub active_opens: u64,
    pub passive_opens: u64,
    pub failed_connection_attempts: u64,
    pub reset_connections: u64,
    pub current_connections: u64,
    pub segments_received: u64,
    pub segments_sent: u64,
    pub segments_retransmitted: u64,
}

impl TcpV4Statistics {
    /// The counter that `which` names.
    pub open spec fn counter(self, which: TcpCounter) -> u64 {
        match which {
            TcpCounter::ActiveOpens => self.active_opens,
            TcpCounter::PassiveOpens => self.passive_opens,
            TcpCounter::FailedConnectionAttempts => self.failed_connection_attempts,
            TcpCounter::ResetConnections => self.reset_connections,
            TcpCounter::CurrentConnections => self.current_connections,
            TcpCounter::SegmentsReceived => self.segments_received,
            TcpCounter::SegmentsSent => self.segments_sent,
            TcpCounter::SegmentsRetransmitted => self.segments_retransmitted,
        }
    }

    /// Stores `value` as the counter that `which` names and leaves the rest as it is.
    pub fn set_counter(&mut self, which: TcpCounter, value: u64)
        ensures
            forall|other: TcpCounter|
                #![trigger final(self).counter(other)]
                final(self).counter(other) == if other == which {
                    value
                } else {
                    old(self).counter(other)
                },
    {
        match which {
            TcpCounter::ActiveOpens => self.active_opens = value,
            TcpCounter::PassiveOpens => self.passive_opens = value,
            TcpCounter::FailedConnectionAttempts => self.failed_connection_attempts = value,
            TcpCounter::ResetConnections => self.reset_connections = value,
            TcpCounter::CurrentConnections => self.current_connections = value,
            TcpCounter::SegmentsReceived => self.segments_received = value,
            TcpCounter::SegmentsSent => self.segments_sent = value,
            TcpCounter::SegmentsRetransmitted => self.segments_retransmitted = value,
        }
    }
}

/// Counters of TCP over IPv6.
#[derive(Clone, Copy, Debug, PartialEq, Eq)]
pub struct TcpV6Statistics {
    pub active_opens: u64,
    pub passive_opens: u64,
    pub failed_connection_attempts: u64,
    pub reset_connections: u64,
    pub current_connections: u64,
    pub segments_received: u64,
    pub segments_sent: u64,
    pub segments_retransmitted: u64,
}

impl TcpV6Statistics {
    /// The counter that `which` names.
    pub open spec fn counter(self, which: TcpCounter) -> u64 {
        match which {
            TcpCounter::ActiveOpens => self.active_opens,
            TcpCounter::PassiveOpens => self.passive_opens,
            TcpCounter::FailedConnectionAttempts => self.failed_connection_attempts,
            TcpCounter::ResetConnections => self.reset_connections,
            TcpCounter::CurrentConnections => self.current_connections,
            TcpCounter::SegmentsReceived => self.segments_received,
            TcpCounter::SegmentsSent => self.segments_sent,
            TcpCounter::SegmentsRetransmitted => self.segments_retransmitted,
        }
    }

    /// Stores `value` as the counter that `which` names and leaves the rest as it is.
    pub fn set_counter(&mut self, which: TcpCounter, value: u64)
        ensures
            forall|other: TcpCounter|
                #![trigger final(self).counter(other)]
                final(self).counter(other) == if other == which {
                    value
                } else {
                    old(self).counter(other)
                },
    {
        match which {
            TcpCounter::ActiveOpens => self.active_opens = value,
            TcpCounter::PassiveOpens => self.passive_opens = value,
            TcpCounter::FailedConnectionAttempts => self.failed_connection_attempts = value,
            TcpCounter::ResetConnections => self.reset_connections = value,
            TcpCounter::CurrentConnections => self.current_connections = value,
            TcpCounter::SegmentsReceived => self.segments_received = value,
            TcpCounter::SegmentsSent => self.segments_sent = value,
            TcpCounter::SegmentsRetransmitted => self.segments_retransmitted = value,
        }
    }
}

/// Counters of UDP over IPv4.
#[derive(Clone, Copy, Debug, PartialEq, Eq)]
pub struct UdpV4Statistics {
    pub datagrams_received: u64,
    pub no_ports: u64,
    pub receive_errors: u64,
    pub datagrams_sent: u64,
}

impl UdpV4Statistics {
    /// The counter that `which` names.
    pub open spec fn counter(self, which: UdpCounter) -> u64 {
        match which {
            UdpCounter::DatagramsReceived => self.datagrams_received,
            UdpCounter::NoPorts => self.no_ports,
            UdpCounter::ReceiveErrors => self.receive_errors,
            UdpCounter::DatagramsSent => self.datagrams_sent,
        }
    }

    /// Stores `value` as the counter that `which` names and leaves the rest as it is.
    pub fn set_counter(&mut self, which: UdpCounter, value: u64)
        ensures
            forall|other: UdpCounter|
                #![trigger final(self).counter(other)]
                final(self).counter(other) == if other == which {
                    value
                } else {
                    old(self).counter(other)
                },
    {
        match which {
            UdpCounter::DatagramsReceived => self.datagrams_received = value,
            UdpCounter::NoPorts => self.no_ports = value,
            UdpCounter::ReceiveErrors => self.receive_errors = value,
            UdpCounter::DatagramsSent => self.datagrams_sent = value,
        }
    }
}

/// Counters of UDP over IPv6.
#[derive(Clone, Copy, Debug, PartialEq, Eq)]
pub struct UdpV6Statistics {
    pub datagrams_received: u64,
    pub no_ports: u64,
    pub receive_errors: u64,
    pub datagrams_sent: u64,
}

impl UdpV6Statistics {
    /// The counter that `which` names.
    pub open spec fn counter(self, which: UdpCounter) -> u64 {
        match which {
            UdpCounter::DatagramsReceived => self.datagrams_received,
            UdpCounter::NoPorts => self.no_ports,
            UdpCounter::ReceiveErrors => self.receive_errors,
            UdpCounter::DatagramsSent => self.datagrams_sent,
        }
    }

    /// Stores `value` as the counter that `which` names and leaves the rest as it is.
    pub fn set_counter(&mut self, which: UdpCounter, value: u64)
        ensures
            forall|other: UdpCounter|
                #![trigger final(self).counter(other)]
                final(self).counter(other) == if other == which {
                    value
                } else {
                    old(self).counter(other)
                },
    {
        match which {
            UdpCounter::DatagramsReceived => self.datagrams_received = value,
            UdpCounter::NoPorts => self.no_ports = value,
            UdpCounter::ReceiveErrors => self.receive_errors = value,
            UdpCounter::DatagramsSent => self.datagrams_sent = value,
        }
    }
}

/// The whole report.
#[derive(Clone, Copy, Debug, PartialEq, Eq)]
pub struct NetworkStatistics {
    pub interface: InterfaceStats,
    pub ipv4: IpV4Statistics,
    pub ipv6: IpV6Statistics,
    pub icmpv4: IcmpV4Statistics,
    pub icmpv6: IcmpV6Statistics,
    pub tcp_ipv4: TcpV4Statistics,
    pub tcp_ipv6: TcpV6Statistics,
    pub udp_ipv4: UdpV4Statistics,
    pub udp_ipv6: UdpV6Statistics,
}

impl NetworkStatistics {
    /// The counter that `which` names.
    pub open spec fn counter(self, which: Counter) -> u64 {
        match which {
            Counter::UnknownProtocols => self.interface.unknown_protocols,
            Counter::Ipv4(c) => self.ipv4.counter(c),
            Counter::Ipv6(c) => self.ipv6.counter(c),
            Counter::TcpIpv4(c) => self.tcp_ipv4.counter(c),
            Counter::TcpIpv6(c) => self.tcp_ipv6.counter(c),
            Counter::UdpIpv4(c) => self.udp_ipv4.counter(c),
            Counter::UdpIpv6(c) => self.udp_ipv6.counter(c),
        }
    }

    /// The pair that `which` names.
    pub open spec fn pair(self, which: Pair) -> NetworkData {
        match which {
            Pair::Interface(p) => self.interface.pair(p),
            Pair::Icmpv4(p) => self.icmpv4.pair(p),
            Pair::Icmpv6(p) => self.icmpv6.pair(p),
        }
    }

    /// The report whose counters and pairs are the ones given.
    pub open spec fn assemble(
        counter_of: spec_fn(Counter) -> u64,
        pair_of: spec_fn(Pair) -> NetworkData,
    ) -> NetworkStatistics {
        NetworkStatistics {
            interface: InterfaceStats {
                bytes: pair_of(Pair::Interface(InterfacePair::Bytes)),
                unicast_packets: pair_of(Pair::Interface(InterfacePair::UnicastPackets)),
                non_unicast_packets: pair_of(Pair::Interface(InterfacePair::NonUnicastPackets)),
                discards: pair_of(Pair::Interface(InterfacePair::Discards)),
                errors: pair_of(Pair::Interface(InterfacePair::Errors)),
                unknown_protocols: counter_of(Counter::UnknownProtocols),
            },
            ipv4: IpV4Statistics {
                packets_received: counter_of(Counter::Ipv4(IpCounter::PacketsReceived)),
                received_header_errors: counter_of(Counter::Ipv4(IpCounter::ReceivedHeaderErrors)),
                received_address_errors: counter_of(Counter::Ipv4(IpCounter::ReceivedAddressErrors)),
                datagrams_forwarded: counter_of(Counter::Ipv4(IpCounter::DatagramsForwarded)),
                unknown_protocols_received: counter_of(Counter::Ipv4(IpCounter::UnknownProtocolsReceived)),
                received_packets_discarded: counter_of(Counter::Ipv4(IpCounter::ReceivedPacketsDiscarded)),
                received_packets_delivered: counter_of(Counter::Ipv4(IpCounter::ReceivedPacketsDelivered)),
                output_requests: counter_of(Counter::Ipv4(IpCounter::OutputRequests)),
                routing_discards: counter_of(Counter::Ipv4(IpCounter::RoutingDiscards)),
                discarded_output_packets: counter_of(Counter::Ipv4(IpCounter::DiscardedOutputPackets)),
                output_packet_no_route: counter_of(Counter::Ipv4(IpCounter::OutputPacketNoRoute)),
                reassembly_required: counter_of(Counter::Ipv4(IpCounter::ReassemblyRequired)),
                reassembly_successful: counter_of(Counter::Ipv4(IpCounter::ReassemblySuccessful)),
                reassembly_failures: counter_of(Counter::Ipv4(IpCounter::ReassemblyFailures)),
                datagrams_successfully_fragmented: counter_of(Counter::Ipv4(IpCounter::DatagramsSuccessfullyFragmented)),
                datagrams_failing_fragmentation: counter_of(Counter::Ipv4(IpCounter::DatagramsFailingFragmentation)),
                fragments_created: counter_of(Counter::Ipv4(IpCounter::FragmentsCreated)),
            },
            ipv6: IpV6Statistics {
                packets_received: counter_of(Counter::Ipv6(IpCounter::PacketsReceived)),
                received_header_errors: counter_of(Counter::Ipv6(IpCounter::ReceivedHeaderErrors)),
                received_address_errors: counter_of(Counter::Ipv6(IpCounter::ReceivedAddressErrors)),
                datagrams_forwarded: counter_of(Counter::Ipv6(IpCounter::DatagramsForwarded)),
                unknown_protocols_received: counter_of(Counter::Ipv6(IpCounter::UnknownProtocolsReceived)),
                received_packets_discarded: counter_of(Counter::Ipv6(IpCounter::ReceivedPacketsDiscarded)),
                received_packets_delivered: counter_of(Counter::Ipv6(IpCounter::ReceivedPacketsDelivered)),
                output_requests: counter_of(Counter::Ipv6(IpCounter::OutputRequests)),
                routing_discards: counter_of(Counter::Ipv6(IpCounter::RoutingDiscards)),
                discarded_output_packets: counter_of(Counter::Ipv6(IpCounter::DiscardedOutputPackets)),
                output_packet_no_route: counter_of(Counter::Ipv6(IpCounter::OutputPacketNoRoute)),
                reassembly_required: counter_of(Counter::Ipv6(IpCounter::ReassemblyRequired)),
                reassembly_successful: counter_of(Counter::Ipv6(IpCounter::ReassemblySuccessful)),
                reassembly_failures: counter_of(Counter::Ipv6(IpCounter::ReassemblyFailures)),
                datagrams_successfully_fragmented: counter_of(Counter::Ipv6(IpCounter::DatagramsSuccessfullyFragmented)),
                datagrams_failing_fragmentation: counter_of(Counter::Ipv6(IpCounter::DatagramsFailingFragmentation)),
                fragments_created: counter_of(Counter::Ipv6(IpCounter::FragmentsCreated)),
            },
            icmpv4: IcmpV4Statistics {
                messages: pair_of(Pair::Icmpv4(Icmpv4Pair::Messages)),
                errors: pair_of(Pair::Icmpv4(Icmpv4Pair::Errors)),
                destination_unreachable: pair_of(Pair::Icmpv4(Icmpv4Pair::DestinationUnreachable)),
                time_exceeded: pair_of(Pair::Icmpv4(Icmpv4Pair::TimeExceeded)),
                parameter_problems: pair_of(Pair::Icmpv4(Icmpv4Pair::ParameterProblems)),
                source_quenches: pair_of(Pair::Icmpv4(Icmpv4Pair::SourceQuenches)),
                redirects: pair_of(Pair::Icmpv4(Icmpv4Pair::Redirects)),
                echo_replies: pair_of(Pair::Icmpv4(Icmpv4Pair::EchoReplies)),
                echos: pair_of(Pair::Icmpv4(Icmpv4Pair::Echos)),
                timestamps: pair_of(Pair::Icmpv4(Icmpv4Pair::Timestamps)),
                timestamp_replies: pair_of(Pair::Icmpv4(Icmpv4Pair::TimestampReplies)),
                address_masks: pair_of(Pair::Icmpv4(Icmpv4Pair::AddressMasks)),
                address_mask_replies: pair_of(Pair::Icmpv4(Icmpv4Pair::AddressMaskReplies)),
                router_solicitations: pair_of(Pair::Icmpv4(Icmpv4Pair::RouterSolicitations)),
                router_advertisements: pair_of(Pair::Icmpv4(Icmpv4Pair::RouterAdvertisements)),
            },
            icmpv6: IcmpV6Statistics {
                messages: pair_of(Pair::Icmpv6(Icmpv6Pair::Messages)),
                errors: pair_of(Pair::Icmpv6(Icmpv6Pair::Errors)),
                destination_unreachable: pair_of(Pair::Icmpv6(Icmpv6Pair::DestinationUnreachable)),
                packet_too_big: pair_of(Pair::Icmpv6(Icmpv6Pair::PacketTooBig)),
                time_exceeded: pair_of(Pair::Icmpv6(Icmpv6Pair::TimeExceeded)),
                parameter_problems: pair_of(Pair::Icmpv6(Icmpv6Pair::ParameterProblems)),
                echos: pair_of(Pair::Icmpv6(Icmpv6Pair::Echos)),
                echo_replies: pair_of(Pair::Icmpv6(Icmpv6Pair::EchoReplies)),
                mld_queries: pair_of(Pair::Icmpv6(Icmpv6Pair::MldQueries)),
                mld_reports: pair_of(Pair::Icmpv6(Icmpv6Pair::MldReports)),
                mld_dones: pair_of(Pair::Icmpv6(Icmpv6Pair::MldDones)),
                router_solicitations: pair_of(Pair::Icmpv6(Icmpv6Pair::RouterSolicitations)),
                router_advertisements: pair_of(Pair::Icmpv6(Icmpv6Pair::RouterAdvertisements)),
                neighbor_solicitations: pair_of(Pair::Icmpv6(Icmpv6Pair::NeighborSolicitations)),
                neighbor_advertisements: pair_of(Pair::Icmpv6(Icmpv6Pair::NeighborAdvertisements)),
                redirects: pair_of(Pair::Icmpv6(Icmpv6Pair::Redirects)),
                router_renumberings: pair_of(Pair::Icmpv6(Icmpv6Pair::RouterRenumberings)),
            },
            tcp_ipv4: TcpV4Statistics {
                active_opens: counter_of(Counter::TcpIpv4(TcpCounter::ActiveOpens)),
                passive_opens: counter_of(Counter::TcpIpv4(TcpCounter::PassiveOpens)),
                failed_connection_attempts: counter_of(Counter::TcpIpv4(TcpCounter::FailedConnectionAttempts)),
                reset_connections: counter_of(Counter::TcpIpv4(TcpCounter::ResetConnections)),
                current_connections: counter_of(Counter::TcpIpv4(TcpCounter::CurrentConnections)),
                segments_received: counter_of(Counter::TcpIpv4(TcpCounter::SegmentsReceived)),
                segments_sent: counter_of(Counter::TcpIpv4(TcpCounter::SegmentsSent)),
                segments_retransmitted: counter_of(Counter::TcpIpv4(TcpCounter::SegmentsRetransmitted)),
            },
            tcp_ipv6: TcpV6Statistics {
                active_opens: counter_of(Counter::TcpIpv6(TcpCounter::ActiveOpens)),
                passive_opens: counter_of(Counter::TcpIpv6(TcpCounter::PassiveOpens)),
                failed_connection_attempts: counter_of(Counter::TcpIpv6(TcpCounter::FailedConnectionAttempts)),
                reset_connections: counter_of(Counter::TcpIpv6(TcpCounter::ResetConnections)),
                current_connections: counter_of(Counter::TcpIpv6(TcpCounter::CurrentConnections)),
                segments_received: counter_of(Counter::TcpIpv6(TcpCounter::SegmentsReceived)),
                segments_sent: counter_of(Counter::TcpIpv6(TcpCounter::SegmentsSent)),
                segments_retransmitted: counter_of(Counter::TcpIpv6(TcpCounter::SegmentsRetransmitted)),
            },
            udp_ipv4: UdpV4Statistics {
                datagrams_received: counter_of(Counter::UdpIpv4(UdpCounter::DatagramsReceived)),
                no_ports: counter_of(Counter::UdpIpv4(UdpCounter::NoPorts)),
                receive_errors: counter_of(Counter::UdpIpv4(UdpCounter::ReceiveErrors)),
                datagrams_sent: counter_of(Counter::UdpIpv4(UdpCounter::DatagramsSent)),
            },
            udp_ipv6: UdpV6Statistics {
                datagrams_received: counter_of(Counter::UdpIpv6(UdpCounter::DatagramsReceived)),
                no_ports: counter_of(Counter::UdpIpv6(UdpCounter::NoPorts)),
                receive_errors: counter_of(Counter::UdpIpv6(UdpCounter::ReceiveErrors)),
                datagrams_sent: counter_of(Counter::UdpIpv6(UdpCounter::DatagramsSent)),
            },
        }
    }

    /// The report in which nothing has been counted.
    pub open spec fn zero() -> NetworkStatistics {
        NetworkStatistics::assemble(|c: Counter| 0u64, |p: Pair| NetworkData::zero())
    }

    /// A report with every counter at zero.
    pub fn new() -> (report: NetworkStatistics)
        ensures
            report == NetworkStatistics::zero(),
    {
        NetworkStatistics {
            interface: InterfaceStats {
                bytes: NetworkData { received: 0, sent: 0 },
                unicast_packets: NetworkData { received: 0, sent: 0 },
                non_unicast_packets: NetworkData { received: 0, sent: 0 },
                discards: NetworkData { received: 0, sent: 0 },
                errors: NetworkData { received: 0, sent: 0 },
                unknown_protocols: 0,
            },
            ipv4: IpV4Statistics {
                packets_received: 0,
                received_header_errors: 0,
                received_address_errors: 0,
                datagrams_forwarded: 0,
                unknown_protocols_received: 0,
                received_packets_discarded: 0,
                received_packets_delivered: 0,
                output_requests: 0,
                routing_discards: 0,
                discarded_output_packets: 0,
                output_packet_no_route: 0,
                reassembly_required: 0,
                reassembly_successful: 0,
                reassembly_failures: 0,
                datagrams_successfully_fragmented: 0,
                datagrams_failing_fragmentation: 0,
                fragments_created: 0,
            },
            ipv6: IpV6Statistics {
                packets_received: 0,
                received_header_errors: 0,
                received_address_errors: 0,
                datagrams_forwarded: 0,
                unknown_protocols_received: 0,
                received_packets_discarded: 0,
                received_packets_delivered: 0,
                output_requests: 0,
                routing_discards: 0,
                discarded_output_packets: 0,
                output_packet_no_route: 0,
                reassembly_required: 0,
                reassembly_successful: 0,
                reassembly_failures: 0,
                datagrams_successfully_fragmented: 0,
                datagrams_failing_fragmentation: 0,
                fragments_created: 0,
            },
            icmpv4: IcmpV4Statistics {
                messages: NetworkData { received: 0, sent: 0 },
                errors: NetworkData { received: 0, sent: 0 },
                destination_unreachable: NetworkData { received: 0, sent: 0 },
                time_exceeded: NetworkData { received: 0, sent: 0 },
                parameter_problems: NetworkData { received: 0, sent: 0 },
                source_quenches: NetworkData { received: 0, sent: 0 },
                redirects: NetworkData { received: 0, sent: 0 },
                echo_replies: NetworkData { received: 0, sent: 0 },
                echos: NetworkData { received: 0, sent: 0 },
                timestamps: NetworkData { received: 0, sent: 0 },
                timestamp_replies: NetworkData { received: 0, sent: 0 },
                address_masks: NetworkData { received: 0, sent: 0 },
                address_mask_replies: NetworkData { received: 0, sent: 0 },
                router_solicitations: NetworkData { received: 0, sent: 0 },
                router_advertisements: NetworkData { received: 0, sent: 0 },
            },
            icmpv6: IcmpV6Statistics {
                messages: NetworkData { received: 0, sent: 0 },
                errors: NetworkData { received: 0, sent: 0 },
                destination_unreachable: NetworkData { received: 0, sent: 0 },
                packet_too_big: NetworkData { received: 0, sent: 0 },
                time_exceeded: NetworkData { received: 0, sent: 0 },
                parameter_problems: NetworkData { received: 0, sent: 0 },
                echos: NetworkData { received: 0, sent: 0 },
                echo_replies: NetworkData { received: 0, sent: 0 },
                mld_queries: NetworkData { received: 0, sent: 0 },
                mld_reports: NetworkData { received: 0, sent: 0 },
                mld_dones: NetworkData { received: 0, sent: 0 },
                router_solicitations: NetworkData { received: 0, sent: 0 },
                router_advertisements: NetworkData { received: 0, sent: 0 },
                neighbor_solicitations: NetworkData { received: 0, sent: 0 },
                neighbor_advertisements: NetworkData { received: 0, sent: 0 },
                redirects: NetworkData { received: 0, sent: 0 },
                router_renumberings: NetworkData { received: 0, sent: 0 },
            },
            tcp_ipv4: TcpV4Statistics {
                active_opens: 0,
                passive_opens: 0,
                failed_connection_attempts: 0,
                reset_connections: 0,
                current_connections: 0,
                segments_received: 0,
                segments_sent: 0,
                segments_retransmitted: 0,
            },
            tcp_ipv6: TcpV6Statistics {
                active_opens: 0,
                passive_opens: 0,
                failed_connection_attempts: 0,
                reset_connections: 0,
                current_connections: 0,
                segments_received: 0,
                segments_sent: 0,
                segments_retransmitted: 0,
            },
            udp_ipv4: UdpV4Statistics {
                datagrams_received: 0,
                no_ports: 0,
                receive_errors: 0,
                datagrams_sent: 0,
            },
            udp_ipv6: UdpV6Statistics {
                datagrams_received: 0,
                no_ports: 0,
                receive_errors: 0,
                datagrams_sent: 0,
            },
        }
    }

    /// Stores `value` as the counter that `which` names and leaves the rest
    /// of the report as it is.
    pub fn set_counter(&mut self, which: Counter, value: u64)
        ensures
            forall|other: Counter|
                #![trigger final(self).counter(other)]
                final(self).counter(other) == if other == which {
                    value
                } else {
                    old(self).counter(other)
                },
            forall|p: Pair| #![trigger final(self).pair(p)] final(self).pair(p) == old(self).pair(p),
    {
        match which {
            Counter::UnknownProtocols => self.interface.unknown_protocols = value,
            Counter::Ipv4(c) => self.ipv4.set_counter(c, value),
            Counter::Ipv6(c) => self.ipv6.set_counter(c, value),
            Counter::TcpIpv4(c) => self.tcp_ipv4.set_counter(c, value),
            Counter::TcpIpv6(c) => self.tcp_ipv6.set_counter(c, value),
            Counter::UdpIpv4(c) => self.udp_ipv4.set_counter(c, value),
            Counter::UdpIpv6(c) => self.udp_ipv6.set_counter(c, value),
        }
    }

    /// Stores `value` as the pair that `which` names and leaves the rest of
    /// the report as it is.
    pub fn set_pair(&mut self, which: Pair, value: NetworkData)
        ensures
            forall|other: Pair|
                #![trigger final(self).pair(other)]
                final(self).pair(other) == if other == which {
                    value
                } else {
                    old(self).pair(other)
                },
            forall|c: Counter|
                #![trigger final(self).counter(c)]
                final(self).counter(c) == old(self).counter(c),
    {
        match which {
            Pair::Interface(p) => self.interface.set_pair(p, value),
            Pair::Icmpv4(p) => self.icmpv4.set_pair(p, value),
            Pair::Icmpv6(p) => self.icmpv6.set_pair(p, value),
        }
    }

    /// The assembled report holds in each place what was given for it.
    pub proof fn lemma_assemble_reads(
        counter_of: spec_fn(Counter) -> u64,
        pair_of: spec_fn(Pair) -> NetworkData,
    )
        ensures
            forall|c: Counter|
                #![trigger NetworkStatistics::assemble(counter_of, pair_of).counter(c)]
                NetworkStatistics::assemble(counter_of, pair_of).counter(c) == counter_of(c),
            forall|p: Pair|
                #![trigger NetworkStatistics::assemble(counter_of, pair_of).pair(p)]
                NetworkStatistics::assemble(counter_of, pair_of).pair(p) == pair_of(p),
    {
    }

    /// A report is the report assembled from its own counters and pairs.
    pub proof fn lemma_assembled(self)
        ensures
            self == NetworkStatistics::assemble(
                |c: Counter| self.counter(c),
                |p: Pair| self.pair(p),
            ),
    {
    }

    /// Two reports with the same counters and the same pairs are the same
    /// report.
    pub proof fn lemma_same_fields(self, other: NetworkStatistics)
        requires
            forall|c: Counter| self.counter(c) == other.counter(c),
            forall|p: Pair| self.pair(p) == other.pair(p),
        ensures
            self == other,
    {
        self.lemma_assembled();
        other.lemma_assembled();
        let counters_a = |c: Counter| self.counter(c);
        let counters_b = |c: Counter| other.counter(c);
        let pairs_a = |p: Pair| self.pair(p);
        let pairs_b = |p: Pair| other.pair(p);
        assert(counters_a =~= counters_b);
        assert(pairs_a =~= pairs_b);
    }
}

} // verus!
