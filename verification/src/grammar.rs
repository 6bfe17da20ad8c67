//! The grammar of the statistics report: the sections with their titles,
//! the captions with their words, and the place of the report that each
//! caption stands for in each section.

use vstd::prelude::*;
use crate::report::{
    Counter, Icmpv4Pair, Icmpv6Pair, InterfacePair, IpCounter, Pair, TcpCounter, UdpCounter,
};
use crate::text::{chars_of, contains, holds_phrase, same_text, views};

verus! {

/// A part of the report. The report begins in the part of the interfaces.
#[derive(Clone, Copy, Debug, PartialEq, Eq)]
pub enum Section {
    Interface,
    Ipv4,
    Ipv6,
    Icmpv4,
    Icmpv6,
    TcpIpv4,
    TcpIpv6,
    UdpIpv4,
    UdpIpv6,
}

impl Section {
    /// The phrase that opens the section.
    pub open spec fn title(self) -> Seq<char> {
        match self {
            Section::Interface => "Interface Statistics"@,
            Section::Ipv4 => "IPv4 Statistics"@,
            Section::Ipv6 => "IPv6 Statistics"@,
            Section::Icmpv4 => "ICMPv4 Statistics"@,
            Section::Icmpv6 => "ICMPv6 Statistics"@,
            Section::TcpIpv4 => "TCP Statistics for IPv4"@,
            Section::TcpIpv6 => "TCP Statistics for IPv6"@,
            Section::UdpIpv4 => "UDP Statistics for IPv4"@,
            Section::UdpIpv6 => "UDP Statistics for IPv6"@,
        }
    }

    /// The phrase that opens the section, as text.
    pub fn title_text(&self) -> (title: &'static str)
        ensures
            title@ == self.title(),
    {
        match self {
            Section::Interface => "Interface Statistics",
            Section::Ipv4 => "IPv4 Statistics",
            Section::Ipv6 => "IPv6 Statistics",
            Section::Icmpv4 => "ICMPv4 Statistics",
            Section::Icmpv6 => "ICMPv6 Statistics",
            Section::TcpIpv4 => "TCP Statistics for IPv4",
            Section::TcpIpv6 => "TCP Statistics for IPv6",
            Section::UdpIpv4 => "UDP Statistics for IPv4",
            Section::UdpIpv6 => "UDP Statistics for IPv6",
        }
    }
}

/// The sections in the order in which a line is searched for their titles.
pub open spec fn sections() -> Seq<Section> {
    seq![
        Section::Interface,
        Section::Ipv4,
        Section::Ipv6,
        Section::Icmpv4,
        Section::Icmpv6,
        Section::TcpIpv4,
        Section::TcpIpv6,
        Section::UdpIpv4,
        Section::UdpIpv6,
    ]
}

/// The first section from position `from` of `sections()` on whose title
/// stands in `line`.
pub open spec fn heading_among(line: Seq<char>, from: int) -> Option<Section>
    decreases sections().len() - from,
{
    if from < 0 || from >= sections().len() {
        None
    } else if contains(line, sections()[from].title()) {
        Some(sections()[from])
    } else {
        heading_among(line, from + 1)
    }
}

/// The section that `line` opens, if it opens one.
pub open spec fn heading(line: Seq<char>) -> Option<Section> {
    heading_among(line, 0)
}

/// The section in force after `line`, when `current` was in force before.
pub open spec fn section_after(current: Section, line: Seq<char>) -> Section {
    match heading(line) {
        Some(section) => section,
        None => current,
    }
}

/// The captions that are followed by two numerals, received and sent.
#[derive(Clone, Copy, Debug, PartialEq, Eq)]
pub enum PairLabel {
    Bytes,
    UnicastPackets,
    NonUnicastPackets,
    Discards,
    Errors,
    Messages,
    DestinationUnreachable,
    TimeExceeded,
    ParameterProblems,
    SourceQuenches,
    Redirects,
    EchoReplies,
    Echos,
    Timestamps,
    TimestampsReplies,
    AddressMasks,
    AddressMasksReplies,
    MldQueries,
    MldReports,
    MldDones,
    RouterSolicitations,
    RouterAdvertisements,
    NeighborSolicitations,
    NeighborAdvertisements,
    RouterRenumberings,
}

/// The captions that are followed by one numeral.
#[derive(Clone, Copy, Debug, PartialEq, Eq)]
pub enum CounterLabel {
    UnknownProtocols,
    Ip(IpCounter),
    Tcp(TcpCounter),
    Udp(UdpCounter),
}

/// A caption that the parser knows.
#[derive(Clone, Copy, Debug, PartialEq, Eq)]
pub enum Label {
    Pair(PairLabel),
    Counter(CounterLabel),
}

/// The texts of `items`, in order.
pub open spec fn word_views(items: Seq<&'static str>) -> Seq<Seq<char>> {
    Seq::new(items.len(), |i: int| items[i]@)
}

impl PairLabel {
    /// The words of the caption.
    pub open spec fn caption(self) -> Seq<Seq<char>> {
        match self {
            PairLabel::Bytes => seq!["Bytes"@],
            PairLabel::UnicastPackets => seq!["Unicast"@, "packets"@],
            PairLabel::NonUnicastPackets => seq!["Non-unicast"@, "packets"@],
            PairLabel::Discards => seq!["Discards"@],
            PairLabel::Errors => seq!["Errors"@],
            PairLabel::Messages => seq!["Messages"@],
            PairLabel::DestinationUnreachable => seq!["Destination"@, "Unreachable"@],
            PairLabel::TimeExceeded => seq!["Time"@, "Exceeded"@],
            PairLabel::ParameterProblems => seq!["Parameter"@, "Problems"@],
            PairLabel::SourceQuenches => seq!["Source"@, "Quenches"@],
            PairLabel::Redirects => seq!["Redirects"@],
            PairLabel::EchoReplies => seq!["Echo"@, "Replies"@],
            PairLabel::Echos => seq!["Echos"@],
            PairLabel::Timestamps => seq!["Timestamps"@],
            PairLabel::TimestampsReplies => seq!["Timestamps"@, "Replies"@],
            PairLabel::AddressMasks => seq!["Address"@, "Masks"@],
            PairLabel::AddressMasksReplies => seq!["Address"@, "Masks"@, "Replies"@],
            PairLabel::MldQueries => seq!["MLD"@, "Queries"@],
            PairLabel::MldReports => seq!["MLD"@, "Reports"@],
            PairLabel::MldDones => seq!["MLD"@, "Dones"@],
            PairLabel::RouterSolicitations => seq!["Router"@, "Solicitations"@],
            PairLabel::RouterAdvertisements => seq!["Router"@, "Advertisements"@],
            PairLabel::NeighborSolicitations => seq!["Neighbor"@, "Solicitations"@],
            PairLabel::NeighborAdvertisements => seq!["Neighbor"@, "Advertisements"@],
            PairLabel::RouterRenumberings => seq!["Router"@, "Renumberings"@],
        }
    }

    /// The words of the caption, as texts.
    pub fn caption_words(&self) -> (caption: Vec<&'static str>)
        ensures
            word_views(caption@) == self.caption(),
    {
        let caption = match self {
            PairLabel::Bytes => vec!["Bytes"],
            PairLabel::UnicastPackets => vec!["Unicast", "packets"],
            PairLabel::NonUnicastPackets => vec!["Non-unicast", "packets"],
            PairLabel::Discards => vec!["Discards"],
            PairLabel::Errors => vec!["Errors"],
            PairLabel::Messages => vec!["Messages"],
            PairLabel::DestinationUnreachable => vec!["Destination", "Unreachable"],
            PairLabel::TimeExceeded => vec!["Time", "Exceeded"],
            PairLabel::ParameterProblems => vec!["Parameter", "Problems"],
            PairLabel::SourceQuenches => vec!["Source", "Quenches"],
            PairLabel::Redirects => vec!["Redirects"],
            PairLabel::EchoReplies => vec!["Echo", "Replies"],
            PairLabel::Echos => vec!["Echos"],
            PairLabel::Timestamps => vec!["Timestamps"],
            PairLabel::TimestampsReplies => vec!["Timestamps", "Replies"],
            PairLabel::AddressMasks => vec!["Address", "Masks"],
            PairLabel::AddressMasksReplies => vec!["Address", "Masks", "Replies"],
            PairLabel::MldQueries => vec!["MLD", "Queries"],
            PairLabel::MldReports => vec!["MLD", "Reports"],
            PairLabel::MldDones => vec!["MLD", "Dones"],
            PairLabel::RouterSolicitations => vec!["Router", "Solicitations"],
            PairLabel::RouterAdvertisements => vec!["Router", "Advertisements"],
            PairLabel::NeighborSolicitations => vec!["Neighbor", "Solicitations"],
            PairLabel::NeighborAdvertisements => vec!["Neighbor", "Advertisements"],
            PairLabel::RouterRenumberings => vec!["Router", "Renumberings"],
        };
        assert(word_views(caption@) =~= self.caption());
        caption
    }
}

/// The caption of an IP counter.
pub open spec fn ip_caption(counter: IpCounter) -> Seq<Seq<char>> {
    match counter {
        IpCounter::PacketsReceived => seq!["Packets"@, "Received"@, "="@],
        IpCounter::ReceivedHeaderErrors => seq!["Received"@, "Header"@, "Errors"@, "="@],
        IpCounter::ReceivedAddressErrors => seq!["Received"@, "Address"@, "Errors"@, "="@],
        IpCounter::DatagramsForwarded => seq!["Datagrams"@, "Forwarded"@, "="@],
        IpCounter::UnknownProtocolsReceived => seq!["Unknown"@, "Protocols"@, "Received"@, "="@],
        IpCounter::ReceivedPacketsDiscarded => seq!["Received"@, "Packets"@, "Discarded"@, "="@],
        IpCounter::ReceivedPacketsDelivered => seq!["Received"@, "Packets"@, "Delivered"@, "="@],
        IpCounter::OutputRequests => seq!["Output"@, "Requests"@, "="@],
        IpCounter::RoutingDiscards => seq!["Routing"@, "Discards"@, "="@],
        IpCounter::DiscardedOutputPackets => seq!["Discarded"@, "Output"@, "Packets"@, "="@],
        IpCounter::OutputPacketNoRoute => seq!["Output"@, "Packet"@, "No"@, "Route"@, "="@],
        IpCounter::ReassemblyRequired => seq!["Reassembly"@, "Required"@, "="@],
        IpCounter::ReassemblySuccessful => seq!["Reassembly"@, "Successful"@, "="@],
        IpCounter::ReassemblyFailures => seq!["Reassembly"@, "Failures"@, "="@],
        IpCounter::DatagramsSuccessfullyFragmented => seq!["Datagrams"@, "Successfully"@, "Fragmented"@, "="@],
        IpCounter::DatagramsFailingFragmentation => seq!["Datagrams"@, "Failing"@, "Fragmentation"@, "="@],
        IpCounter::FragmentsCreated => seq!["Fragments"@, "Created"@, "="@],
    }
}

/// The caption of a TCP counter.
pub open spec fn tcp_caption(counter: TcpCounter) -> Seq<Seq<char>> {
    match counter {
        TcpCounter::ActiveOpens => seq!["Active"@, "Opens"@, "="@],
        TcpCounter::PassiveOpens => seq!["Passive"@, "Opens"@, "="@],
        TcpCounter::FailedConnectionAttempts => seq!["Failed"@, "Connection"@, "Attempts"@, "="@],
        TcpCounter::ResetConnections => seq!["Reset"@, "Connections"@, "="@],
        TcpCounter::CurrentConnections => seq!["Current"@, "Connections"@, "="@],
        TcpCounter::SegmentsReceived => seq!["Segments"@, "Received"@, "="@],
        TcpCounter::SegmentsSent => seq!["Segments"@, "Sent"@, "="@],
        TcpCounter::SegmentsRetransmitted => seq!["Segments"@, "Retransmitted"@, "="@],
    }
}

/// The caption of a UDP counter.
pub open spec fn udp_caption(counter: UdpCounter) -> Seq<Seq<char>> {
    match counter {
        UdpCounter::DatagramsReceived => seq!["Datagrams"@, "Received"@, "="@],
        UdpCounter::NoPorts => seq!["No"@, "Ports"@, "="@],
        UdpCounter::ReceiveErrors => seq!["Receive"@, "Errors"@, "="@],
        UdpCounter::DatagramsSent => seq!["Datagrams"@, "Sent"@, "="@],
    }
}

fn ip_caption_words(counter: IpCounter) -> (caption: Vec<&'static str>)
    ensures
        word_views(caption@) == ip_caption(counter),
{
    let caption = match counter {
        IpCounter::PacketsReceived => vec!["Packets", "Received", "="],
        IpCounter::ReceivedHeaderErrors => vec!["Received", "Header", "Errors", "="],
        IpCounter::ReceivedAddressErrors => vec!["Received", "Address", "Errors", "="],
        IpCounter::DatagramsForwarded => vec!["Datagrams", "Forwarded", "="],
        IpCounter::UnknownProtocolsReceived => vec!["Unknown", "Protocols", "Received", "="],
        IpCounter::ReceivedPacketsDiscarded => vec!["Received", "Packets", "Discarded", "="],
        IpCounter::ReceivedPacketsDelivered => vec!["Received", "Packets", "Delivered", "="],
        IpCounter::OutputRequests => vec!["Output", "Requests", "="],
        IpCounter::RoutingDiscards => vec!["Routing", "Discards", "="],
        IpCounter::DiscardedOutputPackets => vec!["Discarded", "Output", "Packets", "="],
        IpCounter::OutputPacketNoRoute => vec!["Output", "Packet", "No", "Route", "="],
        IpCounter::ReassemblyRequired => vec!["Reassembly", "Required", "="],
        IpCounter::ReassemblySuccessful => vec!["Reassembly", "Successful", "="],
        IpCounter::ReassemblyFailures => vec!["Reassembly", "Failures", "="],
        IpCounter::DatagramsSuccessfullyFragmented => vec!["Datagrams", "Successfully", "Fragmented", "="],
        IpCounter::DatagramsFailingFragmentation => vec!["Datagrams", "Failing", "Fragmentation", "="],
        IpCounter::FragmentsCreated => vec!["Fragments", "Created", "="],
    };
    assert(word_views(caption@) =~= ip_caption(counter));
    caption
}

fn tcp_caption_words(counter: TcpCounter) -> (caption: Vec<&'static str>)
    ensures
        word_views(caption@) == tcp_caption(counter),
{
    let caption = match counter {
        TcpCounter::ActiveOpens => vec!["Active", "Opens", "="],
        TcpCounter::PassiveOpens => vec!["Passive", "Opens", "="],
        TcpCounter::FailedConnectionAttempts => vec!["Failed", "Connection", "Attempts", "="],
        TcpCounter::ResetConnections => vec!["Reset", "Connections", "="],
        TcpCounter::CurrentConnections => vec!["Current", "Connections", "="],
        TcpCounter::SegmentsReceived => vec!["Segments", "Received", "="],
        TcpCounter::SegmentsSent => vec!["Segments", "Sent", "="],
        TcpCounter::SegmentsRetransmitted => vec!["Segments", "Retransmitted", "="],
    };
    assert(word_views(caption@) =~= tcp_caption(counter));
    caption
}

fn udp_caption_words(counter: UdpCounter) -> (caption: Vec<&'static str>)
    ensures
        word_views(caption@) == udp_caption(counter),
{
    let caption = match counter {
        UdpCounter::DatagramsReceived => vec!["Datagrams", "Received", "="],
        UdpCounter::NoPorts => vec!["No", "Ports", "="],
        UdpCounter::ReceiveErrors => vec!["Receive", "Errors", "="],
        UdpCounter::DatagramsSent => vec!["Datagrams", "Sent", "="],
    };
    assert(word_views(caption@) =~= udp_caption(counter));
    caption
}

impl CounterLabel {
    /// The words of the caption, the equals sign included where the report
    /// prints one.
    pub open spec fn caption(self) -> Seq<Seq<char>> {
        match self {
            CounterLabel::UnknownProtocols => seq!["Unknown"@, "protocols"@],
            CounterLabel::Ip(counter) => ip_caption(counter),
            CounterLabel::Tcp(counter) => tcp_caption(counter),
            CounterLabel::Udp(counter) => udp_caption(counter),
        }
    }

    /// The words of the caption, as texts.
    pub fn caption_words(&self) -> (caption: Vec<&'static str>)
        ensures
            word_views(caption@) == self.caption(),
    {
        match self {
            CounterLabel::UnknownProtocols => {
                let caption = vec!["Unknown", "protocols"];
                assert(word_views(caption@) =~= self.caption());
                caption
            },
            CounterLabel::Ip(counter) => ip_caption_words(*counter),
            CounterLabel::Tcp(counter) => tcp_caption_words(*counter),
            CounterLabel::Udp(counter) => udp_caption_words(*counter),
        }
    }
}

impl Label {
    /// The words of the caption.
    pub open spec fn caption(self) -> Seq<Seq<char>> {
        match self {
            Label::Pair(label) => label.caption(),
            Label::Counter(label) => label.caption(),
        }
    }

    /// How many numerals follow the caption.
    pub open spec fn numerals(self) -> nat {
        match self {
            Label::Pair(_) => 2,
            Label::Counter(_) => 1,
        }
    }

    /// The words of the caption, as texts.
    pub fn caption_words(&self) -> (caption: Vec<&'static str>)
        ensures
            word_views(caption@) == self.caption(),
    {
        match self {
            Label::Pair(label) => label.caption_words(),
            Label::Counter(label) => label.caption_words(),
        }
    }

    /// How many numerals follow the caption.
    pub fn numeral_count(&self) -> (count: usize)
        ensures
            count == self.numerals(),
    {
        match self {
            Label::Pair(_) => 2,
            Label::Counter(_) => 1,
        }
    }
}

/// Every caption, in the order in which a line is held against them.
pub open spec fn labels() -> Seq<Label> {
    seq![
        Label::Pair(PairLabel::Bytes),
        Label::Pair(PairLabel::UnicastPackets),
        Label::Pair(PairLabel::NonUnicastPackets),
        Label::Pair(PairLabel::Discards),
        Label::Pair(PairLabel::Errors),
        Label::Counter(CounterLabel::UnknownProtocols),
        Label::Counter(CounterLabel::Ip(IpCounter::PacketsReceived)),
        Label::Counter(CounterLabel::Ip(IpCounter::ReceivedHeaderErrors)),
        Label::Counter(CounterLabel::Ip(IpCounter::ReceivedAddressErrors)),
        Label::Counter(CounterLabel::Ip(IpCounter::DatagramsForwarded)),
        Label::Counter(CounterLabel::Ip(IpCounter::UnknownProtocolsReceived)),
        Label::Counter(CounterLabel::Ip(IpCounter::ReceivedPacketsDiscarded)),
        Label::Counter(CounterLabel::Ip(IpCounter::ReceivedPacketsDelivered)),
        Label::Counter(CounterLabel::Ip(IpCounter::OutputRequests)),
        Label::Counter(CounterLabel::Ip(IpCounter::RoutingDiscards)),
        Label::Counter(CounterLabel::Ip(IpCounter::DiscardedOutputPackets)),
        Label::Counter(CounterLabel::Ip(IpCounter::OutputPacketNoRoute)),
        Label::Counter(CounterLabel::Ip(IpCounter::ReassemblyRequired)),
        Label::Counter(CounterLabel::Ip(IpCounter::ReassemblySuccessful)),
        Label::Counter(CounterLabel::Ip(IpCounter::ReassemblyFailures)),
        Label::Counter(CounterLabel::Ip(IpCounter::DatagramsSuccessfullyFragmented)),
        Label::Counter(CounterLabel::Ip(IpCounter::DatagramsFailingFragmentation)),
        Label::Counter(CounterLabel::Ip(IpCounter::FragmentsCreated)),
        Label::Pair(PairLabel::Messages),
        Label::Pair(PairLabel::DestinationUnreachable),
        Label::Pair(PairLabel::TimeExceeded),
        Label::Pair(PairLabel::ParameterProblems),
        Label::Pair(PairLabel::SourceQuenches),
        Label::Pair(PairLabel::Redirects),
        Label::Pair(PairLabel::EchoReplies),
        Label::Pair(PairLabel::Echos),
        Label::Pair(PairLabel::Timestamps),
        Label::Pair(PairLabel::TimestampsReplies),
        Label::Pair(PairLabel::AddressMasks),
        Label::Pair(PairLabel::AddressMasksReplies),
        Label::Pair(PairLabel::MldQueries),
        Label::Pair(PairLabel::MldReports),
        Label::Pair(PairLabel::MldDones),
        Label::Pair(PairLabel::RouterSolicitations),
        Label::Pair(PairLabel::RouterAdvertisements),
        Label::Pair(PairLabel::NeighborSolicitations),
        Label::Pair(PairLabel::NeighborAdvertisements),
        Label::Pair(PairLabel::RouterRenumberings),
        Label::Counter(CounterLabel::Tcp(TcpCounter::ActiveOpens)),
        Label::Counter(CounterLabel::Tcp(TcpCounter::PassiveOpens)),
        Label::Counter(CounterLabel::Tcp(TcpCounter::FailedConnectionAttempts)),
        Label::Counter(CounterLabel::Tcp(TcpCounter::ResetConnections)),
        Label::Counter(CounterLabel::Tcp(TcpCounter::CurrentConnections)),
        Label::Counter(CounterLabel::Tcp(TcpCounter::SegmentsReceived)),
        Label::Counter(CounterLabel::Tcp(TcpCounter::SegmentsSent)),
        Label::Counter(CounterLabel::Tcp(TcpCounter::SegmentsRetransmitted)),
        Label::Counter(CounterLabel::Udp(UdpCounter::DatagramsReceived)),
        Label::Counter(CounterLabel::Udp(UdpCounter::NoPorts)),
        Label::Counter(CounterLabel::Udp(UdpCounter::ReceiveErrors)),
        Label::Counter(CounterLabel::Udp(UdpCounter::DatagramsSent)),
    ]
}

/// Whether a line of the words `tokens` is made of the caption of `label`
/// followed by as many more words as the label has numerals.
pub open spec fn carries(tokens: Seq<Seq<char>>, label: Label) -> bool {
    let caption = label.caption();
    tokens.len() == caption.len() + label.numerals() && tokens.take(caption.len() as int)
        == caption
}

/// The first label from position `from` of `labels()` on that `tokens`
/// carries.
pub open spec fn label_among(tokens: Seq<Seq<char>>, from: int) -> Option<Label>
    decreases labels().len() - from,
{
    if from < 0 || from >= labels().len() {
        None
    } else if carries(tokens, labels()[from]) {
        Some(labels()[from])
    } else {
        label_among(tokens, from + 1)
    }
}

/// The caption that a line of the words `tokens` carries, if any.
pub open spec fn label_of(tokens: Seq<Seq<char>>) -> Option<Label> {
    label_among(tokens, 0)
}

impl PairLabel {
    /// The interface pair that the caption names, if it names one.
    pub open spec fn interface(self) -> Option<InterfacePair> {
        match self {
            PairLabel::Bytes => Some(InterfacePair::Bytes),
            PairLabel::UnicastPackets => Some(InterfacePair::UnicastPackets),
            PairLabel::NonUnicastPackets => Some(InterfacePair::NonUnicastPackets),
            PairLabel::Discards => Some(InterfacePair::Discards),
            PairLabel::Errors => Some(InterfacePair::Errors),
            _ => None,
        }
    }

    /// The ICMPv4 pair that the caption names, if it names one.
    pub open spec fn icmpv4(self) -> Option<Icmpv4Pair> {
        match self {
            PairLabel::Errors => Some(Icmpv4Pair::Errors),
            PairLabel::Messages => Some(Icmpv4Pair::Messages),
            PairLabel::DestinationUnreachable => Some(Icmpv4Pair::DestinationUnreachable),
            PairLabel::TimeExceeded => Some(Icmpv4Pair::TimeExceeded),
            PairLabel::ParameterProblems => Some(Icmpv4Pair::ParameterProblems),
            PairLabel::SourceQuenches => Some(Icmpv4Pair::SourceQuenches),
            PairLabel::Redirects => Some(Icmpv4Pair::Redirects),
            PairLabel::EchoReplies => Some(Icmpv4Pair::EchoReplies),
            PairLabel::Echos => Some(Icmpv4Pair::Echos),
            PairLabel::Timestamps => Some(Icmpv4Pair::Timestamps),
            PairLabel::TimestampsReplies => Some(Icmpv4Pair::Timestamps),
            PairLabel::AddressMasks => Some(Icmpv4Pair::AddressMasks),
            PairLabel::AddressMasksReplies => Some(Icmpv4Pair::AddressMaskReplies),
            PairLabel::RouterSolicitations => Some(Icmpv4Pair::RouterSolicitations),
            PairLabel::RouterAdvertisements => Some(Icmpv4Pair::RouterAdvertisements),
            _ => None,
        }
    }

    /// The ICMPv6 pair that the caption names, if it names one.
    pub open spec fn icmpv6(self) -> Option<Icmpv6Pair> {
        match self {
            PairLabel::Errors => Some(Icmpv6Pair::Errors),
            PairLabel::Messages => Some(Icmpv6Pair::Messages),
            PairLabel::DestinationUnreachable => Some(Icmpv6Pair::DestinationUnreachable),
            PairLabel::TimeExceeded => Some(Icmpv6Pair::TimeExceeded),
            PairLabel::ParameterProblems => Some(Icmpv6Pair::ParameterProblems),
            PairLabel::Redirects => Some(Icmpv6Pair::Redirects),
            PairLabel::EchoReplies => Some(Icmpv6Pair::EchoReplies),
            PairLabel::Echos => Some(Icmpv6Pair::Echos),
            PairLabel::MldQueries => Some(Icmpv6Pair::MldQueries),
            PairLabel::MldReports => Some(Icmpv6Pair::MldReports),
            PairLabel::MldDones => Some(Icmpv6Pair::MldDones),
            PairLabel::RouterSolicitations => Some(Icmpv6Pair::RouterSolicitations),
            PairLabel::RouterAdvertisements => Some(Icmpv6Pair::RouterAdvertisements),
            PairLabel::NeighborSolicitations => Some(Icmpv6Pair::NeighborSolicitations),
            PairLabel::NeighborAdvertisements => Some(Icmpv6Pair::NeighborAdvertisements),
            PairLabel::RouterRenumberings => Some(Icmpv6Pair::RouterRenumberings),
            _ => None,
        }
    }

    fn interface_pair(self) -> (pair: Option<InterfacePair>)
        ensures
            pair == self.interface(),
    {
        match self {
            PairLabel::Bytes => Some(InterfacePair::Bytes),
            PairLabel::UnicastPackets => Some(InterfacePair::UnicastPackets),
            PairLabel::NonUnicastPackets => Some(InterfacePair::NonUnicastPackets),
            PairLabel::Discards => Some(InterfacePair::Discards),
            PairLabel::Errors => Some(InterfacePair::Errors),
            _ => None,
        }
    }

    fn icmpv4_pair(self) -> (pair: Option<Icmpv4Pair>)
        ensures
            pair == self.icmpv4(),
    {
        match self {
            PairLabel::Errors => Some(Icmpv4Pair::Errors),
            PairLabel::Messages => Some(Icmpv4Pair::Messages),
            PairLabel::DestinationUnreachable => Some(Icmpv4Pair::DestinationUnreachable),
            PairLabel::TimeExceeded => Some(Icmpv4Pair::TimeExceeded),
            PairLabel::ParameterProblems => Some(Icmpv4Pair::ParameterProblems),
            PairLabel::SourceQuenches => Some(Icmpv4Pair::SourceQuenches),
            PairLabel::Redirects => Some(Icmpv4Pair::Redirects),
            PairLabel::EchoReplies => Some(Icmpv4Pair::EchoReplies),
            PairLabel::Echos => Some(Icmpv4Pair::Echos),
            PairLabel::Timestamps => Some(Icmpv4Pair::Timestamps),
            PairLabel::TimestampsReplies => Some(Icmpv4Pair::Timestamps),
            PairLabel::AddressMasks => Some(Icmpv4Pair::AddressMasks),
            PairLabel::AddressMasksReplies => Some(Icmpv4Pair::AddressMaskReplies),
            PairLabel::RouterSolicitations => Some(Icmpv4Pair::RouterSolicitations),
            PairLabel::RouterAdvertisements => Some(Icmpv4Pair::RouterAdvertisements),
            _ => None,
        }
    }

    fn icmpv6_pair(self) -> (pair: Option<Icmpv6Pair>)
        ensures
            pair == self.icmpv6(),
    {
        match self {
            PairLabel::Errors => Some(Icmpv6Pair::Errors),
            PairLabel::Messages => Some(Icmpv6Pair::Messages),
            PairLabel::DestinationUnreachable => Some(Icmpv6Pair::DestinationUnreachable),
            PairLabel::TimeExceeded => Some(Icmpv6Pair::TimeExceeded),
            PairLabel::ParameterProblems => Some(Icmpv6Pair::ParameterProblems),
            PairLabel::Redirects => Some(Icmpv6Pair::Redirects),
            PairLabel::EchoReplies => Some(Icmpv6Pair::EchoReplies),
            PairLabel::Echos => Some(Icmpv6Pair::Echos),
            PairLabel::MldQueries => Some(Icmpv6Pair::MldQueries),
            PairLabel::MldReports => Some(Icmpv6Pair::MldReports),
            PairLabel::MldDones => Some(Icmpv6Pair::MldDones),
            PairLabel::RouterSolicitations => Some(Icmpv6Pair::RouterSolicitations),
            PairLabel::RouterAdvertisements => Some(Icmpv6Pair::RouterAdvertisements),
            PairLabel::NeighborSolicitations => Some(Icmpv6Pair::NeighborSolicitations),
            PairLabel::NeighborAdvertisements => Some(Icmpv6Pair::NeighborAdvertisements),
            PairLabel::RouterRenumberings => Some(Icmpv6Pair::RouterRenumberings),
            _ => None,
        }
    }
}

/// The pair that a caption stands for in a section: inside an ICMP section
/// the pair of that record which the caption names, and otherwise, or
/// where that record has none of the name, the interface pair that it
/// names. So "Errors" is a pair of ICMP inside an ICMP section and of the
/// interfaces anywhere else.
pub open spec fn pair_in(label: PairLabel, section: Section) -> Option<Pair> {
    match section {
        Section::Icmpv4 if label.icmpv4() is Some => Some(Pair::Icmpv4(label.icmpv4().unwrap())),
        Section::Icmpv6 if label.icmpv6() is Some => Some(Pair::Icmpv6(label.icmpv6().unwrap())),
        _ => match label.interface() {
            Some(pair) => Some(Pair::Interface(pair)),
            None => None,
        },
    }
}

/// The counter that a caption stands for in a section, if it stands for
/// one there.
pub open spec fn counter_in(label: CounterLabel, section: Section) -> Option<Counter> {
    match (label, section) {
        (CounterLabel::UnknownProtocols, _) => Some(Counter::UnknownProtocols),
        (CounterLabel::Ip(counter), Section::Ipv4) => Some(Counter::Ipv4(counter)),
        (CounterLabel::Ip(counter), Section::Ipv6) => Some(Counter::Ipv6(counter)),
        (CounterLabel::Tcp(counter), Section::TcpIpv4) => Some(Counter::TcpIpv4(counter)),
        (CounterLabel::Tcp(counter), Section::TcpIpv6) => Some(Counter::TcpIpv6(counter)),
        (CounterLabel::Udp(counter), Section::UdpIpv4) => Some(Counter::UdpIpv4(counter)),
        (CounterLabel::Udp(counter), Section::UdpIpv6) => Some(Counter::UdpIpv6(counter)),
        _ => None,
    }
}

/// A place of the report that a line can set.
#[derive(Clone, Copy, Debug, PartialEq, Eq)]
pub enum Target {
    Pair(Pair),
    Counter(Counter),
}

/// The place that a line of the words `tokens` sets when `section` is in
/// force, if it sets one.
pub open spec fn addressed(tokens: Seq<Seq<char>>, section: Section) -> Option<Target> {
    match label_of(tokens) {
        Some(Label::Pair(label)) => match pair_in(label, section) {
            Some(pair) => Some(Target::Pair(pair)),
            None => None,
        },
        Some(Label::Counter(label)) => match counter_in(label, section) {
            Some(counter) => Some(Target::Counter(counter)),
            None => None,
        },
        None => None,
    }
}

/// The label found from `from` on is one that the line carries.
pub proof fn lemma_label_carried(tokens: Seq<Seq<char>>, from: int)
    requires
        label_among(tokens, from) is Some,
    ensures
        carries(tokens, label_among(tokens, from).unwrap()),
    decreases labels().len() - from,
{
    if 0 <= from < labels().len() && !carries(tokens, labels()[from]) {
        lemma_label_carried(tokens, from + 1);
    }
}

/// Whether `word` has `len` letters, the first of them `first` and the last
/// of them `last`.
spec fn spelled(word: Seq<char>, len: nat, first: char, last: char) -> bool {
    word.len() == len && len > 0 && word[0] == first && word[len - 1] == last
}

/// No two captions can be carried by the same line.
pub proof fn lemma_carries_one(tokens: Seq<Seq<char>>, a: Label, b: Label)
    requires
        carries(tokens, a),
        carries(tokens, b),
    ensures
        a == b,
{
    // Their length and their first and last letter tell the words apart
    // that stand in the same place of two captions.
    reveal_strlit("Bytes");
    assert(spelled("Bytes"@, 5, 'B', 's'));
    reveal_strlit("Unicast");
    assert(spelled("Unicast"@, 7, 'U', 't'));
    reveal_strlit("packets");
    assert(spelled("packets"@, 7, 'p', 's'));
    reveal_strlit("Non-unicast");
    assert(spelled("Non-unicast"@, 11, 'N', 't'));
    reveal_strlit("Discards");
    assert(spelled("Discards"@, 8, 'D', 's'));
    reveal_strlit("Errors");
    assert(spelled("Errors"@, 6, 'E', 's'));
    reveal_strlit("Messages");
    assert(spelled("Messages"@, 8, 'M', 's'));
    reveal_strlit("Destination");
    assert(spelled("Destination"@, 11, 'D', 'n'));
    reveal_strlit("Unreachable");
    assert(spelled("Unreachable"@, 11, 'U', 'e'));
    reveal_strlit("Time");
    assert(spelled("Time"@, 4, 'T', 'e'));
    reveal_strlit("Exceeded");
    assert(spelled("Exceeded"@, 8, 'E', 'd'));
    reveal_strlit("Parameter");
    assert(spelled("Parameter"@, 9, 'P', 'r'));
    reveal_strlit("Problems");
    assert(spelled("Problems"@, 8, 'P', 's'));
    reveal_strlit("Source");
    assert(spelled("Source"@, 6, 'S', 'e'));
    reveal_strlit("Quenches");
    assert(spelled("Quenches"@, 8, 'Q', 's'));
    reveal_strlit("Redirects");
    assert(spelled("Redirects"@, 9, 'R', 's'));
    reveal_strlit("Echo");
    assert(spelled("Echo"@, 4, 'E', 'o'));
    reveal_strlit("Replies");
    assert(spelled("Replies"@, 7, 'R', 's'));
    reveal_strlit("Echos");
    assert(spelled("Echos"@, 5, 'E', 's'));
    reveal_strlit("Timestamps");
    assert(spelled("Timestamps"@, 10, 'T', 's'));
    reveal_strlit("Address");
    assert(spelled("Address"@, 7, 'A', 's'));
    reveal_strlit("Masks");
    assert(spelled("Masks"@, 5, 'M', 's'));
    reveal_strlit("MLD");
    assert(spelled("MLD"@, 3, 'M', 'D'));
    reveal_strlit("Queries");
    assert(spelled("Queries"@, 7, 'Q', 's'));
    reveal_strlit("Reports");
    assert(spelled("Reports"@, 7, 'R', 's'));
    reveal_strlit("Dones");
    assert(spelled("Dones"@, 5, 'D', 's'));
    reveal_strlit("Router");
    assert(spelled("Router"@, 6, 'R', 'r'));
    reveal_strlit("Solicitations");
    assert(spelled("Solicitations"@, 13, 'S', 's'));
    reveal_strlit("Advertisements");
    assert(spelled("Advertisements"@, 14, 'A', 's'));
    reveal_strlit("Neighbor");
    assert(spelled("Neighbor"@, 8, 'N', 'r'));
    reveal_strlit("Renumberings");
    assert(spelled("Renumberings"@, 12, 'R', 's'));
    reveal_strlit("Unknown");
    assert(spelled("Unknown"@, 7, 'U', 'n'));
    reveal_strlit("protocols");
    assert(spelled("protocols"@, 9, 'p', 's'));
    reveal_strlit("Packets");
    assert(spelled("Packets"@, 7, 'P', 's'));
    reveal_strlit("Received");
    assert(spelled("Received"@, 8, 'R', 'd'));
    reveal_strlit("=");
    assert(spelled("="@, 1, '=', '='));
    reveal_strlit("Header");
    assert(spelled("Header"@, 6, 'H', 'r'));
    reveal_strlit("Datagrams");
    assert(spelled("Datagrams"@, 9, 'D', 's'));
    reveal_strlit("Forwarded");
    assert(spelled("Forwarded"@, 9, 'F', 'd'));
    reveal_strlit("Protocols");
    assert(spelled("Protocols"@, 9, 'P', 's'));
    reveal_strlit("Discarded");
    assert(spelled("Discarded"@, 9, 'D', 'd'));
    reveal_strlit("Delivered");
    assert(spelled("Delivered"@, 9, 'D', 'd'));
    reveal_strlit("Output");
    assert(spelled("Output"@, 6, 'O', 't'));
    reveal_strlit("Requests");
    assert(spelled("Requests"@, 8, 'R', 's'));
    reveal_strlit("Routing");
    assert(spelled("Routing"@, 7, 'R', 'g'));
    reveal_strlit("Packet");
    assert(spelled("Packet"@, 6, 'P', 't'));
    reveal_strlit("No");
    assert(spelled("No"@, 2, 'N', 'o'));
    reveal_strlit("Route");
    assert(spelled("Route"@, 5, 'R', 'e'));
    reveal_strlit("Reassembly");
    assert(spelled("Reassembly"@, 10, 'R', 'y'));
    reveal_strlit("Required");
    assert(spelled("Required"@, 8, 'R', 'd'));
    reveal_strlit("Successful");
    assert(spelled("Successful"@, 10, 'S', 'l'));
    reveal_strlit("Failures");
    assert(spelled("Failures"@, 8, 'F', 's'));
    reveal_strlit("Successfully");
    assert(spelled("Successfully"@, 12, 'S', 'y'));
    reveal_strlit("Fragmented");
    assert(spelled("Fragmented"@, 10, 'F', 'd'));
    reveal_strlit("Failing");
    assert(spelled("Failing"@, 7, 'F', 'g'));
    reveal_strlit("Fragmentation");
    assert(spelled("Fragmentation"@, 13, 'F', 'n'));
    reveal_strlit("Fragments");
    assert(spelled("Fragments"@, 9, 'F', 's'));
    reveal_strlit("Created");
    assert(spelled("Created"@, 7, 'C', 'd'));
    reveal_strlit("Active");
    assert(spelled("Active"@, 6, 'A', 'e'));
    reveal_strlit("Opens");
    assert(spelled("Opens"@, 5, 'O', 's'));
    reveal_strlit("Passive");
    assert(spelled("Passive"@, 7, 'P', 'e'));
    reveal_strlit("Failed");
    assert(spelled("Failed"@, 6, 'F', 'd'));
    reveal_strlit("Connection");
    assert(spelled("Connection"@, 10, 'C', 'n'));
    reveal_strlit("Attempts");
    assert(spelled("Attempts"@, 8, 'A', 's'));
    reveal_strlit("Reset");
    assert(spelled("Reset"@, 5, 'R', 't'));
    reveal_strlit("Connections");
    assert(spelled("Connections"@, 11, 'C', 's'));
    reveal_strlit("Current");
    assert(spelled("Current"@, 7, 'C', 't'));
    reveal_strlit("Segments");
    assert(spelled("Segments"@, 8, 'S', 's'));
    reveal_strlit("Sent");
    assert(spelled("Sent"@, 4, 'S', 't'));
    reveal_strlit("Retransmitted");
    assert(spelled("Retransmitted"@, 13, 'R', 'd'));
    reveal_strlit("Ports");
    assert(spelled("Ports"@, 5, 'P', 's'));
    reveal_strlit("Receive");
    assert(spelled("Receive"@, 7, 'R', 'e'));
    // These two agree in all three; their second letters differ.
    assert("Discarded"@[1] == 'i' && "Delivered"@[1] == 'e');
    let first = a.caption();
    let second = b.caption();
    assert forall|i: int| 0 <= i < first.len() implies tokens[i] == #[trigger] first[i] by {
        assert(tokens.take(first.len() as int)[i] == tokens[i]);
    }
    assert forall|i: int| 0 <= i < second.len() implies tokens[i] == #[trigger] second[i] by {
        assert(tokens.take(second.len() as int)[i] == tokens[i]);
    }
    assert(first.len() >= 1 && second.len() >= 1);
    assert(first[0] == second[0]);
    assert(first.len() >= 2 && second.len() >= 2 ==> first[1] == second[1]);
    assert(first.len() >= 3 && second.len() >= 3 ==> first[2] == second[2]);
    assert(first.len() >= 4 && second.len() >= 4 ==> first[3] == second[3]);
}

/// Every label stands in the table of labels.
pub proof fn lemma_labels_complete(label: Label)
    ensures
        exists|k: int| 0 <= k < labels().len() && labels()[k] == label,
{
    assert(labels()[0] == Label::Pair(PairLabel::Bytes));
    assert(labels()[1] == Label::Pair(PairLabel::UnicastPackets));
    assert(labels()[2] == Label::Pair(PairLabel::NonUnicastPackets));
    assert(labels()[3] == Label::Pair(PairLabel::Discards));
    assert(labels()[4] == Label::Pair(PairLabel::Errors));
    assert(labels()[5] == Label::Counter(CounterLabel::UnknownProtocols));
    assert(labels()[6] == Label::Counter(CounterLabel::Ip(IpCounter::PacketsReceived)));
    assert(labels()[7] == Label::Counter(CounterLabel::Ip(IpCounter::ReceivedHeaderErrors)));
    assert(labels()[8] == Label::Counter(CounterLabel::Ip(IpCounter::ReceivedAddressErrors)));
    assert(labels()[9] == Label::Counter(CounterLabel::Ip(IpCounter::DatagramsForwarded)));
    assert(labels()[10] == Label::Counter(CounterLabel::Ip(IpCounter::UnknownProtocolsReceived)));
    assert(labels()[11] == Label::Counter(CounterLabel::Ip(IpCounter::ReceivedPacketsDiscarded)));
    assert(labels()[12] == Label::Counter(CounterLabel::Ip(IpCounter::ReceivedPacketsDelivered)));
    assert(labels()[13] == Label::Counter(CounterLabel::Ip(IpCounter::OutputRequests)));
    assert(labels()[14] == Label::Counter(CounterLabel::Ip(IpCounter::RoutingDiscards)));
    assert(labels()[15] == Label::Counter(CounterLabel::Ip(IpCounter::DiscardedOutputPackets)));
    assert(labels()[16] == Label::Counter(CounterLabel::Ip(IpCounter::OutputPacketNoRoute)));
    assert(labels()[17] == Label::Counter(CounterLabel::Ip(IpCounter::ReassemblyRequired)));
    assert(labels()[18] == Label::Counter(CounterLabel::Ip(IpCounter::ReassemblySuccessful)));
    assert(labels()[19] == Label::Counter(CounterLabel::Ip(IpCounter::ReassemblyFailures)));
    assert(labels()[20] == Label::Counter(CounterLabel::Ip(IpCounter::DatagramsSuccessfullyFragmented)));
    assert(labels()[21] == Label::Counter(CounterLabel::Ip(IpCounter::DatagramsFailingFragmentation)));
    assert(labels()[22] == Label::Counter(CounterLabel::Ip(IpCounter::FragmentsCreated)));
    assert(labels()[23] == Label::Pair(PairLabel::Messages));
    assert(labels()[24] == Label::Pair(PairLabel::DestinationUnreachable));
    assert(labels()[25] == Label::Pair(PairLabel::TimeExceeded));
    assert(labels()[26] == Label::Pair(PairLabel::ParameterProblems));
    assert(labels()[27] == Label::Pair(PairLabel::SourceQuenches));
    assert(labels()[28] == Label::Pair(PairLabel::Redirects));
    assert(labels()[29] == Label::Pair(PairLabel::EchoReplies));
    assert(labels()[30] == Label::Pair(PairLabel::Echos));
    assert(labels()[31] == Label::Pair(PairLabel::Timestamps));
    assert(labels()[32] == Label::Pair(PairLabel::TimestampsReplies));
    assert(labels()[33] == Label::Pair(PairLabel::AddressMasks));
    assert(labels()[34] == Label::Pair(PairLabel::AddressMasksReplies));
    assert(labels()[35] == Label::Pair(PairLabel::MldQueries));
    assert(labels()[36] == Label::Pair(PairLabel::MldReports));
    assert(labels()[37] == Label::Pair(PairLabel::MldDones));
    assert(labels()[38] == Label::Pair(PairLabel::RouterSolicitations));
    assert(labels()[39] == Label::Pair(PairLabel::RouterAdvertisements));
    assert(labels()[40] == Label::Pair(PairLabel::NeighborSolicitations));
    assert(labels()[41] == Label::Pair(PairLabel::NeighborAdvertisements));
    assert(labels()[42] == Label::Pair(PairLabel::RouterRenumberings));
    assert(labels()[43] == Label::Counter(CounterLabel::Tcp(TcpCounter::ActiveOpens)));
    assert(labels()[44] == Label::Counter(CounterLabel::Tcp(TcpCounter::PassiveOpens)));
    assert(labels()[45] == Label::Counter(CounterLabel::Tcp(TcpCounter::FailedConnectionAttempts)));
    assert(labels()[46] == Label::Counter(CounterLabel::Tcp(TcpCounter::ResetConnections)));
    assert(labels()[47] == Label::Counter(CounterLabel::Tcp(TcpCounter::CurrentConnections)));
    assert(labels()[48] == Label::Counter(CounterLabel::Tcp(TcpCounter::SegmentsReceived)));
    assert(labels()[49] == Label::Counter(CounterLabel::Tcp(TcpCounter::SegmentsSent)));
    assert(labels()[50] == Label::Counter(CounterLabel::Tcp(TcpCounter::SegmentsRetransmitted)));
    assert(labels()[51] == Label::Counter(CounterLabel::Udp(UdpCounter::DatagramsReceived)));
    assert(labels()[52] == Label::Counter(CounterLabel::Udp(UdpCounter::NoPorts)));
    assert(labels()[53] == Label::Counter(CounterLabel::Udp(UdpCounter::ReceiveErrors)));
    assert(labels()[54] == Label::Counter(CounterLabel::Udp(UdpCounter::DatagramsSent)));
}

/// The search for a label finds one wherever the line carries a label of
/// the table from `from` on.
proof fn lemma_label_found(tokens: Seq<Seq<char>>, from: int, k: int)
    requires
        0 <= from <= k < labels().len(),
        carries(tokens, labels()[k]),
    ensures
        label_among(tokens, from) is Some,
    decreases k - from,
{
    if from < k && !carries(tokens, labels()[from]) {
        lemma_label_found(tokens, from + 1, k);
    }
}

/// The label of a line is the one label whose caption the line carries:
/// the order of the table decides nothing.
pub proof fn lemma_label_of_carried(tokens: Seq<Seq<char>>, label: Label)
    ensures
        label_of(tokens) == Some(label) <==> carries(tokens, label),
{
    if label_of(tokens) is Some {
        lemma_label_carried(tokens, 0);
    }
    if carries(tokens, label) {
        lemma_labels_complete(label);
        let k = choose|k: int| 0 <= k < labels().len() && labels()[k] == label;
        lemma_label_found(tokens, 0, k);
        lemma_label_carried(tokens, 0);
        lemma_carries_one(tokens, label, label_of(tokens).unwrap());
    }
}

/// A line made of the words of a caption and of as many more words as the
/// caption has numerals carries the label of that caption.
pub proof fn lemma_caption_line(label: Label, rest: Seq<Seq<char>>)
    requires
        rest.len() == label.numerals(),
    ensures
        label_of(label.caption() + rest) == Some(label),
{
    let tokens = label.caption() + rest;
    assert(tokens.take(label.caption().len() as int) =~= label.caption());
    lemma_label_of_carried(tokens, label);
}

/// A line made of the word "Errors" and two more words sets the errors of
/// ICMPv4 when it is read inside the ICMPv4 section, those of ICMPv6
/// inside the ICMPv6 section, and those of the interfaces in every other
/// section.
pub proof fn lemma_errors_line(received: Seq<char>, sent: Seq<char>, section: Section)
    ensures
        addressed(seq!["Errors"@, received, sent], section) == Some(
            Target::Pair(
                match section {
                    Section::Icmpv4 => Pair::Icmpv4(Icmpv4Pair::Errors),
                    Section::Icmpv6 => Pair::Icmpv6(Icmpv6Pair::Errors),
                    _ => Pair::Interface(InterfacePair::Errors),
                },
            ),
        ),
{
    let label = Label::Pair(PairLabel::Errors);
    lemma_caption_line(label, seq![received, sent]);
    assert(seq!["Errors"@, received, sent] =~= label.caption() + seq![received, sent]);
}

/// "Errors" stands for the errors of ICMPv4 inside the ICMPv4 section, for
/// those of ICMPv6 inside the ICMPv6 section, and for those of the
/// interfaces in every other section.
pub proof fn lemma_errors_by_section(section: Section)
    ensures
        pair_in(PairLabel::Errors, section) == Some(
            match section {
                Section::Icmpv4 => Pair::Icmpv4(Icmpv4Pair::Errors),
                Section::Icmpv6 => Pair::Icmpv6(Icmpv6Pair::Errors),
                _ => Pair::Interface(InterfacePair::Errors),
            },
        ),
{
}

/// The texts that a sequence of vectors holds, in order.
pub open spec fn texts(items: Seq<Vec<char>>) -> Seq<Seq<char>> {
    Seq::new(items.len(), |i: int| items[i]@)
}

/// A caption with its words split once and for all.
struct Rule {
    label: Label,
    caption: Vec<Vec<char>>,
}

/// A section with the characters of its title.
struct Heading {
    section: Section,
    title: Vec<char>,
}

/// What the parser holds every line against.
pub(crate) struct Grammar {
    rules: Vec<Rule>,
    headings: Vec<Heading>,
}

impl Grammar {
    /// The tables hold every label and every section, in order, each with
    /// its own text.
    pub(crate) closed spec fn wf(self) -> bool {
        &&& self.rules@.len() == labels().len()
        &&& forall|k: int|
            0 <= k < self.rules@.len() ==> {
                &&& (#[trigger] self.rules@[k]).label == labels()[k]
                &&& texts(self.rules@[k].caption@) == labels()[k].caption()
            }
        &&& self.headings@.len() == sections().len()
        &&& forall|k: int|
            0 <= k < self.headings@.len() ==> {
                &&& (#[trigger] self.headings@[k]).section == sections()[k]
                &&& self.headings@[k].title@ == sections()[k].title()
            }
    }

    pub(crate) fn new() -> (grammar: Grammar)
        ensures
            grammar.wf(),
    {
        let all = label_table();
        let mut rules: Vec<Rule> = Vec::new();
        let mut k: usize = 0;
        while k < all.len()
            invariant
                k <= all.len(),
                all@ == labels(),
                rules@.len() == k,
                forall|j: int|
                    0 <= j < k ==> {
                        &&& (#[trigger] rules@[j]).label == labels()[j]
                        &&& texts(rules@[j].caption@) == labels()[j].caption()
                    },
            decreases all.len() - k,
        {
            let label = all[k];
            rules.push(Rule { label, caption: owned_words(&label.caption_words()) });
            k = k + 1;
        }
        let named = section_table();
        let mut headings: Vec<Heading> = Vec::new();
        let mut k: usize = 0;
        while k < named.len()
            invariant
                k <= named.len(),
                named@ == sections(),
                headings@.len() == k,
                forall|j: int|
                    0 <= j < k ==> {
                        &&& (#[trigger] headings@[j]).section == sections()[j]
                        &&& headings@[j].title@ == sections()[j].title()
                    },
            decreases named.len() - k,
        {
            let section = named[k];
            headings.push(Heading { section, title: chars_of(section.title_text()) });
            k = k + 1;
        }
        Grammar { rules, headings }
    }

    /// Finds the caption that a line carries.
    pub(crate) fn label_of(&self, tokens: &Vec<&[char]>) -> (label: Option<Label>)
        requires
            self.wf(),
        ensures
            label == label_of(views(tokens@)),
    {
        let mut k: usize = 0;
        while k < self.rules.len()
            invariant
                self.wf(),
                k <= self.rules.len(),
                label_of(views(tokens@)) == label_among(views(tokens@), k as int),
            decreases self.rules.len() - k,
        {
            let rule = &self.rules[k];
            if carries_caption(tokens, &rule.caption, rule.label.numeral_count()) {
                return Some(rule.label);
            }
            k = k + 1;
        }
        None
    }

    /// Finds the section that a line opens.
    pub(crate) fn heading_of(&self, line: &[char]) -> (section: Option<Section>)
        requires
            self.wf(),
        ensures
            section == heading(line@),
    {
        let mut k: usize = 0;
        while k < self.headings.len()
            invariant
                self.wf(),
                k <= self.headings.len(),
                heading(line@) == heading_among(line@, k as int),
            decreases self.headings.len() - k,
        {
            let entry = &self.headings[k];
            if holds_phrase(line, entry.title.as_slice()) {
                return Some(entry.section);
            }
            k = k + 1;
        }
        None
    }
}

/// Every label, in the order of `labels()`.
fn label_table() -> (table: Vec<Label>)
    ensures
        table@ == labels(),
{
    let table = vec![
        Label::Pair(PairLabel::Bytes),
        Label::Pair(PairLabel::UnicastPackets),
        Label::Pair(PairLabel::NonUnicastPackets),
        Label::Pair(PairLabel::Discards),
        Label::Pair(PairLabel::Errors),
        Label::Counter(CounterLabel::UnknownProtocols),
        Label::Counter(CounterLabel::Ip(IpCounter::PacketsReceived)),
        Label::Counter(CounterLabel::Ip(IpCounter::ReceivedHeaderErrors)),
        Label::Counter(CounterLabel::Ip(IpCounter::ReceivedAddressErrors)),
        Label::Counter(CounterLabel::Ip(IpCounter::DatagramsForwarded)),
        Label::Counter(CounterLabel::Ip(IpCounter::UnknownProtocolsReceived)),
        Label::Counter(CounterLabel::Ip(IpCounter::ReceivedPacketsDiscarded)),
        Label::Counter(CounterLabel::Ip(IpCounter::ReceivedPacketsDelivered)),
        Label::Counter(CounterLabel::Ip(IpCounter::OutputRequests)),
        Label::Counter(CounterLabel::Ip(IpCounter::RoutingDiscards)),
        Label::Counter(CounterLabel::Ip(IpCounter::DiscardedOutputPackets)),
        Label::Counter(CounterLabel::Ip(IpCounter::OutputPacketNoRoute)),
        Label::Counter(CounterLabel::Ip(IpCounter::ReassemblyRequired)),
        Label::Counter(CounterLabel::Ip(IpCounter::ReassemblySuccessful)),
        Label::Counter(CounterLabel::Ip(IpCounter::ReassemblyFailures)),
        Label::Counter(CounterLabel::Ip(IpCounter::DatagramsSuccessfullyFragmented)),
        Label::Counter(CounterLabel::Ip(IpCounter::DatagramsFailingFragmentation)),
        Label::Counter(CounterLabel::Ip(IpCounter::FragmentsCreated)),
        Label::Pair(PairLabel::Messages),
        Label::Pair(PairLabel::DestinationUnreachable),
        Label::Pair(PairLabel::TimeExceeded),
        Label::Pair(PairLabel::ParameterProblems),
        Label::Pair(PairLabel::SourceQuenches),
        Label::Pair(PairLabel::Redirects),
        Label::Pair(PairLabel::EchoReplies),
        Label::Pair(PairLabel::Echos),
        Label::Pair(PairLabel::Timestamps),
        Label::Pair(PairLabel::TimestampsReplies),
        Label::Pair(PairLabel::AddressMasks),
        Label::Pair(PairLabel::AddressMasksReplies),
        Label::Pair(PairLabel::MldQueries),
        Label::Pair(PairLabel::MldReports),
        Label::Pair(PairLabel::MldDones),
        Label::Pair(PairLabel::RouterSolicitations),
        Label::Pair(PairLabel::RouterAdvertisements),
        Label::Pair(PairLabel::NeighborSolicitations),
        Label::Pair(PairLabel::NeighborAdvertisements),
        Label::Pair(PairLabel::RouterRenumberings),
        Label::Counter(CounterLabel::Tcp(TcpCounter::ActiveOpens)),
        Label::Counter(CounterLabel::Tcp(TcpCounter::PassiveOpens)),
        Label::Counter(CounterLabel::Tcp(TcpCounter::FailedConnectionAttempts)),
        Label::Counter(CounterLabel::Tcp(TcpCounter::ResetConnections)),
        Label::Counter(CounterLabel::Tcp(TcpCounter::CurrentConnections)),
        Label::Counter(CounterLabel::Tcp(TcpCounter::SegmentsReceived)),
        Label::Counter(CounterLabel::Tcp(TcpCounter::SegmentsSent)),
        Label::Counter(CounterLabel::Tcp(TcpCounter::SegmentsRetransmitted)),
        Label::Counter(CounterLabel::Udp(UdpCounter::DatagramsReceived)),
        Label::Counter(CounterLabel::Udp(UdpCounter::NoPorts)),
        Label::Counter(CounterLabel::Udp(UdpCounter::ReceiveErrors)),
        Label::Counter(CounterLabel::Udp(UdpCounter::DatagramsSent)),
    ];
    assert(table@ =~= labels());
    table
}

/// Every section, in the order of `sections()`.
fn section_table() -> (table: Vec<Section>)
    ensures
        table@ == sections(),
{
    let table = vec![
        Section::Interface,
        Section::Ipv4,
        Section::Ipv6,
        Section::Icmpv4,
        Section::Icmpv6,
        Section::TcpIpv4,
        Section::TcpIpv6,
        Section::UdpIpv4,
        Section::UdpIpv6,
    ];
    assert(table@ =~= sections());
    table
}

/// The words of a caption, each in a vector of its own.
fn owned_words(caption: &Vec<&'static str>) -> (out: Vec<Vec<char>>)
    ensures
        texts(out@) == word_views(caption@),
{
    let mut out: Vec<Vec<char>> = Vec::new();
    let mut k: usize = 0;
    while k < caption.len()
        invariant
            k <= caption.len(),
            out@.len() == k,
            forall|j: int| 0 <= j < k ==> (#[trigger] out@[j])@ == caption@[j]@,
        decreases caption.len() - k,
    {
        out.push(chars_of(caption[k]));
        k = k + 1;
    }
    assert(texts(out@) =~= word_views(caption@));
    out
}

/// Whether a line is made of the words of `caption` and `numerals` more.
fn carries_caption(tokens: &Vec<&[char]>, caption: &Vec<Vec<char>>, numerals: usize) -> (b: bool)
    requires
        numerals <= 2,
    ensures
        b == (views(tokens@).len() == texts(caption@).len() + numerals && views(tokens@).take(
            texts(caption@).len() as int,
        ) == texts(caption@)),
{
    if tokens.len() < numerals || tokens.len() - numerals != caption.len() {
        return false;
    }
    let ghost head = views(tokens@).take(caption@.len() as int);
    let mut k: usize = 0;
    while k < caption.len()
        invariant
            k <= caption.len(),
            caption.len() + numerals == tokens.len(),
            head == views(tokens@).take(caption@.len() as int),
            forall|j: int| 0 <= j < k ==> head[j] == (#[trigger] caption@[j])@,
        decreases caption.len() - k,
    {
        if !same_text(tokens[k], caption[k].as_slice()) {
            assert(head[k as int] != texts(caption@)[k as int]);
            return false;
        }
        k = k + 1;
    }
    assert(head =~= texts(caption@));
    true
}

/// Decides which pair a caption stands for in a section.
pub(crate) fn route_pair(label: PairLabel, section: Section) -> (pair: Option<Pair>)
    ensures
        pair == pair_in(label, section),
{
    let local = match section {
        Section::Icmpv4 => match label.icmpv4_pair() {
            Some(pair) => Some(Pair::Icmpv4(pair)),
            None => None,
        },
        Section::Icmpv6 => match label.icmpv6_pair() {
            Some(pair) => Some(Pair::Icmpv6(pair)),
            None => None,
        },
        _ => None,
    };
    match local {
        Some(pair) => Some(pair),
        None => match label.interface_pair() {
            Some(pair) => Some(Pair::Interface(pair)),
            None => None,
        },
    }
}

/// Decides which counter a caption stands for in a section.
pub(crate) fn route_counter(label: CounterLabel, section: Section) -> (counter: Option<Counter>)
    ensures
        counter == counter_in(label, section),
{
    match (label, section) {
        (CounterLabel::UnknownProtocols, _) => Some(Counter::UnknownProtocols),
        (CounterLabel::Ip(counter), Section::Ipv4) => Some(Counter::Ipv4(counter)),
        (CounterLabel::Ip(counter), Section::Ipv6) => Some(Counter::Ipv6(counter)),
        (CounterLabel::Tcp(counter), Section::TcpIpv4) => Some(Counter::TcpIpv4(counter)),
        (CounterLabel::Tcp(counter), Section::TcpIpv6) => Some(Counter::TcpIpv6(counter)),
        (CounterLabel::Udp(counter), Section::UdpIpv4) => Some(Counter::UdpIpv4(counter)),
        (CounterLabel::Udp(counter), Section::UdpIpv6) => Some(Counter::UdpIpv6(counter)),
        _ => None,
    }
}

} // verus!
