use net_process::parse_stats;

#[test]
fn test_parse_stats() {
    let input = r#"
    Interface Statistics

    Received            Sent

    Bytes                    1279913096        89768387
    Unicast packets              961149          234136
    Non-unicast packets            2660          325731
    Discards                          0               0
    Errors                            0               0
    Unknown protocols                 0

    IPv4 Statistics

    Packets Received                   = 60090845
    Received Header Errors             = 0
    Received Address Errors            = 0
    Datagrams Forwarded                = 0
    Unknown Protocols Received         = 0
    Received Packets Discarded         = 25269
    Received Packets Delivered         = 60259935
    Output Requests                    = 30189260
    Routing Discards                   = 0
    Discarded Output Packets           = 21685
    Output Packet No Route             = 403
    Reassembly Required                = 3
    Reassembly Successful              = 1
    Reassembly Failures                = 0
    Datagrams Successfully Fragmented  = 0
    Datagrams Failing Fragmentation    = 0
    Fragments Created                  = 0

    IPv6 Statistics

    Packets Received                   = 154566
    Received Header Errors             = 0
    Received Address Errors            = 1262
    Datagrams Forwarded                = 0
    Unknown Protocols Received         = 0
    Received Packets Discarded         = 5824
    Received Packets Delivered         = 175651
    Output Requests                    = 190416
    Routing Discards                   = 0
    Discarded Output Packets           = 3039
    Output Packet No Route             = 0
    Reassembly Required                = 0
    Reassembly Successful              = 0
    Reassembly Failures                = 0
    Datagrams Successfully Fragmented  = 0
    Datagrams Failing Fragmentation    = 0
    Fragments Created                  = 0

    ICMPv4 Statistics

        Received    Sent
    Messages                  16443       22923
    Errors                    0           0
    Destination Unreachable   16442       22923
    Time Exceeded             1           0
    Parameter Problems        0           0
    Source Quenches           0           0
    Redirects                 0           0
    Echo Replies              0           0
    Echos                     0           0
    Timestamps                0           0
    Timestamp Replies         0           0
    Address Masks             0           0
    Address Mask Replies      0           0
    Router Solicitations      0           0
    Router Advertisements     0           0

    ICMPv6 Statistics

        Received    Sent
    Messages                  19333       36465
    Errors                    0           0
    Destination Unreachable   499         4590
    Packet Too Big            0           0
    Time Exceeded             0           0
    Parameter Problems        0           0
    Echos                     0           0
    Echo Replies              0           0
    MLD Queries               0           0
    MLD Reports               0           0
    MLD Dones                 0           0
    Router Solicitations      0           212
    Router Advertisements     1500        0
    Neighbor Solicitations    8344        23234
    Neighbor Advertisements   8990        8429
    Redirects                 0           0
    Router Renumberings       0           0

    TCP Statistics for IPv4

    Active Opens                        = 64644
    Passive Opens                       = 7674
    Failed Connection Attempts          = 5800
    Reset Connections                   = 12164
    Current Connections                 = 24
    Segments Received                   = 19099006
    Segments Sent                       = 18364045
    Segments Retransmitted              = 24199

    TCP Statistics for IPv6

    Active Opens                        = 2103
    Passive Opens                       = 603
    Failed Connection Attempts          = 5927
    Reset Connections                   = 519
    Current Connections                 = 0
    Segments Received                   = 104587
    Segments Sent                       = 100502
    Segments Retransmitted              = 4152

    UDP Statistics for IPv4

    Datagrams Received    = 53860170
    No Ports              = 25351
    Receive Errors        = 26
    Datagrams Sent        = 24325877

    UDP Statistics for IPv6

    Datagrams Received    = 234072
    No Ports              = 5641
    Receive Errors        = 9
    Datagrams Sent        = 147179
    "#;

    let stats = parse_stats(input).unwrap();

    assert_eq!(stats.interface.bytes.received, 1279913096);
    assert_eq!(stats.interface.bytes.sent, 89768387);
    assert_eq!(stats.interface.unicast_packets.received, 961149);
    assert_eq!(stats.interface.unicast_packets.sent, 234136);
    assert_eq!(stats.interface.non_unicast_packets.received, 2660);
    assert_eq!(stats.interface.non_unicast_packets.sent, 325731);
    assert_eq!(stats.interface.discards.received, 0);
    assert_eq!(stats.interface.discards.sent, 0);
    assert_eq!(stats.interface.errors.received, 0);
    assert_eq!(stats.interface.errors.sent, 0);
    assert_eq!(stats.interface.unknown_protocols, 0);

    assert_eq!(stats.ipv4.packets_received, 60090845);
    assert_eq!(stats.ipv4.received_header_errors, 0);
    assert_eq!(stats.ipv4.received_address_errors, 0);
    assert_eq!(stats.ipv4.datagrams_forwarded, 0);
    assert_eq!(stats.ipv4.unknown_protocols_received, 0);
    assert_eq!(stats.ipv4.received_packets_discarded, 25269);
    assert_eq!(stats.ipv4.received_packets_delivered, 60259935);
    assert_eq!(stats.ipv4.output_requests, 30189260);
    assert_eq!(stats.ipv4.routing_discards, 0);
    assert_eq!(stats.ipv4.discarded_output_packets, 21685);
    assert_eq!(stats.ipv4.output_packet_no_route, 403);
    assert_eq!(stats.ipv4.reassembly_required, 3);
    assert_eq!(stats.ipv4.reassembly_successful, 1);
    assert_eq!(stats.ipv4.reassembly_failures, 0);
    assert_eq!(stats.ipv4.datagrams_successfully_fragmented, 0);
    assert_eq!(stats.ipv4.datagrams_failing_fragmentation, 0);
    assert_eq!(stats.ipv4.fragments_created, 0);

    assert_eq!(stats.ipv6.packets_received, 154566);
    assert_eq!(stats.ipv6.received_header_errors, 0);
    assert_eq!(stats.ipv6.received_address_errors, 1262);
    assert_eq!(stats.ipv6.datagrams_forwarded, 0);
    assert_eq!(stats.ipv6.unknown_protocols_received, 0);
    assert_eq!(stats.ipv6.received_packets_discarded, 5824);
    assert_eq!(stats.ipv6.received_packets_delivered, 175651);
    assert_eq!(stats.ipv6.output_requests, 190416);
    assert_eq!(stats.ipv6.routing_discards, 0);
    assert_eq!(stats.ipv6.discarded_output_packets, 3039);
    assert_eq!(stats.ipv6.output_packet_no_route, 0);
    assert_eq!(stats.ipv6.reassembly_required, 0);
    assert_eq!(stats.ipv6.reassembly_successful, 0);
    assert_eq!(stats.ipv6.reassembly_failures, 0);
    assert_eq!(stats.ipv6.datagrams_successfully_fragmented, 0);
    assert_eq!(stats.ipv6.datagrams_failing_fragmentation, 0);
    assert_eq!(stats.ipv6.fragments_created, 0);

    assert_eq!(stats.icmpv4.messages.received, 16443);
    assert_eq!(stats.icmpv4.messages.sent, 22923);
    assert_eq!(stats.icmpv4.errors.received, 0);
    assert_eq!(stats.icmpv4.errors.sent, 0);
    assert_eq!(stats.icmpv4.destination_unreachable.received, 16442);
    assert_eq!(stats.icmpv4.destination_unreachable.sent, 22923);
    assert_eq!(stats.icmpv4.time_exceeded.received, 1);
    assert_eq!(stats.icmpv4.time_exceeded.sent, 0);
    assert_eq!(stats.icmpv4.parameter_problems.received, 0);
    assert_eq!(stats.icmpv4.parameter_problems.sent, 0);
    assert_eq!(stats.icmpv4.source_quenches.received, 0);
    assert_eq!(stats.icmpv4.source_quenches.sent, 0);
    assert_eq!(stats.icmpv4.redirects.received, 0);
    assert_eq!(stats.icmpv4.redirects.sent, 0);
    assert_eq!(stats.icmpv4.echo_replies.received, 0);
    assert_eq!(stats.icmpv4.echo_replies.sent, 0);
    assert_eq!(stats.icmpv4.echos.received, 0);
    assert_eq!(stats.icmpv4.echos.sent, 0);
    assert_eq!(stats.icmpv4.timestamps.received, 0);
    assert_eq!(stats.icmpv4.timestamps.sent, 0);
    assert_eq!(stats.icmpv4.address_masks.received, 0);
    assert_eq!(stats.icmpv4.address_masks.sent, 0);
    assert_eq!(stats.icmpv4.address_mask_replies.received, 0);
    assert_eq!(stats.icmpv4.address_mask_replies.sent, 0);
    assert_eq!(stats.icmpv4.router_solicitations.received, 0);
    assert_eq!(stats.icmpv4.router_solicitations.sent, 0);
    assert_eq!(stats.icmpv4.router_advertisements.received, 0);
    assert_eq!(stats.icmpv4.router_advertisements.sent, 0);

    assert_eq!(stats.icmpv6.messages.received, 19333);
    assert_eq!(stats.icmpv6.messages.sent, 36465);
    assert_eq!(stats.icmpv6.errors.received, 0);
    assert_eq!(stats.icmpv6.errors.sent, 0);
    assert_eq!(stats.icmpv6.destination_unreachable.received, 499);
    assert_eq!(stats.icmpv6.destination_unreachable.sent, 4590);
    assert_eq!(stats.icmpv6.time_exceeded.received, 0);
    assert_eq!(stats.icmpv6.time_exceeded.sent, 0);
    assert_eq!(stats.icmpv6.parameter_problems.received, 0);
    assert_eq!(stats.icmpv6.parameter_problems.sent, 0);
    assert_eq!(stats.icmpv6.redirects.received, 0);
    assert_eq!(stats.icmpv6.redirects.sent, 0);
    assert_eq!(stats.icmpv6.echos.received, 0);
    assert_eq!(stats.icmpv6.echos.sent, 0);
    assert_eq!(stats.icmpv6.echo_replies.received, 0);
    assert_eq!(stats.icmpv6.echo_replies.sent, 0);
    assert_eq!(stats.icmpv6.mld_queries.received, 0);
    assert_eq!(stats.icmpv6.mld_queries.sent, 0);
    assert_eq!(stats.icmpv6.mld_reports.received, 0);
    assert_eq!(stats.icmpv6.mld_reports.sent, 0);
    assert_eq!(stats.icmpv6.mld_dones.received, 0);
    assert_eq!(stats.icmpv6.mld_dones.sent, 0);
    assert_eq!(stats.icmpv6.router_solicitations.received, 0);
    assert_eq!(stats.icmpv6.router_solicitations.sent, 212);
    assert_eq!(stats.icmpv6.router_advertisements.received, 1500);
    assert_eq!(stats.icmpv6.router_advertisements.sent, 0);
    assert_eq!(stats.icmpv6.neighbor_solicitations.received, 8344);
    assert_eq!(stats.icmpv6.neighbor_solicitations.sent, 23234);
    assert_eq!(stats.icmpv6.neighbor_advertisements.received, 8990);
    assert_eq!(stats.icmpv6.neighbor_advertisements.sent, 8429);
    assert_eq!(stats.icmpv6.router_renumberings.received, 0);
    assert_eq!(stats.icmpv6.router_renumberings.sent, 0);

    assert_eq!(stats.tcp_ipv4.active_opens, 64644);
    assert_eq!(stats.tcp_ipv4.passive_opens, 7674);
    assert_eq!(stats.tcp_ipv4.failed_connection_attempts, 5800);
    assert_eq!(stats.tcp_ipv4.reset_connections, 12164);
    assert_eq!(stats.tcp_ipv4.current_connections, 24);
    assert_eq!(stats.tcp_ipv4.segments_received, 19099006);
    assert_eq!(stats.tcp_ipv4.segments_sent, 18364045);
    assert_eq!(stats.tcp_ipv4.segments_retransmitted, 24199);

    assert_eq!(stats.tcp_ipv6.active_opens, 2103);
    assert_eq!(stats.tcp_ipv6.passive_opens, 603);
    assert_eq!(stats.tcp_ipv6.failed_connection_attempts, 5927);
    assert_eq!(stats.tcp_ipv6.reset_connections, 519);
    assert_eq!(stats.tcp_ipv6.current_connections, 0);
    assert_eq!(stats.tcp_ipv6.segments_received, 104587);
    assert_eq!(stats.tcp_ipv6.segments_sent, 100502);
    assert_eq!(stats.tcp_ipv6.segments_retransmitted, 4152);

    assert_eq!(stats.udp_ipv4.datagrams_received, 53860170);
    assert_eq!(stats.udp_ipv4.no_ports, 25351);
    assert_eq!(stats.udp_ipv4.receive_errors, 26);
    assert_eq!(stats.udp_ipv4.datagrams_sent, 24325877);

    assert_eq!(stats.udp_ipv6.datagrams_received, 234072);
    assert_eq!(stats.udp_ipv6.no_ports, 5641);
    assert_eq!(stats.udp_ipv6.receive_errors, 9);
    assert_eq!(stats.udp_ipv6.datagrams_sent, 147179);
}

#[test]
fn lib_test_parse_stats() {
    let input = r#"
    Interface Statistics

    Received            Sent

    Bytes                    1279913096        89768387
    Unicast packets              961149          234136
    Non-unicast packets            2660          325731
    Discards                          0               0
    Errors                            0               0
    Unknown protocols                 0

    IPv4 Statistics

    Packets Received                   = 60090845
    Received Header Errors             = 0
    Received Address Errors            = 0
    Datagrams Forwarded                = 0
    Unknown Protocols Received         = 0
    Received Packets Discarded         = 25269
    Received Packets Delivered         = 60259935
    Output Requests                    = 30189260
    Routing Discards                   = 0
    Discarded Output Packets           = 21685
    Output Packet No Route             = 403
    Reassembly Required                = 3
    Reassembly Successful              = 1
    Reassembly Failures                = 0
    Datagrams Successfully Fragmented  = 0
    Datagrams Failing Fragmentation    = 0
    Fragments Created                  = 0

    IPv6 Statistics

    Packets Received                   = 154566
    Received Header Errors             = 0
    Received Address Errors            = 1262
    Datagrams Forwarded                = 0
    Unknown Protocols Received         = 0
    Received Packets Discarded         = 5824
    Received Packets Delivered         = 175651
    Output Requests                    = 190416
    Routing Discards                   = 0
    Discarded Output Packets           = 3039
    Output Packet No Route             = 0
    Reassembly Required                = 0
    Reassembly Successful              = 0
    Reassembly Failures                = 0
    Datagrams Successfully Fragmented  = 0
    Datagrams Failing Fragmentation    = 0
    Fragments Created                  = 0

    ICMPv4 Statistics

        Received    Sent
    Messages                  16443       22923
    Errors                    0           0
    Destination Unreachable   16442       22923
    Time Exceeded             1           0
    Parameter Problems        0           0
    Source Quenches           0           0
    Redirects                 0           0
    Echo Replies              0           0
    Echos                     0           0
    Timestamps                0           0
    Timestamp Replies         0           0
    Address Masks             0           0
    Address Mask Replies      0           0
    Router Solicitations      0           0
    Router Advertisements     0           0

    ICMPv6 Statistics

        Received    Sent
    Messages                  19333       36465
    Errors                    0           0
    Destination Unreachable   499         4590
    Packet Too Big            0           0
    Time Exceeded             0           0
    Parameter Problems        0           0
    Echos                     0           0
    Echo Replies              0           0
    MLD Queries               0           0
    MLD Reports               0           0
    MLD Dones                 0           0
    Router Solicitations      0           212
    Router Advertisements     1500        0
    Neighbor Solicitations    8344        23234
    Neighbor Advertisements   8990        8429
    Redirects                 0           0
    Router Renumberings       0           0

    TCP Statistics for IPv4

    Active Opens                        = 64644
    Passive Opens                       = 7674
    Failed Connection Attempts          = 5800
    Reset Connections                   = 12164
    Current Connections                 = 24
    Segments Received                   = 19099006
    Segments Sent                       = 18364045
    Segments Retransmitted              = 24199

    TCP Statistics for IPv6

    Active Opens                        = 2103
    Passive Opens                       = 603
    Failed Connection Attempts          = 5927
    Reset Connections                   = 519
    Current Connections                 = 0
    Segments Received                   = 104587
    Segments Sent                       = 100502
    Segments Retransmitted              = 4152

    UDP Statistics for IPv4

    Datagrams Received    = 53860170
    No Ports              = 25351
    Receive Errors        = 26
    Datagrams Sent        = 24325877

    UDP Statistics for IPv6

    Datagrams Received    = 234072
    No Ports              = 5641
    Receive Errors        = 9
    Datagrams Sent        = 147179
    "#;

    let stats = parse_stats(input).unwrap();

    assert_eq!(stats.interface.bytes.received, 1279913096);
    assert_eq!(stats.interface.bytes.sent, 89768387);
    assert_eq!(stats.interface.unicast_packets.received, 961149);
    assert_eq!(stats.interface.unicast_packets.sent, 234136);
    assert_eq!(stats.interface.non_unicast_packets.received, 2660);
    assert_eq!(stats.interface.non_unicast_packets.sent, 325731);
    assert_eq!(stats.interface.discards.received, 0);
    assert_eq!(stats.interface.discards.sent, 0);
    assert_eq!(stats.interface.errors.received, 0);
    assert_eq!(stats.interface.errors.sent, 0);
    assert_eq!(stats.interface.unknown_protocols, 0);

    assert_eq!(stats.ipv4.packets_received, 60090845);
    assert_eq!(stats.ipv4.received_header_errors, 0);
    assert_eq!(stats.ipv4.received_address_errors, 0);
    assert_eq!(stats.ipv4.datagrams_forwarded, 0);
    assert_eq!(stats.ipv4.unknown_protocols_received, 0);
    assert_eq!(stats.ipv4.received_packets_discarded, 25269);
    assert_eq!(stats.ipv4.received_packets_delivered, 60259935);
    assert_eq!(stats.ipv4.output_requests, 30189260);
    assert_eq!(stats.ipv4.routing_discards, 0);
    assert_eq!(stats.ipv4.discarded_output_packets, 21685);
    assert_eq!(stats.ipv4.output_packet_no_route, 403);
    assert_eq!(stats.ipv4.reassembly_required, 3);
    assert_eq!(stats.ipv4.reassembly_successful, 1);
    assert_eq!(stats.ipv4.reassembly_failures, 0);
    assert_eq!(stats.ipv4.datagrams_successfully_fragmented, 0);
    assert_eq!(stats.ipv4.datagrams_failing_fragmentation, 0);
    assert_eq!(stats.ipv4.fragments_created, 0);

    assert_eq!(stats.ipv6.packets_received, 154566);
    assert_eq!(stats.ipv6.received_header_errors, 0);
    assert_eq!(stats.ipv6.received_address_errors, 1262);
    assert_eq!(stats.ipv6.datagrams_forwarded, 0);
    assert_eq!(stats.ipv6.unknown_protocols_received, 0);
    assert_eq!(stats.ipv6.received_packets_discarded, 5824);
    assert_eq!(stats.ipv6.received_packets_delivered, 175651);
    assert_eq!(stats.ipv6.output_requests, 190416);
    assert_eq!(stats.ipv6.routing_discards, 0);
    assert_eq!(stats.ipv6.discarded_output_packets, 3039);
    assert_eq!(stats.ipv6.output_packet_no_route, 0);
    assert_eq!(stats.ipv6.reassembly_required, 0);
    assert_eq!(stats.ipv6.reassembly_successful, 0);
    assert_eq!(stats.ipv6.reassembly_failures, 0);
    assert_eq!(stats.ipv6.datagrams_successfully_fragmented, 0);
    assert_eq!(stats.ipv6.datagrams_failing_fragmentation, 0);
    assert_eq!(stats.ipv6.fragments_created, 0);

    assert_eq!(stats.icmpv4.messages.received, 16443);
    assert_eq!(stats.icmpv4.messages.sent, 22923);
    assert_eq!(stats.icmpv4.errors.received, 0);
    assert_eq!(stats.icmpv4.errors.sent, 0);
    assert_eq!(stats.icmpv4.destination_unreachable.received, 16442);
    assert_eq!(stats.icmpv4.destination_unreachable.sent, 22923);
    assert_eq!(stats.icmpv4.time_exceeded.received, 1);
    assert_eq!(stats.icmpv4.time_exceeded.sent, 0);
    assert_eq!(stats.icmpv4.parameter_problems.received, 0);
    assert_eq!(stats.icmpv4.parameter_problems.sent, 0);
    assert_eq!(stats.icmpv4.source_quenches.received, 0);
    assert_eq!(stats.icmpv4.source_quenches.sent, 0);
    assert_eq!(stats.icmpv4.redirects.received, 0);
    assert_eq!(stats.icmpv4.redirects.sent, 0);
    assert_eq!(stats.icmpv4.echo_replies.received, 0);
    assert_eq!(stats.icmpv4.echo_replies.sent, 0);
    assert_eq!(stats.icmpv4.echos.received, 0);
    assert_eq!(stats.icmpv4.echos.sent, 0);
    assert_eq!(stats.icmpv4.timestamps.received, 0);
    assert_eq!(stats.icmpv4.timestamps.sent, 0);
    assert_eq!(stats.icmpv4.address_masks.received, 0);
    assert_eq!(stats.icmpv4.address_masks.sent, 0);
    assert_eq!(stats.icmpv4.address_mask_replies.received, 0);
    assert_eq!(stats.icmpv4.address_mask_replies.sent, 0);
    assert_eq!(stats.icmpv4.router_solicitations.received, 0);
    assert_eq!(stats.icmpv4.router_solicitations.sent, 0);
    assert_eq!(stats.icmpv4.router_advertisements.received, 0);
    assert_eq!(stats.icmpv4.router_advertisements.sent, 0);

    assert_eq!(stats.icmpv6.messages.received, 19333);
    assert_eq!(stats.icmpv6.messages.sent, 36465);
    assert_eq!(stats.icmpv6.errors.received, 0);
    assert_eq!(stats.icmpv6.errors.sent, 0);
    assert_eq!(stats.icmpv6.destination_unreachable.received, 499);
    assert_eq!(stats.icmpv6.destination_unreachable.sent, 4590);
    assert_eq!(stats.icmpv6.time_exceeded.received, 0);
    assert_eq!(stats.icmpv6.time_exceeded.sent, 0);
    assert_eq!(stats.icmpv6.parameter_problems.received, 0);
    assert_eq!(stats.icmpv6.parameter_problems.sent, 0);
    assert_eq!(stats.icmpv6.redirects.received, 0);
    assert_eq!(stats.icmpv6.redirects.sent, 0);
    assert_eq!(stats.icmpv6.echos.received, 0);
    assert_eq!(stats.icmpv6.echos.sent, 0);
    assert_eq!(stats.icmpv6.echo_replies.received, 0);
    assert_eq!(stats.icmpv6.echo_replies.sent, 0);
    assert_eq!(stats.icmpv6.mld_queries.received, 0);
    assert_eq!(stats.icmpv6.mld_queries.sent, 0);
    assert_eq!(stats.icmpv6.mld_reports.received, 0);
    assert_eq!(stats.icmpv6.mld_reports.sent, 0);
    assert_eq!(stats.icmpv6.mld_dones.received, 0);
    assert_eq!(stats.icmpv6.mld_dones.sent, 0);
    assert_eq!(stats.icmpv6.router_solicitations.received, 0);
    assert_eq!(stats.icmpv6.router_solicitations.sent, 212);
    assert_eq!(stats.icmpv6.router_advertisements.received, 1500);
    assert_eq!(stats.icmpv6.router_advertisements.sent, 0);
    assert_eq!(stats.icmpv6.neighbor_solicitations.received, 8344);
    assert_eq!(stats.icmpv6.neighbor_solicitations.sent, 23234);
    assert_eq!(stats.icmpv6.neighbor_advertisements.received, 8990);
    assert_eq!(stats.icmpv6.neighbor_advertisements.sent, 8429);
    assert_eq!(stats.icmpv6.router_renumberings.received, 0);
    assert_eq!(stats.icmpv6.router_renumberings.sent, 0);

    assert_eq!(stats.tcp_ipv4.active_opens, 64644);
    assert_eq!(stats.tcp_ipv4.passive_opens, 7674);
    assert_eq!(stats.tcp_ipv4.failed_connection_attempts, 5800);
    assert_eq!(stats.tcp_ipv4.reset_connections, 12164);
    assert_eq!(stats.tcp_ipv4.current_connections, 24);
    assert_eq!(stats.tcp_ipv4.segments_received, 19099006);
    assert_eq!(stats.tcp_ipv4.segments_sent, 18364045);
    assert_eq!(stats.tcp_ipv4.segments_retransmitted, 24199);

    assert_eq!(stats.tcp_ipv6.active_opens, 2103);
    assert_eq!(stats.tcp_ipv6.passive_opens, 603);
    assert_eq!(stats.tcp_ipv6.failed_connection_attempts, 5927);
    assert_eq!(stats.tcp_ipv6.reset_connections, 519);
    assert_eq!(stats.tcp_ipv6.current_connections, 0);
    assert_eq!(stats.tcp_ipv6.segments_received, 104587);
    assert_eq!(stats.tcp_ipv6.segments_sent, 100502);
    assert_eq!(stats.tcp_ipv6.segments_retransmitted, 4152);

    assert_eq!(stats.udp_ipv4.datagrams_received, 53860170);
    assert_eq!(stats.udp_ipv4.no_ports, 25351);
    assert_eq!(stats.udp_ipv4.receive_errors, 26);
    assert_eq!(stats.udp_ipv4.datagrams_sent, 24325877);

    assert_eq!(stats.udp_ipv6.datagrams_received, 234072);
    assert_eq!(stats.udp_ipv6.no_ports, 5641);
    assert_eq!(stats.udp_ipv6.receive_errors, 9);
    assert_eq!(stats.udp_ipv6.datagrams_sent, 147179);
}
