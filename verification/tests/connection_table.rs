use net_process::{
    group_connections_by_pid, parse_connections, Connection, ConnectionState, ConnectionType,
};

const CAPTIONS: &str = "
Active Connections

  Proto  Local Address          Foreign Address        State           PID
";

fn table(rows: &str) -> String {
    format!("{}{}", CAPTIONS, rows)
}

fn tcp(local: &str, foreign: &str, state: ConnectionState, pid: &str) -> Connection {
    Connection {
        connection_type: ConnectionType::Tcp,
        local_address: local.to_string(),
        foreign_address: foreign.to_string(),
        state,
        pid: pid.to_string(),
    }
}

#[test]
fn listening_row_gives_one_record() {
    let connections = parse_connections(&table("  TCP 127.0.0.1:80 0.0.0.0:0 LISTENING 1234\n"));
    assert_eq!(connections.len(), 1);
    assert_eq!(connections[0].connection_type, ConnectionType::Tcp);
    assert_eq!(connections[0].local_address, "127.0.0.1:80");
    assert_eq!(connections[0].foreign_address, "0.0.0.0:0");
    assert_eq!(connections[0].state, ConnectionState::Listen);
    assert_eq!(connections[0].pid, "1234");
}

#[test]
fn row_with_fewer_than_four_words_is_dropped() {
    let input = table("  TCP 127.0.0.1:80 0.0.0.0:0\n  TCP\n  TCP [::]:135 [::]:0 LISTENING 1192\n");
    assert_eq!(
        parse_connections(&input),
        vec![tcp("[::]:135", "[::]:0", ConnectionState::Listen, "1192")]
    );
}

#[test]
fn row_without_a_process_id_is_dropped() {
    let input = table("  TCP 10.0.0.1:5000 10.0.0.2:443 ESTABLISHED\n");
    assert_eq!(parse_connections(&input), Vec::<Connection>::new());
}

#[test]
fn row_of_another_protocol_or_state_is_dropped() {
    let input = table(
        "  ICMP 10.0.0.1:1 10.0.0.2:2 ESTABLISHED 7\n\
         \x20 tcp 10.0.0.1:1 10.0.0.2:2 ESTABLISHED 7\n\
         \x20 TCP 10.0.0.1:1 10.0.0.2:2 BOUND 7\n\
         \x20 TCP 10.0.0.1:1 10.0.0.2:2 LISTEN 7\n\
         \x20 TCP 10.0.0.1:1 10.0.0.2:2 established 7\n",
    );
    assert_eq!(parse_connections(&input), Vec::<Connection>::new());
}

#[test]
fn udp_row_is_read_in_the_same_columns() {
    let input = table(
        "  UDP 0.0.0.0:1900 *:* 3604\n\
         \x20 UDP 0.0.0.0:5353 *:* CLOSE 2896\n",
    );
    assert_eq!(
        parse_connections(&input),
        vec![Connection {
            connection_type: ConnectionType::Udp,
            local_address: "0.0.0.0:5353".to_string(),
            foreign_address: "*:*".to_string(),
            state: ConnectionState::Close,
            pid: "2896".to_string(),
        }]
    );
}

#[test]
fn every_state_word_is_known() {
    let words = [
        ("ESTABLISHED", ConnectionState::Established),
        ("SYN_SENT", ConnectionState::SynSent),
        ("SYN_RECV", ConnectionState::SynRecv),
        ("FIN_WAIT1", ConnectionState::FinWait1),
        ("FIN_WAIT2", ConnectionState::FinWait2),
        ("TIME_WAIT", ConnectionState::TimeWait),
        ("CLOSE", ConnectionState::Close),
        ("CLOSE_WAIT", ConnectionState::CloseWait),
        ("LAST_ACK", ConnectionState::LastAck),
        ("LISTENING", ConnectionState::Listen),
        ("CLOSING", ConnectionState::Closing),
    ];
    for (word, state) in words {
        let input = table(&format!("TCP a:1 b:2 {} 9\n", word));
        assert_eq!(parse_connections(&input), vec![tcp("a:1", "b:2", state, "9")]);
    }
}

#[test]
fn process_id_is_kept_as_written() {
    let input = table("TCP a:1 b:2 TIME_WAIT 0\nTCP a:1 b:2 TIME_WAIT n/a extra words\n");
    assert_eq!(
        parse_connections(&input),
        vec![
            tcp("a:1", "b:2", ConnectionState::TimeWait, "0"),
            tcp("a:1", "b:2", ConnectionState::TimeWait, "n/a"),
        ]
    );
}

#[test]
fn the_first_two_lines_are_captions_whatever_they_hold() {
    assert_eq!(parse_connections(""), Vec::<Connection>::new());
    assert_eq!(parse_connections("TCP a:1 b:2 CLOSING 1"), Vec::<Connection>::new());
    assert_eq!(
        parse_connections("TCP a:1 b:2 CLOSING 1\n\n\nTCP a:1 b:2 CLOSING 2\n"),
        Vec::<Connection>::new()
    );
    assert_eq!(
        parse_connections("TCP a:1 b:2 CLOSING 1\r\nTCP a:1 b:2 CLOSING 2\r\n\r\nTCP a:1 b:2 CLOSING 3\r\n"),
        vec![tcp("a:1", "b:2", ConnectionState::Closing, "3")]
    );
}

fn owned(pid: &str, port: u16) -> Connection {
    tcp(&format!("127.0.0.1:{}", port), "0.0.0.0:0", ConnectionState::Listen, pid)
}

#[test]
fn grouping_keeps_the_order_inside_each_group() {
    let groups = group_connections_by_pid(vec![owned("4", 1), owned("4", 2), owned("7", 3)]);
    assert_eq!(groups.len(), 2);
    assert_eq!(groups[0].pid, "4");
    assert_eq!(groups[0].connections, vec![owned("4", 1), owned("4", 2)]);
    assert_eq!(groups[1].pid, "7");
    assert_eq!(groups[1].connections, vec![owned("7", 3)]);
}

#[test]
fn groups_stand_in_the_order_in_which_their_ids_first_occur() {
    let groups = group_connections_by_pid(vec![
        owned("9", 1),
        owned("4", 2),
        owned("9", 3),
        owned("", 4),
        owned("4", 5),
        owned("04", 6),
    ]);
    let pids: Vec<&str> = groups.iter().map(|g| g.pid.as_str()).collect();
    assert_eq!(pids, vec!["9", "4", "", "04"]);
    assert_eq!(groups[0].connections, vec![owned("9", 1), owned("9", 3)]);
    assert_eq!(groups[1].connections, vec![owned("4", 2), owned("4", 5)]);
    assert_eq!(groups[2].connections, vec![owned("", 4)]);
    assert_eq!(groups[3].connections, vec![owned("04", 6)]);
}

#[test]
fn grouping_nothing_gives_no_group() {
    assert_eq!(group_connections_by_pid(Vec::new()).len(), 0);
}

#[test]
fn every_connection_lands_in_the_group_of_its_process() {
    let input = table(
        "TCP 0.0.0.0:135 0.0.0.0:0 LISTENING 1192\n\
         TCP 0.0.0.0:445 0.0.0.0:0 LISTENING 4\n\
         TCP 127.0.0.1:57784 127.0.0.1:65001 ESTABLISHED 5124\n\
         TCP [::]:445 [::]:0 LISTENING 4\n\
         UDP 0.0.0.0:1900 *:* 3604\n",
    );
    let connections = parse_connections(&input);
    assert_eq!(connections.len(), 4);
    let groups = group_connections_by_pid(connections.clone());
    assert_eq!(groups.iter().map(|g| g.connections.len()).sum::<usize>(), connections.len());
    for group in &groups {
        assert!(!group.connections.is_empty());
        assert!(group.connections.iter().all(|c| c.pid == group.pid));
    }
    assert_eq!(groups[1].pid, "4");
    assert_eq!(groups[1].connections[1].local_address, "[::]:445");
}
