//! The table of active connections: one row per connection, in the columns
//! protocol, local address, foreign address, state and owning process.

use vstd::prelude::*;
use crate::text::{
    below_captions, chars_of, is_word, significant_lines, split_lines, split_words, string_of,
    views, words,
};

verus! {

/// The transport protocol of a connection.
#[derive(Clone, Copy, Debug, PartialEq, Eq)]
pub enum ConnectionType {
    Tcp,
    Udp,
}

/// The state of a connection, as TCP names its states.
#[derive(Clone, Copy, Debug, PartialEq, Eq)]
pub enum ConnectionState {
    Established,
    SynSent,
    SynRecv,
    FinWait1,
    FinWait2,
    TimeWait,
    Close,
    CloseWait,
    LastAck,
    Listen,
    Closing,
}

/// One row of the table. The addresses and the process id are kept as the
/// table writes them.
#[derive(Clone, Debug, PartialEq, Eq)]
pub struct Connection {
    pub connection_type: ConnectionType,
    pub local_address: String,
    pub foreign_address: String,
    pub state: ConnectionState,
    pub pid: String,
}

/// A connection with its texts as sequences of characters.
pub struct ConnectionView {
    pub connection_type: ConnectionType,
    pub local_address: Seq<char>,
    pub foreign_address: Seq<char>,
    pub state: ConnectionState,
    pub pid: Seq<char>,
}

impl View for Connection {
    type V = ConnectionView;

    open spec fn view(&self) -> ConnectionView {
        ConnectionView {
            connection_type: self.connection_type,
            local_address: self.local_address@,
            foreign_address: self.foreign_address@,
            state: self.state,
            pid: self.pid@,
        }
    }
}

/// The views of `items`, in order.
pub open spec fn connection_views(items: Seq<Connection>) -> Seq<ConnectionView> {
    Seq::new(items.len(), |i: int| items[i]@)
}

impl ConnectionType {
    /// The word that names the protocol in the table.
    pub open spec fn word(self) -> Seq<char> {
        match self {
            ConnectionType::Tcp => "TCP"@,
            ConnectionType::Udp => "UDP"@,
        }
    }
}

impl ConnectionState {
    /// The word that names the state in the table.
    pub open spec fn word(self) -> Seq<char> {
        match self {
            ConnectionState::Established => "ESTABLISHED"@,
            ConnectionState::SynSent => "SYN_SENT"@,
            ConnectionState::SynRecv => "SYN_RECV"@,
            ConnectionState::FinWait1 => "FIN_WAIT1"@,
            ConnectionState::FinWait2 => "FIN_WAIT2"@,
            ConnectionState::TimeWait => "TIME_WAIT"@,
            ConnectionState::Close => "CLOSE"@,
            ConnectionState::CloseWait => "CLOSE_WAIT"@,
            ConnectionState::LastAck => "LAST_ACK"@,
            ConnectionState::Listen => "LISTENING"@,
            ConnectionState::Closing => "CLOSING"@,
        }
    }
}

/// The protocol that `word` names, if it names one.
pub open spec fn protocol_of(word: Seq<char>) -> Option<ConnectionType> {
    if word == ConnectionType::Tcp.word() {
        Some(ConnectionType::Tcp)
    } else if word == ConnectionType::Udp.word() {
        Some(ConnectionType::Udp)
    } else {
        None
    }
}

/// The states in the order in which a word is held against theirs.
pub open spec fn states() -> Seq<ConnectionState> {
    seq![
        ConnectionState::Established,
        ConnectionState::SynSent,
        ConnectionState::SynRecv,
        ConnectionState::FinWait1,
        ConnectionState::FinWait2,
        ConnectionState::TimeWait,
        ConnectionState::Close,
        ConnectionState::CloseWait,
        ConnectionState::LastAck,
        ConnectionState::Listen,
        ConnectionState::Closing,
    ]
}

/// The first state from position `from` of `states()` on whose word is
/// `word`.
pub open spec fn state_among(word: Seq<char>, from: int) -> Option<ConnectionState>
    decreases states().len() - from,
{
    if from < 0 || from >= states().len() {
        None
    } else if word == states()[from].word() {
        Some(states()[from])
    } else {
        state_among(word, from + 1)
    }
}

/// The state that `word` names, if it names one.
pub open spec fn state_of(word: Seq<char>) -> Option<ConnectionState> {
    state_among(word, 0)
}

/// Whether `word` has `len` letters, the first of them `first` and the last
/// of them `last`.
spec fn spelled(word: Seq<char>, len: nat, first: char, last: char) -> bool {
    word.len() == len && len > 0 && word[0] == first && word[len - 1] == last
}

/// A word names the protocol whose word it is, and no other.
pub proof fn lemma_protocol_of_word(word: Seq<char>, protocol: ConnectionType)
    ensures
        protocol_of(word) == Some(protocol) <==> word == protocol.word(),
{
    reveal_strlit("TCP");
    reveal_strlit("UDP");
    assert(spelled("TCP"@, 3, 'T', 'P'));
    assert(spelled("UDP"@, 3, 'U', 'P'));
}

/// A word names the state whose word it is, and no other.
pub proof fn lemma_state_of_word(word: Seq<char>, state: ConnectionState)
    ensures
        state_of(word) == Some(state) <==> word == state.word(),
{
    reveal_strlit("ESTABLISHED");
    reveal_strlit("SYN_SENT");
    reveal_strlit("SYN_RECV");
    reveal_strlit("FIN_WAIT1");
    reveal_strlit("FIN_WAIT2");
    reveal_strlit("TIME_WAIT");
    reveal_strlit("CLOSE");
    reveal_strlit("CLOSE_WAIT");
    reveal_strlit("LAST_ACK");
    reveal_strlit("LISTENING");
    reveal_strlit("CLOSING");
    assert(spelled("ESTABLISHED"@, 11, 'E', 'D'));
    assert(spelled("SYN_SENT"@, 8, 'S', 'T'));
    assert(spelled("SYN_RECV"@, 8, 'S', 'V'));
    assert(spelled("FIN_WAIT1"@, 9, 'F', '1'));
    assert(spelled("FIN_WAIT2"@, 9, 'F', '2'));
    assert(spelled("TIME_WAIT"@, 9, 'T', 'T'));
    assert(spelled("CLOSE"@, 5, 'C', 'E'));
    assert(spelled("CLOSE_WAIT"@, 10, 'C', 'T'));
    assert(spelled("LAST_ACK"@, 8, 'L', 'K'));
    assert(spelled("LISTENING"@, 9, 'L', 'G'));
    assert(spelled("CLOSING"@, 7, 'C', 'G'));
    reveal_with_fuel(state_among, 12);
}

/// A row of five or more words whose first names a protocol and whose
/// fourth names a state gives the connection with that protocol and state,
/// the second and third word as its addresses and the fifth as the id of
/// its process.
pub proof fn lemma_row_of_words(
    protocol: ConnectionType,
    local: Seq<char>,
    foreign: Seq<char>,
    state: ConnectionState,
    pid: Seq<char>,
    rest: Seq<Seq<char>>,
)
    ensures
        row(seq![protocol.word(), local, foreign, state.word(), pid] + rest) == Some(
            ConnectionView {
                connection_type: protocol,
                local_address: local,
                foreign_address: foreign,
                state,
                pid,
            },
        ),
{
    lemma_protocol_of_word(protocol.word(), protocol);
    lemma_state_of_word(state.word(), state);
}

/// The connection that a row of the words `tokens` describes. A row counts
/// when it has all five columns, its first names a protocol and its fourth
/// a state; the state column is read in the same place whatever the
/// protocol.
pub open spec fn row(tokens: Seq<Seq<char>>) -> Option<ConnectionView> {
    if tokens.len() >= 5 && protocol_of(tokens[0]) is Some && state_of(tokens[3]) is Some {
        Some(
            ConnectionView {
                connection_type: protocol_of(tokens[0]).unwrap(),
                local_address: tokens[1],
                foreign_address: tokens[2],
                state: state_of(tokens[3]).unwrap(),
                pid: tokens[4],
            },
        )
    } else {
        None
    }
}

/// A row of fewer than five words gives no connection.
pub proof fn lemma_short_row_is_dropped(tokens: Seq<Seq<char>>)
    requires
        tokens.len() < 5,
    ensures
        row(tokens) is None,
{
}

/// The connections that `lines` describe, in order; a line that describes
/// none is passed over.
pub open spec fn rows(lines: Seq<Seq<char>>) -> Seq<ConnectionView>
    decreases lines.len(),
{
    if lines.len() == 0 {
        Seq::empty()
    } else {
        match row(words(lines.last())) {
            Some(connection) => rows(lines.drop_last()).push(connection),
            None => rows(lines.drop_last()),
        }
    }
}

/// The connections that the table `text` lists. Its first two lines that
/// hold text are captions.
pub open spec fn connections_in(text: Seq<char>) -> Seq<ConnectionView> {
    rows(below_captions(significant_lines(text), 2))
}

fn read_protocol(word: &[char]) -> (protocol: Option<ConnectionType>)
    ensures
        protocol == protocol_of(word@),
{
    if is_word(word, "TCP") {
        Some(ConnectionType::Tcp)
    } else if is_word(word, "UDP") {
        Some(ConnectionType::Udp)
    } else {
        None
    }
}

fn read_state(word: &[char]) -> (state: Option<ConnectionState>)
    ensures
        state == state_of(word@),
{
    proof {
        reveal_with_fuel(state_among, 12);
    }
    if is_word(word, "ESTABLISHED") {
        Some(ConnectionState::Established)
    } else if is_word(word, "SYN_SENT") {
        Some(ConnectionState::SynSent)
    } else if is_word(word, "SYN_RECV") {
        Some(ConnectionState::SynRecv)
    } else if is_word(word, "FIN_WAIT1") {
        Some(ConnectionState::FinWait1)
    } else if is_word(word, "FIN_WAIT2") {
        Some(ConnectionState::FinWait2)
    } else if is_word(word, "TIME_WAIT") {
        Some(ConnectionState::TimeWait)
    } else if is_word(word, "CLOSE") {
        Some(ConnectionState::Close)
    } else if is_word(word, "CLOSE_WAIT") {
        Some(ConnectionState::CloseWait)
    } else if is_word(word, "LAST_ACK") {
        Some(ConnectionState::LastAck)
    } else if is_word(word, "LISTENING") {
        Some(ConnectionState::Listen)
    } else if is_word(word, "CLOSING") {
        Some(ConnectionState::Closing)
    } else {
        None
    }
}

fn read_row(tokens: &Vec<&[char]>) -> (connection: Option<Connection>)
    ensures
        match connection {
            Some(c) => row(views(tokens@)) == Some(c@),
            None => row(views(tokens@)) is None,
        },
{
    if tokens.len() < 5 {
        return None;
    }
    let ghost all = views(tokens@);
    assert(all[0] == tokens@[0]@ && all[1] == tokens@[1]@ && all[2] == tokens@[2]@ && all[3]
        == tokens@[3]@ && all[4] == tokens@[4]@);
    let connection_type = match read_protocol(tokens[0]) {
        Some(protocol) => protocol,
        None => {
            return None;
        },
    };
    let state = match read_state(tokens[3]) {
        Some(state) => state,
        None => {
            return None;
        },
    };
    Some(
        Connection {
            connection_type,
            local_address: string_of(tokens[1]),
            foreign_address: string_of(tokens[2]),
            state,
            pid: string_of(tokens[4]),
        },
    )
}

/// Reads the table of active connections.
pub fn parse_connections(input: &str) -> (connections: Vec<Connection>)
    ensures
        connection_views(connections@) == connections_in(input@),
{
    let text = chars_of(input);
    let lines = split_lines(text.as_slice());
    let mut connections: Vec<Connection> = Vec::new();
    if lines.len() < 2 {
        assert(connection_views(connections@) =~= Seq::<ConnectionView>::empty());
        return connections;
    }
    let ghost body = views(lines@).skip(2);
    let mut i: usize = 2;
    assert(body.take(0) =~= Seq::<Seq<char>>::empty());
    assert(connection_views(connections@) =~= Seq::<ConnectionView>::empty());
    while i < lines.len()
        invariant
            2 <= i <= lines.len(),
            body == views(lines@).skip(2),
            connection_views(connections@) == rows(body.take(i - 2)),
        decreases lines.len() - i,
    {
        let tokens = split_words(lines[i]);
        proof {
            assert(body.take(i - 1).drop_last() =~= body.take(i - 2));
            assert(body.take(i - 1).last() == lines@[i as int]@);
        }
        match read_row(&tokens) {
            Some(connection) => {
                proof {
                    assert(connection_views(connections@.push(connection))
                        =~= connection_views(connections@).push(connection@));
                }
                connections.push(connection);
            },
            None => {},
        }
        i = i + 1;
    }
    assert(body.take(i - 2) =~= body);
    connections
}

/// The connections of one process.
#[derive(Clone, Debug, PartialEq, Eq)]
pub struct PidGroup {
    pub pid: String,
    pub connections: Vec<Connection>,
}

/// A group with its texts as sequences of characters.
pub struct PidGroupView {
    pub pid: Seq<char>,
    pub connections: Seq<ConnectionView>,
}

impl View for PidGroup {
    type V = PidGroupView;

    open spec fn view(&self) -> PidGroupView {
        PidGroupView { pid: self.pid@, connections: connection_views(self.connections@) }
    }
}

/// The views of `groups`, in order.
pub open spec fn group_views(groups: Seq<PidGroup>) -> Seq<PidGroupView> {
    Seq::new(groups.len(), |i: int| groups[i]@)
}

/// The process ids of `connections`, each once, in the order in which they
/// first occur.
pub open spec fn pids(connections: Seq<ConnectionView>) -> Seq<Seq<char>>
    decreases connections.len(),
{
    if connections.len() == 0 {
        Seq::empty()
    } else {
        let before = pids(connections.drop_last());
        if before.contains(connections.last().pid) {
            before
        } else {
            before.push(connections.last().pid)
        }
    }
}

/// The connections of the process `pid` among `connections`, in order.
pub open spec fn owned_by(connections: Seq<ConnectionView>, pid: Seq<char>) -> Seq<ConnectionView>
    decreases connections.len(),
{
    if connections.len() == 0 {
        Seq::empty()
    } else if connections.last().pid == pid {
        owned_by(connections.drop_last(), pid).push(connections.last())
    } else {
        owned_by(connections.drop_last(), pid)
    }
}

/// `connections` by process: one group for each process id, the groups in
/// the order in which the ids first occur, and in each group the
/// connections of that process in the order in which they stand.
pub open spec fn grouped(connections: Seq<ConnectionView>) -> Seq<PidGroupView> {
    Seq::new(
        pids(connections).len(),
        |k: int|
            PidGroupView {
                pid: pids(connections)[k],
                connections: owned_by(connections, pids(connections)[k]),
            },
    )
}

/// No process id stands twice among the ids of `connections`.
pub proof fn lemma_pids_distinct(connections: Seq<ConnectionView>)
    ensures
        forall|j: int, k: int|
            0 <= j < k < pids(connections).len() ==> pids(connections)[j] != pids(connections)[k],
    decreases connections.len(),
{
    if connections.len() > 0 {
        let before = pids(connections.drop_last());
        let pid = connections.last().pid;
        lemma_pids_distinct(connections.drop_last());
        if !before.contains(pid) {
            assert forall|j: int, k: int| 0 <= j < k < before.push(pid).len() implies before.push(
                pid,
            )[j] != before.push(pid)[k] by {
                if k == before.len() {
                    assert(before[j] != pid);
                }
            }
        }
    }
}

/// The ids of `connections` are the process ids of its members.
pub proof fn lemma_pids_cover(connections: Seq<ConnectionView>, pid: Seq<char>)
    ensures
        pids(connections).contains(pid) <==> exists|i: int|
            0 <= i < connections.len() && (#[trigger] connections[i]).pid == pid,
    decreases connections.len(),
{
    if connections.len() > 0 {
        let head = connections.drop_last();
        let last = connections.last();
        let before = pids(head);
        lemma_pids_cover(head, pid);
        if pids(connections).contains(pid) {
            let k = choose|k: int| 0 <= k < pids(connections).len() && pids(connections)[k] == pid;
            if k < before.len() {
                assert(before[k] == pid);
                let i = choose|i: int| 0 <= i < head.len() && (#[trigger] head[i]).pid == pid;
                assert(connections[i] == head[i]);
            } else {
                assert(connections[connections.len() - 1].pid == pid);
            }
        }
        if exists|i: int| 0 <= i < connections.len() && (#[trigger] connections[i]).pid == pid {
            let i = choose|i: int|
                0 <= i < connections.len() && (#[trigger] connections[i]).pid == pid;
            if i < head.len() {
                assert(head[i].pid == pid);
                let k = choose|k: int| 0 <= k < before.len() && before[k] == pid;
                assert(pids(connections)[k] == pid);
            } else if before.contains(last.pid) {
            } else {
                assert(before.push(pid)[before.len() as int] == pid);
            }
        }
    }
}

/// A process whose id is not among the ids owns no connection.
pub proof fn lemma_unknown_pid_owns_nothing(connections: Seq<ConnectionView>, pid: Seq<char>)
    requires
        !pids(connections).contains(pid),
    ensures
        owned_by(connections, pid).len() == 0,
    decreases connections.len(),
{
    if connections.len() > 0 {
        let head = connections.drop_last();
        if pids(head).contains(pid) {
            let k = choose|k: int| 0 <= k < pids(head).len() && pids(head)[k] == pid;
            if pids(head).contains(connections.last().pid) {
            } else {
                assert(pids(head).push(connections.last().pid)[k] == pid);
            }
        } else if connections.last().pid == pid {
            assert(pids(head).push(pid).last() == pid);
        }
        lemma_unknown_pid_owns_nothing(head, pid);
    }
}

/// Groups connections by the process that owns them.
pub fn group_connections_by_pid(connections: Vec<Connection>) -> (groups: Vec<PidGroup>)
    ensures
        group_views(groups@) == grouped(connection_views(connections@)),
{
    let ghost all = connection_views(connections@);
    let mut groups: Vec<PidGroup> = Vec::new();
    assert(all.take(0) =~= Seq::<ConnectionView>::empty());
    assert(group_views(groups@) =~= grouped(all.take(0)));
    for connection in it: connections
        invariant
            it.seq() == connections@,
            all == connection_views(connections@),
            group_views(groups@) == grouped(all.take(it.index())),
    {
        let ghost seen = all.take(it.index());
        let ghost next = all.take(it.index() + 1);
        proof {
            assert(next.drop_last() =~= seen);
            assert(next.last() == connection@);
            lemma_pids_distinct(seen);
        }
        assert(group_views(groups@).len() == pids(seen).len());
        let mut k: usize = 0;
        while k < groups.len()
            invariant
                k <= groups.len(),
                groups@.len() == pids(seen).len(),
                group_views(groups@) == grouped(seen),
                forall|j: int| 0 <= j < k ==> pids(seen)[j] != connection@.pid,
            ensures
                k <= groups.len(),
                groups@.len() == pids(seen).len(),
                k < groups.len() ==> pids(seen)[k as int] == connection@.pid,
                k == groups.len() ==> !pids(seen).contains(connection@.pid),
            decreases groups.len() - k,
        {
            assert(group_views(groups@)[k as int].pid == groups@[k as int].pid@);
            assert(grouped(seen)[k as int].pid == pids(seen)[k as int]);
            if groups[k].pid == connection.pid {
                break;
            }
            k = k + 1;
        }
        if k < groups.len() {
            let ghost old_groups = groups@;
            groups[k].connections.push(connection);
            proof {
                assert(pids(next) == pids(seen));
                assert forall|j: int| 0 <= j < groups@.len() implies group_views(groups@)[j]
                    == grouped(next)[j] by {
                    assert(group_views(old_groups)[j] == grouped(seen)[j]);
                    if j == k {
                        assert(connection_views(groups@[j].connections@) =~= connection_views(
                            old_groups[j].connections@,
                        ).push(connection@));
                    }
                }
                assert(group_views(groups@) =~= grouped(next));
            }
        } else {
            let pid = connection.pid.clone();
            let mut members: Vec<Connection> = Vec::new();
            members.push(connection);
            let ghost old_groups = groups@;
            groups.push(PidGroup { pid, connections: members });
            proof {
                lemma_unknown_pid_owns_nothing(seen, connection@.pid);
                assert forall|j: int| 0 <= j < groups@.len() implies group_views(groups@)[j]
                    == grouped(next)[j] by {
                    if j < old_groups.len() {
                        assert(group_views(old_groups)[j] == grouped(seen)[j]);
                    } else {
                        assert(connection_views(groups@[j].connections@) =~= seq![connection@]);
                        assert(owned_by(seen, connection@.pid) =~= Seq::<ConnectionView>::empty());
                    }
                }
                assert(group_views(groups@) =~= grouped(next));
            }
        }
    }
    assert(all.take(all.len() as int) =~= all);
    groups
}

} // verus!
