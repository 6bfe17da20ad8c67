//! Parsers for the text that the operating system's network and process
//! utilities print: the statistics report, the table of active connections
//! and the process listing.
//!
//! Each parser takes the whole text and gives back plain records. What a
//! parser makes of a text is stated by a spec function of the same
//! module: `stats::outcome`, `connections::connections_in`,
//! `connections::grouped`, `processes::processes_in` and
//! `processes::processes_in_table`.

pub mod connections;
pub mod grammar;
pub mod numeral;
pub mod processes;
pub mod report;
pub mod stats;
pub mod text;

pub use connections::{
    group_connections_by_pid, parse_connections, Connection, ConnectionState, ConnectionType,
    PidGroup,
};
pub use processes::{parse_process_table, parse_processes, Process};
pub use report::{
    Counter, Icmpv4Pair, Icmpv6Pair, IcmpV4Statistics, IcmpV6Statistics, InterfacePair,
    InterfaceStats, IpCounter, IpV4Statistics, IpV6Statistics, NetworkData, NetworkStatistics,
    Pair, TcpCounter, TcpV4Statistics, TcpV6Statistics, UdpCounter, UdpV4Statistics,
    UdpV6Statistics,
};
pub use stats::{parse_stats, ParseError};
