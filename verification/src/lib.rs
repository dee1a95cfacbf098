//! Stateful, packet-aware fuzzing on top of `libafl`: inputs that are
//! sequences of packets, mutators that work on such sequences and on the
//! bytes of their packets, and a state graph that is built from the
//! states in which the target is seen and that tells which inputs led
//! the target somewhere new.

pub mod bytes;
pub mod capture;
pub mod dot;
pub mod event;
pub mod executor;
pub mod feedback;
pub mod ftp;
pub mod graph_laws;
pub mod hashing;
pub mod input;
pub mod monitor;
pub mod mutators;
pub mod name;
pub mod observer;
pub mod rand;
pub mod result;
pub mod scheduler;
mod text;
pub mod wire;

pub use capture::TcpSegment;
pub use event::{
    AggregatorOps, UserStats, UserStatsValue, USER_STAT_EDGES, USER_STAT_NODES, USER_STAT_STATEGRAPH,
};
pub use executor::ProtoParser;
pub use feedback::StateFeedback;
pub use ftp::{FtpParser, FtpProtocol};
pub use input::{PacketProtocol, Packets};
pub use monitor::{
    Average, ClientStats, DisplayLine, GraphvizMonitor, HasStateStats, StateMonitor,
};
pub use mutators::crossover::{
    HasCrossoverInsertMutation, HasCrossoverReplaceMutation, PacketCrossoverInsertMutator,
    PacketCrossoverReplaceMutator,
};
pub use mutators::delete::PacketDeleteMutator;
pub use mutators::duplicate::PacketDuplicateMutator;
pub use mutators::reorder::PacketReorderMutator;
pub use mutators::splice::{HasSpliceMutation, PacketSpliceMutator};
pub use observer::{
    pack_transition, unpack_transition, GraphParts, GraphView, StateGraph, StateObserver,
};
pub use result::MutationResult;
pub use scheduler::{PacketMutationScheduler, PacketMutator};
pub use wire::InvalidCorpusEntry;
