//! Page service of a disaggregated Postgres storage engine: the wire codec,
//! the command grammar, the pagestream exchange, the tenant registry and the
//! WAL receive endpoint, each stated and proved with Verus.
pub mod text;
pub mod ids;
pub mod lsn;
pub mod pagestream;
pub mod command;
pub mod pq_proto;
pub mod registry;
pub mod push;
pub mod receive_wal;
pub mod config;
pub mod page_service;
pub mod broker;
pub mod uring_launch;
