//! The verified control plane of a dataflow runtime: the rules by which a command line
//! tool, a coordinator, its daemons and the nodes they run agree on what happens next.

pub mod common;
pub mod control_channel;
pub mod daemons;
pub mod distributed;
pub mod ids;
pub mod laws;
pub mod logs;
pub mod message;
pub mod operator;
pub mod ordered;
pub mod registry;
pub mod run;
pub mod server;
pub mod state;
pub mod tcp;
pub mod text;
