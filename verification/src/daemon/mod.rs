pub mod ownership;
pub mod launch;
pub mod records;
pub mod views;
pub mod journal;
pub mod projection;
pub mod policy;
pub mod executor;
pub mod rpc;
pub mod procfs;
