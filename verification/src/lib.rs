//! Run exactly one node-pinned Kubernetes Job per selected node.
pub mod text;
pub mod order;
pub mod labels;
pub mod json;
pub mod objects;
pub mod nodes;
pub mod writes;
pub mod write_laws;
pub mod guarded;
pub mod node_ops;
pub mod waits;
pub mod work;
pub mod args;
pub mod node_filter;
pub mod template;
pub mod selection;
pub mod settle;
pub mod job;
pub mod owners;
pub mod takeover;
pub mod ledger;
pub mod summary;
pub mod fanout;
pub mod dispatch;
pub mod turn;
pub mod stamp;
pub mod diagnosis;
pub mod report;
