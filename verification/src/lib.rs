//! An agent-based social simulation: a population of agents wanders a
//! bounded arena, forms and revises scalar opinions of one another through
//! overheard gossip, and steers toward whoever each agent currently likes
//! best. All quantities are fixed-point integers in thousandths of a unit,
//! and every pass of the simulation carries a contract describing exactly
//! what it does.

pub mod cli;
pub mod fixed;
pub mod opinion;
pub mod store;
pub mod motion;
pub mod spatial;
pub mod gossip;
pub mod rng;
pub mod agent;
pub mod sim;
