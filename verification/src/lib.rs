//! Verified core of the osu! memory data provider.
pub mod address;
pub mod beatmap;
pub mod cli;
pub mod client;
pub mod config;
pub mod grade;
pub mod instr;
pub mod logging;
pub mod pattern;
pub mod process;
pub mod pp;
pub mod profile;
pub mod reader;
pub mod session;
pub mod text;
pub mod tournament;
pub mod v2;
