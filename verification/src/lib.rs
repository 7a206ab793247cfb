//! Bridge minter: the event-sourced state machine, the deposit pipeline and the
//! coupon-signing withdrawal pipeline, with their decisions stated as contracts.
//!
//! The state and its events live in `state`; `state::audit` says how an event
//! changes the state and how a log rebuilds it, `state::laws` and
//! `state::runs` hold what is proved of every log and of every run. The
//! deposit pipeline is in `deposit`, the withdrawal pipeline in `withdraw`
//! and `coupon`, the JSON-RPC client in `sol_rpc_client`. Nothing here reads
//! a clock, a network or a disk: each step takes what came from outside as
//! an argument and hands back what is to be sent or recorded.

pub mod amount;
pub mod codec;
pub mod constants;
pub mod coupon;
pub mod crypto;
pub mod deposit;
pub mod events;
pub mod guard;
pub mod json;
pub mod keyed;
pub mod ledger;
pub mod lifecycle;
pub mod principal;
pub mod sol_rpc_client;
pub mod state;
pub mod text;
pub mod utils;
pub mod withdraw;
