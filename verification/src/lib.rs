//! Verified core of a DEX arbitrage engine: 256-bit pool arithmetic,
//! Uniswap-style tick math, V2/V3 swap simulation, event and calldata
//! decoding, and the bookkeeping structures that tie pools to tokens.

pub mod uint;
pub mod address;
pub mod tick_math;
pub mod token;
pub mod trade;
pub mod v3_pool_sim;
pub mod v2_pool;
pub mod v_pool_sim;
pub mod mapped_vec;
pub mod text;
pub mod abi;
pub mod pool_action;
pub mod block_decoder;
pub mod keyed;
pub mod arbitro;
pub mod pair;
pub mod dex;
pub mod factory;
pub mod simulacrum;
pub mod pool_utils;
pub mod v3_pool_src;
pub mod blockchain_db;
pub mod pathfinder;
pub mod mult_provider;
pub mod supervisor;
pub mod chain_src;
pub mod chain_svc;
pub mod ws_manager;
pub mod seeker;
pub mod chain_observer;
pub mod anvil_test;
