use vstd::prelude::*;

pub mod aux_schema;
pub mod collation_chain;
pub mod collation_info;
pub mod collation_task;
pub mod counter;
pub mod decimal;
pub mod block_builder;
pub mod bls12_381;
pub mod hash;
pub mod pvf_error;
pub mod relay_driven;
pub mod relay_parent;
pub mod relay_root_index;
pub mod shield_error;
pub mod slot_timing;
pub mod tx_salt;
pub mod warp_generate;
pub mod warp_sync;
pub mod warp_verifier;

verus! {
} // verus!
