//! Storage, scoring and schema-migration logic of the Hunty treasure-hunt
//! contracts, written against the contract storage of a Soroban environment.
mod codec;
mod collections;
pub mod clue_list;
pub mod hunt_storage;
pub mod nft_list;
pub mod hunty_migration;
pub mod member_lists;
mod keys;
mod ledger;
pub mod nft_storage;
pub mod migration;
pub mod store;
pub mod progress;
pub mod records;
pub mod reward_migration;
pub mod slots;
pub mod sorted;
pub mod types;
