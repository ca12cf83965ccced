//! Verified core of a sports-collectible NFT platform: a rarity-capped token
//! registry with approvals, a pack-draw engine that turns a hex seed into
//! mints, a treasury adapter's arithmetic, and a marketplace escrow check.
pub mod error;
pub mod rarity;
pub mod token_id;
pub mod draw;
pub mod time;
pub mod msg;
pub mod treasury;
pub mod fantasy;
pub mod nft;
pub mod marketplace;
pub mod metadata;
