//! Input validation and launch planning for a Solana token trading bot:
//! whitespace trimming, Base58 address checks, command-line argument checks,
//! the interactive address prompt, and the commands and scripts that start
//! trading workers locally or on a cloud instance.

pub mod text;
pub mod address;
pub mod args;
pub mod prompt;
pub mod launch;
pub mod utils;
