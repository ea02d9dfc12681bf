pub mod solana;
