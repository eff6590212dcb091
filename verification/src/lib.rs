//! Notification messages for a Lark-style chat webhook: keyword highlighting,
//! request signing and payload assembly, with machine-checked contracts.

pub mod config;
pub mod decimal;
pub mod dispatch;
pub mod keywords;
pub mod message;
pub mod segment;
pub mod sign;
pub mod text;
