//! Deterministic two-colour block identicons.
//!
//! A byte seed is folded into a generator state; the draws made from that
//! state choose a foreground colour and a left-right mirrored grid of
//! blocks, which is then encoded as an indexed PNG image.

pub mod seed;
pub mod grid;
pub mod classic;
