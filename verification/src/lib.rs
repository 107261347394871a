//! A breeding center for creatures: the creature model, the registry that
//! holds them, and the rules for training, sorting and breeding.

pub mod breeding;
pub mod chance;
pub mod kinds;
pub mod pokemon;
pub mod report;
pub mod shell;
pub mod sorting;
pub mod text;
