//! A chess engine whose players are evolved rather than trained: the rules of
//! the game, the policy that turns a position into candidate moves, the
//! scoring of a self-play match and the scheduling of a tournament.
//!
//! Everything here works on integers and is verified. Network inference and
//! the sampling of moves live with the caller.

pub mod chess;
pub mod policy;
pub mod selfplay;
pub mod evolve;
pub mod ai;

pub use crate::ai::new_chess_network;
pub use crate::policy::{encode_board, move_from_index};
