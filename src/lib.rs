//! Rules engine for a two-player chess board: board contents, side to move,
//! the selected square and the destinations that the selected piece can reach.
pub mod pecas;
pub mod regras;
pub mod xadrez;

pub use pecas::{Cor, Peca, PecaTipo, Posicao};
pub use xadrez::Xadrez;
