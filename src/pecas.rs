use vstd::prelude::*;

verus! {

/// The kind of a chess piece.
#[derive(Clone, Copy, Debug, PartialEq, Eq, Structural)]
pub enum PecaTipo {
    Peao,
    Torre,
    Cavalo,
    Bispo,
    Rainha,
    Rei,
}

/// The color of a piece, and of the side to move.
#[derive(Clone, Copy, Debug, PartialEq, Eq, Structural)]
pub enum Cor {
    Branco,
    Preto,
}

/// A piece: its kind and its color.
#[derive(Clone, Copy, Debug, PartialEq, Eq, Structural)]
pub struct Peca {
    pub tipo: PecaTipo,
    pub cor: Cor,
}

/// A square of the board: row 0 is Black's back rank, row 7 White's.
#[derive(Clone, Copy, Debug, PartialEq, Eq, Structural)]
pub struct Posicao {
    pub linha: usize,
    pub coluna: usize,
}

/// Number of rows, and of columns, of the board.
pub const LADO: usize = 8;

/// Number of cells of the board.
pub const CASAS: usize = 64;

impl Posicao {
    /// The square lies on the board.
    pub open spec fn valida(self) -> bool {
        self.linha < LADO && self.coluna < LADO
    }

    /// Index of the square in the row-major list of cells.
    pub open spec fn indice(self) -> int {
        self.linha * 8 + self.coluna
    }

    /// The square at (`linha`, `coluna`), or `None` when it is off the board.
    pub fn nova(linha: usize, coluna: usize) -> (r: Option<Posicao>)
        ensures
            r == (if linha < LADO && coluna < LADO {
                Some(Posicao { linha, coluna })
            } else {
                None::<Posicao>
            }),
    {
        if linha < LADO && coluna < LADO {
            Some(Posicao { linha, coluna })
        } else {
            None
        }
    }
}

/// The opposing color.
pub open spec fn oposta(c: Cor) -> Cor {
    match c {
        Cor::Branco => Cor::Preto,
        Cor::Preto => Cor::Branco,
    }
}

/// The square at (`l`, `c`), both on the board.
pub open spec fn casa(l: int, c: int) -> Posicao {
    Posicao { linha: l as usize, coluna: c as usize }
}

/// (`l`, `c`) lies on the board.
pub open spec fn no_tabuleiro(l: int, c: int) -> bool {
    0 <= l < 8 && 0 <= c < 8
}

/// What the board `b`, listed row by row, holds at (`l`, `c`).
pub open spec fn peca_em(b: Seq<Option<Peca>>, l: int, c: int) -> Option<Peca> {
    b[l * 8 + c]
}

/// (`l`, `c`) is on the board and empty.
pub open spec fn vazia(b: Seq<Option<Peca>>, l: int, c: int) -> bool {
    no_tabuleiro(l, c) && peca_em(b, l, c) is None
}

/// (`l`, `c`) is on the board and holds a piece of the color opposing `cor`.
pub open spec fn adversaria(b: Seq<Option<Peca>>, l: int, c: int, cor: Cor) -> bool {
    no_tabuleiro(l, c) && match peca_em(b, l, c) {
        Some(p) => p.cor != cor,
        None => false,
    }
}

} // verus!
