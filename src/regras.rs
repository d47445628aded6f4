//! The movement pattern of each kind of piece, as sequences of destination
//! squares listed in the order in which they are generated.
use vstd::prelude::*;
use crate::pecas::{adversaria, casa, no_tabuleiro, peca_em, Cor, Peca, PecaTipo, Posicao};

verus! {

/// Row direction in which pawns of color `cor` advance.
pub open spec fn direcao(cor: Cor) -> int {
    match cor {
        Cor::Branco => -1,
        Cor::Preto => 1,
    }
}

/// Row on which pawns of color `cor` start.
pub open spec fn linha_inicial(cor: Cor) -> int {
    match cor {
        Cor::Branco => 6,
        Cor::Preto => 1,
    }
}

/// How many steps of size `d` lead from `x` past the edge of the board.
pub open spec fn distancia_borda(x: int, d: int) -> int {
    if d > 0 {
        8 - x
    } else if d < 0 {
        x + 1
    } else {
        0
    }
}

/// The squares that a sliding piece of color `cor` at (`l`, `c`) reaches in
/// direction (`dl`, `dc`): the empty squares in a row, then the first occupied
/// one if it holds an opposing piece.
pub open spec fn raio(b: Seq<Option<Peca>>, cor: Cor, l: int, c: int, dl: int, dc: int) -> Seq<Posicao>
    decreases distancia_borda(l, dl) + distancia_borda(c, dc),
{
    let nl = l + dl;
    let nc = c + dc;
    if (dl == 0 && dc == 0) || !no_tabuleiro(nl, nc) {
        Seq::empty()
    } else if peca_em(b, nl, nc) is None {
        seq![casa(nl, nc)] + raio(b, cor, nl, nc, dl, dc)
    } else if adversaria(b, nl, nc, cor) {
        seq![casa(nl, nc)]
    } else {
        Seq::empty()
    }
}

/// The square at offset (`dl`, `dc`) from (`l`, `c`), if it is on the board
/// and empty or held by a piece opposing `cor`.
pub open spec fn salto(b: Seq<Option<Peca>>, cor: Cor, l: int, c: int, dl: int, dc: int) -> Seq<Posicao> {
    let nl = l + dl;
    let nc = c + dc;
    if no_tabuleiro(nl, nc) && (peca_em(b, nl, nc) is None || adversaria(b, nl, nc, cor)) {
        seq![casa(nl, nc)]
    } else {
        Seq::empty()
    }
}

/// Pawn: one step forward onto an empty square, two from the starting row when
/// both squares are empty, then the forward diagonals that hold an opposing piece.
pub open spec fn movimentos_peao(b: Seq<Option<Peca>>, cor: Cor, l: int, c: int) -> Seq<Posicao> {
    let d = direcao(cor);
    let frente = if no_tabuleiro(l + d, c) && peca_em(b, l + d, c) is None {
        if l == linha_inicial(cor) && no_tabuleiro(l + 2 * d, c) && peca_em(b, l + 2 * d, c) is None {
            seq![casa(l + d, c), casa(l + 2 * d, c)]
        } else {
            seq![casa(l + d, c)]
        }
    } else {
        Seq::empty()
    };
    let esquerda = if adversaria(b, l + d, c - 1, cor) { seq![casa(l + d, c - 1)] } else { Seq::empty() };
    let direita = if adversaria(b, l + d, c + 1, cor) { seq![casa(l + d, c + 1)] } else { Seq::empty() };
    frente + esquerda + direita
}

/// Rook: the rays east, south, west and north, in that order.
pub open spec fn movimentos_torre(b: Seq<Option<Peca>>, cor: Cor, l: int, c: int) -> Seq<Posicao> {
    raio(b, cor, l, c, 0, 1) + raio(b, cor, l, c, 1, 0) + raio(b, cor, l, c, 0, -1) + raio(b, cor, l, c, -1, 0)
}

/// Bishop: the four diagonal rays, north-west first.
pub open spec fn movimentos_bispo(b: Seq<Option<Peca>>, cor: Cor, l: int, c: int) -> Seq<Posicao> {
    raio(b, cor, l, c, -1, -1) + raio(b, cor, l, c, -1, 1) + raio(b, cor, l, c, 1, -1) + raio(b, cor, l, c, 1, 1)
}

/// Knight: the eight (2, 1) jumps, whatever stands between.
pub open spec fn movimentos_cavalo(b: Seq<Option<Peca>>, cor: Cor, l: int, c: int) -> Seq<Posicao> {
    salto(b, cor, l, c, -2, -1) + salto(b, cor, l, c, -2, 1) + salto(b, cor, l, c, -1, -2) + salto(b, cor, l, c, -1, 2)
        + salto(b, cor, l, c, 1, -2) + salto(b, cor, l, c, 1, 2) + salto(b, cor, l, c, 2, -1) + salto(b, cor, l, c, 2, 1)
}

/// King: the eight neighbouring squares, row by row.
pub open spec fn movimentos_rei(b: Seq<Option<Peca>>, cor: Cor, l: int, c: int) -> Seq<Posicao> {
    salto(b, cor, l, c, -1, -1) + salto(b, cor, l, c, -1, 0) + salto(b, cor, l, c, -1, 1) + salto(b, cor, l, c, 0, -1)
        + salto(b, cor, l, c, 0, 1) + salto(b, cor, l, c, 1, -1) + salto(b, cor, l, c, 1, 0) + salto(b, cor, l, c, 1, 1)
}

/// The destinations of piece `p` standing at `pos` on board `b`.
pub open spec fn movimentos(b: Seq<Option<Peca>>, pos: Posicao, p: Peca) -> Seq<Posicao> {
    let l = pos.linha as int;
    let c = pos.coluna as int;
    match p.tipo {
        PecaTipo::Peao => movimentos_peao(b, p.cor, l, c),
        PecaTipo::Torre => movimentos_torre(b, p.cor, l, c),
        PecaTipo::Cavalo => movimentos_cavalo(b, p.cor, l, c),
        PecaTipo::Bispo => movimentos_bispo(b, p.cor, l, c),
        PecaTipo::Rainha => movimentos_torre(b, p.cor, l, c) + movimentos_bispo(b, p.cor, l, c),
        PecaTipo::Rei => movimentos_rei(b, p.cor, l, c),
    }
}

/// The destinations of whatever stands at `pos` on board `b`: none on an empty square.
pub open spec fn destinos(b: Seq<Option<Peca>>, pos: Posicao) -> Seq<Posicao> {
    match peca_em(b, pos.linha as int, pos.coluna as int) {
        Some(p) => movimentos(b, pos, p),
        None => Seq::empty(),
    }
}

/// Every square of a ray that does not head east lies in the ray's starting
/// column or west of it.
pub proof fn lemma_raio_nao_avanca_coluna(b: Seq<Option<Peca>>, cor: Cor, l: int, c: int, dl: int, dc: int)
    requires
        dc <= 0,
    ensures
        forall|i: int| 0 <= i < raio(b, cor, l, c, dl, dc).len() ==> #[trigger] raio(b, cor, l, c, dl, dc)[i].coluna <= c,
    decreases distancia_borda(l, dl) + distancia_borda(c, dc),
{
    let nl = l + dl;
    let nc = c + dc;
    if !((dl == 0 && dc == 0) || !no_tabuleiro(nl, nc)) && peca_em(b, nl, nc) is None {
        lemma_raio_nao_avanca_coluna(b, cor, nl, nc, dl, dc);
        let resto = raio(b, cor, nl, nc, dl, dc);
        assert forall|i: int| 0 <= i < raio(b, cor, l, c, dl, dc).len() implies #[trigger] raio(b, cor, l, c, dl, dc)[i].coluna <= c by {
            if i > 0 {
                assert(raio(b, cor, l, c, dl, dc)[i] == resto[i - 1]);
            }
        }
    }
}

/// A White pawn on its starting square (6, `c`) may advance one or two squares
/// when both squares ahead are empty, and never two when the first is occupied.
pub proof fn lemma_peao_passo_duplo(b: Seq<Option<Peca>>, c: int)
    requires
        b.len() == 64,
        0 <= c < 8,
        peca_em(b, 6, c) == Some(Peca { tipo: PecaTipo::Peao, cor: Cor::Branco }),
    ensures
        peca_em(b, 5, c) is None && peca_em(b, 4, c) is None ==> destinos(b, casa(6, c)).contains(casa(5, c))
            && destinos(b, casa(6, c)).contains(casa(4, c)),
        peca_em(b, 5, c) is Some ==> !destinos(b, casa(6, c)).contains(casa(4, c)),
{
    let m = destinos(b, casa(6, c));
    if peca_em(b, 5, c) is None && peca_em(b, 4, c) is None {
        assert(m[0] == casa(5, c));
        assert(m[1] == casa(4, c));
    }
    if peca_em(b, 5, c) is Some {
        assert forall|i: int| 0 <= i < m.len() implies #[trigger] m[i].linha == 5 by {}
        assert(!m.contains(casa(4, c)));
    }
}

/// A rook at (4, 4) with an empty (4, 5) and an opposing piece at (4, 6)
/// reaches both, and not (4, 7) behind them.
pub proof fn lemma_torre_para_na_captura(b: Seq<Option<Peca>>, cor: Cor)
    requires
        b.len() == 64,
        peca_em(b, 4, 4) == Some(Peca { tipo: PecaTipo::Torre, cor }),
        peca_em(b, 4, 5) is None,
        adversaria(b, 4, 6, cor),
    ensures
        destinos(b, casa(4, 4)).contains(casa(4, 5)),
        destinos(b, casa(4, 4)).contains(casa(4, 6)),
        !destinos(b, casa(4, 4)).contains(casa(4, 7)),
{
    let leste = raio(b, cor, 4, 4, 0, 1);
    assert(raio(b, cor, 4, 5, 0, 1) == seq![casa(4, 6)]);
    assert(leste == seq![casa(4, 5), casa(4, 6)]);
    let sul = raio(b, cor, 4, 4, 1, 0);
    let oeste = raio(b, cor, 4, 4, 0, -1);
    let norte = raio(b, cor, 4, 4, -1, 0);
    lemma_raio_nao_avanca_coluna(b, cor, 4, 4, 1, 0);
    lemma_raio_nao_avanca_coluna(b, cor, 4, 4, 0, -1);
    lemma_raio_nao_avanca_coluna(b, cor, 4, 4, -1, 0);
    let m = destinos(b, casa(4, 4));
    assert(m == leste + sul + oeste + norte);
    assert(m[0] == casa(4, 5));
    assert(m[1] == casa(4, 6));
    assert forall|i: int| 0 <= i < m.len() implies #[trigger] m[i] != casa(4, 7) by {
        if i >= 2 {
            let j = i - 2;
            if j < sul.len() {
                assert(m[i] == sul[j]);
                assert(sul[j].coluna <= 4);
            } else if j < sul.len() + oeste.len() {
                assert(m[i] == oeste[j - sul.len()]);
                assert(oeste[j - sul.len()].coluna <= 4);
            } else {
                assert(m[i] == norte[j - sul.len() - oeste.len()]);
                assert(norte[j - sul.len() - oeste.len()].coluna <= 4);
            }
            assert(m[i].coluna <= 4);
        } else {
            assert(m[i] == leste[i]);
        }
    }
}

/// A knight at (0, 1) reaches (2, 2) whenever that square is empty or holds an
/// opposing piece, whatever stands on the squares between.
pub proof fn lemma_cavalo_salta(b: Seq<Option<Peca>>, cor: Cor)
    requires
        b.len() == 64,
        peca_em(b, 0, 1) == Some(Peca { tipo: PecaTipo::Cavalo, cor }),
        peca_em(b, 2, 2) is None || adversaria(b, 2, 2, cor),
    ensures
        destinos(b, casa(0, 1)).contains(casa(2, 2)),
{
    let m = destinos(b, casa(0, 1));
    let ultimo = salto(b, cor, 0, 1, 2, 1);
    assert(ultimo == seq![casa(2, 2)]);
    assert(m[m.len() - 1] == casa(2, 2));
}

} // verus!
