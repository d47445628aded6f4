//! The game state and the turn controller.
use vstd::prelude::*;
use crate::pecas::{adversaria, casa, no_tabuleiro, oposta, peca_em, Cor, Peca, PecaTipo, Posicao, CASAS, LADO};
use crate::regras::{
    destinos, distancia_borda, movimentos, movimentos_bispo, movimentos_cavalo, movimentos_peao,
    movimentos_rei, movimentos_torre, raio, salto,
};

verus! {

/// What a game is, abstractly.
pub struct EstadoJogo {
    /// The 64 cells, row by row.
    pub tabuleiro: Seq<Option<Peca>>,
    /// The selected square, if any.
    pub selecionada: Option<Posicao>,
    /// The side to move.
    pub turno: Cor,
    /// The destinations of the selected piece.
    pub movimentos: Seq<Posicao>,
}

/// A game: the board, the side to move, the selected square and the cached
/// destinations of the piece on it.
pub struct Xadrez {
    tabuleiro: Vec<Option<Peca>>,
    selecionada: Option<Posicao>,
    turno: Cor,
    movimentos_validos: Vec<Posicao>,
}

impl View for Xadrez {
    type V = EstadoJogo;

    closed spec fn view(&self) -> EstadoJogo {
        EstadoJogo {
            tabuleiro: self.tabuleiro@,
            selecionada: self.selecionada,
            turno: self.turno,
            movimentos: self.movimentos_validos@,
        }
    }
}

impl EstadoJogo {
    /// Well-formed: 64 cells, a selection on the board, and destinations only
    /// while a square is selected.
    pub open spec fn bem_formado(self) -> bool {
        &&& self.tabuleiro.len() == 64
        &&& match self.selecionada {
            Some(o) => o.valida(),
            None => self.movimentos.len() == 0,
        }
    }

    /// What the board holds at `pos`.
    pub open spec fn peca(self, pos: Posicao) -> Option<Peca> {
        peca_em(self.tabuleiro, pos.linha as int, pos.coluna as int)
    }
}

/// What the standard starting position holds at (`l`, `c`).
pub open spec fn peca_inicial(l: int, c: int) -> Option<Peca> {
    if l == 0 {
        Some(Peca { tipo: tipo_traseiro(c), cor: Cor::Preto })
    } else if l == 1 {
        Some(Peca { tipo: PecaTipo::Peao, cor: Cor::Preto })
    } else if l == 6 {
        Some(Peca { tipo: PecaTipo::Peao, cor: Cor::Branco })
    } else if l == 7 {
        Some(Peca { tipo: tipo_traseiro(c), cor: Cor::Branco })
    } else {
        None
    }
}

/// The back-rank kind at column `c`: Rook, Knight, Bishop, Queen, King,
/// Bishop, Knight, Rook.
pub open spec fn tipo_traseiro(c: int) -> PecaTipo {
    if c == 0 || c == 7 {
        PecaTipo::Torre
    } else if c == 1 || c == 6 {
        PecaTipo::Cavalo
    } else if c == 2 || c == 5 {
        PecaTipo::Bispo
    } else if c == 3 {
        PecaTipo::Rainha
    } else {
        PecaTipo::Rei
    }
}

/// Board `b` after moving what stands on `origem` to `destino`.
pub open spec fn mover(b: Seq<Option<Peca>>, origem: Posicao, destino: Posicao) -> Seq<Option<Peca>> {
    b.update(origem.indice(), None).update(destino.indice(), b[origem.indice()])
}

/// The state after square `s` is clicked in state `e`: a move when `s` is
/// among the destinations of the selected piece; otherwise a selection of `s`
/// when it holds a piece of the side to move; otherwise no selection.
pub open spec fn apos_clique(e: EstadoJogo, s: Posicao) -> EstadoJogo {
    if e.selecionada is Some && e.movimentos.contains(s) {
        EstadoJogo {
            tabuleiro: mover(e.tabuleiro, e.selecionada->Some_0, s),
            selecionada: None,
            turno: oposta(e.turno),
            movimentos: Seq::empty(),
        }
    } else if e.peca(s) is Some && e.peca(s)->Some_0.cor == e.turno {
        EstadoJogo {
            selecionada: Some(s),
            movimentos: movimentos(e.tabuleiro, s, e.peca(s)->Some_0),
            ..e
        }
    } else {
        EstadoJogo { selecionada: None, movimentos: Seq::empty(), ..e }
    }
}

impl Xadrez {
    /// The piece on `pos`, if any.
    pub fn get_peca(&self, pos: Posicao) -> (r: Option<Peca>)
        requires
            self@.tabuleiro.len() == 64,
            pos.valida(),
        ensures
            r == self@.peca(pos),
    {
        self.tabuleiro[pos.linha * LADO + pos.coluna]
    }

    /// Overwrites the cell at `pos` with `peca`.
    pub fn set_peca(&mut self, pos: Posicao, peca: Option<Peca>)
        requires
            old(self)@.tabuleiro.len() == 64,
            pos.valida(),
        ensures
            final(self)@ == (EstadoJogo {
                tabuleiro: old(self)@.tabuleiro.update(pos.indice(), peca),
                ..old(self)@
            }),
    {
        self.tabuleiro.set(pos.linha * LADO + pos.coluna, peca);
    }

    /// Appends the ray from `pos` in direction (`dl`, `dc`) for a piece of color `cor`.
    fn deslizar(&mut self, pos: Posicao, cor: Cor, dl: i32, dc: i32)
        requires
            old(self)@.tabuleiro.len() == 64,
            pos.valida(),
            -1 <= dl <= 1,
            -1 <= dc <= 1,
            dl != 0 || dc != 0,
        ensures
            final(self)@ == (EstadoJogo {
                movimentos: old(self)@.movimentos + raio(old(self)@.tabuleiro, cor, pos.linha as int, pos.coluna as int, dl as int, dc as int),
                ..old(self)@
            }),
    {
        let ghost b = self@.tabuleiro;
        let ghost total = old(self)@.movimentos + raio(b, cor, pos.linha as int, pos.coluna as int, dl as int, dc as int);
        let mut la: i32 = pos.linha as i32 + dl;
        let mut ca: i32 = pos.coluna as i32 + dc;
        while 0 <= la && la < 8 && 0 <= ca && ca < 8
            invariant_except_break
                no_tabuleiro(la - dl, ca - dc),
                self@.movimentos + raio(b, cor, la - dl, ca - dc, dl as int, dc as int) == total,
            invariant
                self@.tabuleiro == b,
                b == old(self)@.tabuleiro,
                self@.selecionada == old(self)@.selecionada,
                self@.turno == old(self)@.turno,
                b.len() == 64,
                -1 <= dl <= 1,
                -1 <= dc <= 1,
                dl != 0 || dc != 0,
                -1 <= la <= 8,
                -1 <= ca <= 8,
            ensures
                self@.movimentos == total,
            decreases distancia_borda(la as int, dl as int) + distancia_borda(ca as int, dc as int),
        {
            let nova_pos = Posicao { linha: la as usize, coluna: ca as usize };
            let ghost antes = self@.movimentos;
            match self.get_peca(nova_pos) {
                None => {
                    self.movimentos_validos.push(nova_pos);
                    proof {
                        assert(self@.movimentos =~= antes + seq![casa(la as int, ca as int)]);
                        assert(raio(b, cor, la - dl, ca - dc, dl as int, dc as int)
                            == seq![casa(la as int, ca as int)] + raio(b, cor, la as int, ca as int, dl as int, dc as int));
                        vstd::seq_lib::lemma_concat_associative(antes, seq![casa(la as int, ca as int)], raio(b, cor, la as int, ca as int, dl as int, dc as int));
                    }
                },
                Some(peca_destino) => {
                    if peca_destino.cor != cor {
                        self.movimentos_validos.push(nova_pos);
                        assert(raio(b, cor, la - dl, ca - dc, dl as int, dc as int) == seq![casa(la as int, ca as int)]);
                        assert(self@.movimentos =~= antes + seq![casa(la as int, ca as int)]);
                    } else {
                        assert(raio(b, cor, la - dl, ca - dc, dl as int, dc as int) == Seq::<Posicao>::empty());
                        assert(antes + Seq::<Posicao>::empty() =~= antes);
                    }
                    break;
                },
            }
            la = la + dl;
            ca = ca + dc;
        }
    }

    /// Appends the square at offset (`dl`, `dc`) from `pos` when a piece of
    /// color `cor` may land there.
    fn saltar(&mut self, pos: Posicao, cor: Cor, dl: i32, dc: i32)
        requires
            old(self)@.tabuleiro.len() == 64,
            pos.valida(),
            -2 <= dl <= 2,
            -2 <= dc <= 2,
        ensures
            final(self)@ == (EstadoJogo {
                movimentos: old(self)@.movimentos + salto(old(self)@.tabuleiro, cor, pos.linha as int, pos.coluna as int, dl as int, dc as int),
                ..old(self)@
            }),
    {
        let nova_linha: i32 = pos.linha as i32 + dl;
        let nova_coluna: i32 = pos.coluna as i32 + dc;
        if nova_linha >= 0 && nova_linha < 8 && nova_coluna >= 0 && nova_coluna < 8 {
            let nova_pos = Posicao { linha: nova_linha as usize, coluna: nova_coluna as usize };
            match self.get_peca(nova_pos) {
                None => {
                    self.movimentos_validos.push(nova_pos);
                },
                Some(peca_destino) => {
                    if peca_destino.cor != cor {
                        self.movimentos_validos.push(nova_pos);
                    }
                },
            }
        }
        assert(self@.movimentos =~= old(self)@.movimentos + salto(old(self)@.tabuleiro, cor, pos.linha as int, pos.coluna as int, dl as int, dc as int));
    }

    /// Appends the destinations of a rook of color `cor` at `pos`.
    pub fn calcular_movimentos_torre(&mut self, pos: Posicao, cor: Cor)
        requires
            old(self)@.tabuleiro.len() == 64,
            pos.valida(),
        ensures
            final(self)@ == (EstadoJogo {
                movimentos: old(self)@.movimentos + movimentos_torre(old(self)@.tabuleiro, cor, pos.linha as int, pos.coluna as int),
                ..old(self)@
            }),
    {
        let ghost b = self@.tabuleiro;
        let ghost m0 = self@.movimentos;
        let ghost (l, c) = (pos.linha as int, pos.coluna as int);
        self.deslizar(pos, cor, 0, 1);
        let ghost mut feitos = raio(b, cor, l, c, 0, 1);
        self.deslizar(pos, cor, 1, 0);
        proof {
            vstd::seq_lib::lemma_concat_associative(m0, feitos, raio(b, cor, l, c, 1, 0));
            feitos = feitos + raio(b, cor, l, c, 1, 0);
        }
        self.deslizar(pos, cor, 0, -1);
        proof {
            vstd::seq_lib::lemma_concat_associative(m0, feitos, raio(b, cor, l, c, 0, -1));
            feitos = feitos + raio(b, cor, l, c, 0, -1);
        }
        self.deslizar(pos, cor, -1, 0);
        proof {
            vstd::seq_lib::lemma_concat_associative(m0, feitos, raio(b, cor, l, c, -1, 0));
            feitos = feitos + raio(b, cor, l, c, -1, 0);
        }
        assert(feitos == movimentos_torre(b, cor, l, c));
    }

    /// Appends the destinations of a bishop of color `cor` at `pos`.
    pub fn calcular_movimentos_bispo(&mut self, pos: Posicao, cor: Cor)
        requires
            old(self)@.tabuleiro.len() == 64,
            pos.valida(),
        ensures
            final(self)@ == (EstadoJogo {
                movimentos: old(self)@.movimentos + movimentos_bispo(old(self)@.tabuleiro, cor, pos.linha as int, pos.coluna as int),
                ..old(self)@
            }),
    {
        let ghost b = self@.tabuleiro;
        let ghost m0 = self@.movimentos;
        let ghost (l, c) = (pos.linha as int, pos.coluna as int);
        self.deslizar(pos, cor, -1, -1);
        let ghost mut feitos = raio(b, cor, l, c, -1, -1);
        self.deslizar(pos, cor, -1, 1);
        proof {
            vstd::seq_lib::lemma_concat_associative(m0, feitos, raio(b, cor, l, c, -1, 1));
            feitos = feitos + raio(b, cor, l, c, -1, 1);
        }
        self.deslizar(pos, cor, 1, -1);
        proof {
            vstd::seq_lib::lemma_concat_associative(m0, feitos, raio(b, cor, l, c, 1, -1));
            feitos = feitos + raio(b, cor, l, c, 1, -1);
        }
        self.deslizar(pos, cor, 1, 1);
        proof {
            vstd::seq_lib::lemma_concat_associative(m0, feitos, raio(b, cor, l, c, 1, 1));
            feitos = feitos + raio(b, cor, l, c, 1, 1);
        }
        assert(feitos == movimentos_bispo(b, cor, l, c));
    }

    /// Appends the destinations of a knight of color `cor` at `pos`.
    pub fn calcular_movimentos_cavalo(&mut self, pos: Posicao, cor: Cor)
        requires
            old(self)@.tabuleiro.len() == 64,
            pos.valida(),
        ensures
            final(self)@ == (EstadoJogo {
                movimentos: old(self)@.movimentos + movimentos_cavalo(old(self)@.tabuleiro, cor, pos.linha as int, pos.coluna as int),
                ..old(self)@
            }),
    {
        let ghost b = self@.tabuleiro;
        let ghost m0 = self@.movimentos;
        let ghost (l, c) = (pos.linha as int, pos.coluna as int);
        self.saltar(pos, cor, -2, -1);
        let ghost mut feitos = salto(b, cor, l, c, -2, -1);
        self.saltar(pos, cor, -2, 1);
        proof {
            vstd::seq_lib::lemma_concat_associative(m0, feitos, salto(b, cor, l, c, -2, 1));
            feitos = feitos + salto(b, cor, l, c, -2, 1);
        }
        self.saltar(pos, cor, -1, -2);
        proof {
            vstd::seq_lib::lemma_concat_associative(m0, feitos, salto(b, cor, l, c, -1, -2));
            feitos = feitos + salto(b, cor, l, c, -1, -2);
        }
        self.saltar(pos, cor, -1, 2);
        proof {
            vstd::seq_lib::lemma_concat_associative(m0, feitos, salto(b, cor, l, c, -1, 2));
            feitos = feitos + salto(b, cor, l, c, -1, 2);
        }
        self.saltar(pos, cor, 1, -2);
        proof {
            vstd::seq_lib::lemma_concat_associative(m0, feitos, salto(b, cor, l, c, 1, -2));
            feitos = feitos + salto(b, cor, l, c, 1, -2);
        }
        self.saltar(pos, cor, 1, 2);
        proof {
            vstd::seq_lib::lemma_concat_associative(m0, feitos, salto(b, cor, l, c, 1, 2));
            feitos = feitos + salto(b, cor, l, c, 1, 2);
        }
        self.saltar(pos, cor, 2, -1);
        proof {
            vstd::seq_lib::lemma_concat_associative(m0, feitos, salto(b, cor, l, c, 2, -1));
            feitos = feitos + salto(b, cor, l, c, 2, -1);
        }
        self.saltar(pos, cor, 2, 1);
        proof {
            vstd::seq_lib::lemma_concat_associative(m0, feitos, salto(b, cor, l, c, 2, 1));
            feitos = feitos + salto(b, cor, l, c, 2, 1);
        }
        assert(feitos == movimentos_cavalo(b, cor, l, c));
    }

    /// Appends the destinations of a king of color `cor` at `pos`.
    pub fn calcular_movimentos_rei(&mut self, pos: Posicao, cor: Cor)
        requires
            old(self)@.tabuleiro.len() == 64,
            pos.valida(),
        ensures
            final(self)@ == (EstadoJogo {
                movimentos: old(self)@.movimentos + movimentos_rei(old(self)@.tabuleiro, cor, pos.linha as int, pos.coluna as int),
                ..old(self)@
            }),
    {
        let ghost b = self@.tabuleiro;
        let ghost m0 = self@.movimentos;
        let ghost (l, c) = (pos.linha as int, pos.coluna as int);
        self.saltar(pos, cor, -1, -1);
        let ghost mut feitos = salto(b, cor, l, c, -1, -1);
        self.saltar(pos, cor, -1, 0);
        proof {
            vstd::seq_lib::lemma_concat_associative(m0, feitos, salto(b, cor, l, c, -1, 0));
            feitos = feitos + salto(b, cor, l, c, -1, 0);
        }
        self.saltar(pos, cor, -1, 1);
        proof {
            vstd::seq_lib::lemma_concat_associative(m0, feitos, salto(b, cor, l, c, -1, 1));
            feitos = feitos + salto(b, cor, l, c, -1, 1);
        }
        self.saltar(pos, cor, 0, -1);
        proof {
            vstd::seq_lib::lemma_concat_associative(m0, feitos, salto(b, cor, l, c, 0, -1));
            feitos = feitos + salto(b, cor, l, c, 0, -1);
        }
        self.saltar(pos, cor, 0, 1);
        proof {
            vstd::seq_lib::lemma_concat_associative(m0, feitos, salto(b, cor, l, c, 0, 1));
            feitos = feitos + salto(b, cor, l, c, 0, 1);
        }
        self.saltar(pos, cor, 1, -1);
        proof {
            vstd::seq_lib::lemma_concat_associative(m0, feitos, salto(b, cor, l, c, 1, -1));
            feitos = feitos + salto(b, cor, l, c, 1, -1);
        }
        self.saltar(pos, cor, 1, 0);
        proof {
            vstd::seq_lib::lemma_concat_associative(m0, feitos, salto(b, cor, l, c, 1, 0));
            feitos = feitos + salto(b, cor, l, c, 1, 0);
        }
        self.saltar(pos, cor, 1, 1);
        proof {
            vstd::seq_lib::lemma_concat_associative(m0, feitos, salto(b, cor, l, c, 1, 1));
            feitos = feitos + salto(b, cor, l, c, 1, 1);
        }
        assert(feitos == movimentos_rei(b, cor, l, c));
    }

    /// Appends the destinations of a pawn of color `cor` at `pos`.
    pub fn calcular_movimentos_peao(&mut self, pos: Posicao, cor: Cor)
        requires
            old(self)@.tabuleiro.len() == 64,
            pos.valida(),
        ensures
            final(self)@ == (EstadoJogo {
                movimentos: old(self)@.movimentos + movimentos_peao(old(self)@.tabuleiro, cor, pos.linha as int, pos.coluna as int),
                ..old(self)@
            }),
    {
        let ghost b = self@.tabuleiro;
        let ghost m0 = self@.movimentos;
        let direcao: i32 = match cor {
            Cor::Branco => -1,
            Cor::Preto => 1,
        };

        // One step forward, then two from the starting row.
        let nova_linha: i32 = pos.linha as i32 + direcao;
        if nova_linha >= 0 && nova_linha < 8 {
            let nova_pos = Posicao { linha: nova_linha as usize, coluna: pos.coluna };
            if self.get_peca(nova_pos).is_none() {
                self.movimentos_validos.push(nova_pos);
                let linha_inicial: usize = match cor {
                    Cor::Branco => 6,
                    Cor::Preto => 1,
                };
                if pos.linha == linha_inicial {
                    let nova_linha_2: i32 = nova_linha + direcao;
                    if nova_linha_2 >= 0 && nova_linha_2 < 8 {
                        let nova_pos_2 = Posicao { linha: nova_linha_2 as usize, coluna: pos.coluna };
                        if self.get_peca(nova_pos_2).is_none() {
                            self.movimentos_validos.push(nova_pos_2);
                        }
                    }
                }
            }
        }
        let ghost m1 = self@.movimentos;

        // Diagonal captures, left then right.
        self.capturar(pos, cor, direcao, -1);
        let ghost m2 = self@.movimentos;
        self.capturar(pos, cor, direcao, 1);
        proof {
            let (l, c) = (pos.linha as int, pos.coluna as int);
            let d = direcao as int;
            let esquerda = if adversaria(b, l + d, c - 1, cor) { seq![casa(l + d, c - 1)] } else { Seq::empty() };
            let direita = if adversaria(b, l + d, c + 1, cor) { seq![casa(l + d, c + 1)] } else { Seq::empty() };
            let frente = m1.subrange(m0.len() as int, m1.len() as int);
            assert(m1 == m0 + frente);
            vstd::seq_lib::lemma_concat_associative(m0, frente, esquerda);
            vstd::seq_lib::lemma_concat_associative(m0, frente + esquerda, direita);
            assert(movimentos_peao(b, cor, l, c) == frente + esquerda + direita);
        }
    }

    /// Appends the square one row in direction `direcao` and one column in
    /// direction `dc` from `pos` when it holds a piece opposing `cor`.
    fn capturar(&mut self, pos: Posicao, cor: Cor, direcao: i32, dc: i32)
        requires
            old(self)@.tabuleiro.len() == 64,
            pos.valida(),
            -1 <= direcao <= 1,
            -1 <= dc <= 1,
        ensures
            final(self)@ == (EstadoJogo {
                movimentos: old(self)@.movimentos + (if adversaria(old(self)@.tabuleiro, pos.linha + direcao, pos.coluna + dc, cor) {
                    seq![casa(pos.linha + direcao, pos.coluna + dc)]
                } else {
                    Seq::empty()
                }),
                ..old(self)@
            }),
    {
        let nova_coluna: i32 = pos.coluna as i32 + dc;
        let nova_linha: i32 = pos.linha as i32 + direcao;
        if nova_coluna >= 0 && nova_coluna < 8 && nova_linha >= 0 && nova_linha < 8 {
            let nova_pos = Posicao { linha: nova_linha as usize, coluna: nova_coluna as usize };
            if let Some(peca_destino) = self.get_peca(nova_pos) {
                if peca_destino.cor != cor {
                    self.movimentos_validos.push(nova_pos);
                }
            }
        }
        assert(self@.movimentos =~= old(self)@.movimentos + (if adversaria(old(self)@.tabuleiro, pos.linha + direcao, pos.coluna + dc, cor) {
            seq![casa(pos.linha + direcao, pos.coluna + dc)]
        } else {
            Seq::empty()
        }));
    }

    /// Replaces the cached destinations with those of the piece at `pos`;
    /// none when `pos` is empty.
    pub fn calcular_movimentos_validos(&mut self, pos: Posicao)
        requires
            old(self)@.tabuleiro.len() == 64,
            pos.valida(),
        ensures
            final(self)@ == (EstadoJogo { movimentos: destinos(old(self)@.tabuleiro, pos), ..old(self)@ }),
    {
        self.movimentos_validos.clear();
        assert(self@.movimentos =~= Seq::<Posicao>::empty());
        if let Some(peca) = self.get_peca(pos) {
            match peca.tipo {
                PecaTipo::Peao => self.calcular_movimentos_peao(pos, peca.cor),
                PecaTipo::Torre => self.calcular_movimentos_torre(pos, peca.cor),
                PecaTipo::Cavalo => self.calcular_movimentos_cavalo(pos, peca.cor),
                PecaTipo::Bispo => self.calcular_movimentos_bispo(pos, peca.cor),
                PecaTipo::Rainha => {
                    self.calcular_movimentos_torre(pos, peca.cor);
                    self.calcular_movimentos_bispo(pos, peca.cor);
                },
                PecaTipo::Rei => self.calcular_movimentos_rei(pos, peca.cor),
            }
        }
        assert(self@.movimentos =~= destinos(old(self)@.tabuleiro, pos));
    }

    /// `destino` is among the cached destinations; `origem` plays no part.
    pub fn movimento_valido(&self, origem: Posicao, destino: Posicao) -> (r: bool)
        ensures
            r == self@.movimentos.contains(destino),
    {
        let mut i: usize = 0;
        while i < self.movimentos_validos.len()
            invariant
                i <= self@.movimentos.len(),
                forall|j: int| 0 <= j < i ==> self@.movimentos[j] != destino,
            decreases self@.movimentos.len() - i,
        {
            let p = self.movimentos_validos[i];
            if p.linha == destino.linha && p.coluna == destino.coluna {
                assert(self@.movimentos[i as int] == destino);
                return true;
            }
            i = i + 1;
        }
        false
    }

    /// Moves whatever stands on `origem` to `destino`, discarding what stood
    /// there, clears the selection and passes the turn.
    pub fn mover_peca(&mut self, origem: Posicao, destino: Posicao)
        requires
            old(self)@.tabuleiro.len() == 64,
            origem.valida(),
            destino.valida(),
        ensures
            final(self)@ == (EstadoJogo {
                tabuleiro: mover(old(self)@.tabuleiro, origem, destino),
                selecionada: None,
                turno: oposta(old(self)@.turno),
                movimentos: Seq::empty(),
            }),
    {
        let peca = self.get_peca(origem);
        self.set_peca(origem, None);
        self.set_peca(destino, peca);
        self.selecionada = None;
        self.movimentos_validos.clear();
        self.turno = match self.turno {
            Cor::Branco => Cor::Preto,
            Cor::Preto => Cor::Branco,
        };
        assert(self@.movimentos =~= Seq::<Posicao>::empty());
    }
    /// A game on an empty board, White to move, nothing selected.
    pub fn vazio() -> (r: Xadrez)
        ensures
            r@.bem_formado(),
            r@.tabuleiro == Seq::new(64, |i: int| None::<Peca>),
            r@.selecionada is None,
            r@.turno == Cor::Branco,
    {
        let mut tabuleiro: Vec<Option<Peca>> = Vec::new();
        let mut i: usize = 0;
        while i < CASAS
            invariant
                i <= CASAS,
                tabuleiro@ == Seq::new(i as nat, |j: int| None::<Peca>),
            decreases CASAS - i,
        {
            tabuleiro.push(None);
            i = i + 1;
            assert(tabuleiro@ =~= Seq::new(i as nat, |j: int| None::<Peca>));
        }
        Xadrez { tabuleiro, selecionada: None, turno: Cor::Branco, movimentos_validos: Vec::new() }
    }

    /// A game in the standard starting position, White to move, nothing selected.
    pub fn new() -> (r: Xadrez)
        ensures
            r@.bem_formado(),
            forall|l: int, c: int| no_tabuleiro(l, c) ==> #[trigger] peca_em(r@.tabuleiro, l, c) == peca_inicial(l, c),
            r@.selecionada is None,
            r@.turno == Cor::Branco,
    {
        let mut jogo = Xadrez::vazio();
        jogo.inicializar_tabuleiro();
        jogo
    }

    /// Places both sides' pieces on rows 0, 1, 6 and 7, as in the starting
    /// position; the other rows are left as they were.
    pub fn inicializar_tabuleiro(&mut self)
        requires
            old(self)@.tabuleiro.len() == 64,
        ensures
            final(self)@.tabuleiro.len() == 64,
            final(self)@.selecionada == old(self)@.selecionada,
            final(self)@.turno == old(self)@.turno,
            final(self)@.movimentos == old(self)@.movimentos,
            forall|l: int, c: int| no_tabuleiro(l, c) ==> #[trigger] peca_em(final(self)@.tabuleiro, l, c) == (
                if l == 0 || l == 1 || l == 6 || l == 7 {
                    peca_inicial(l, c)
                } else {
                    peca_em(old(self)@.tabuleiro, l, c)
                }),
    {
        let mut coluna: usize = 0;
        while coluna < LADO
            invariant
                coluna <= LADO,
                self@.tabuleiro.len() == 64,
                self@.selecionada == old(self)@.selecionada,
                self@.turno == old(self)@.turno,
                self@.movimentos == old(self)@.movimentos,
                forall|l: int, c: int| no_tabuleiro(l, c) ==> #[trigger] peca_em(self@.tabuleiro, l, c) == (
                    if (l == 1 || l == 6) && c < coluna {
                        peca_inicial(l, c)
                    } else {
                        peca_em(old(self)@.tabuleiro, l, c)
                    }),
            decreases LADO - coluna,
        {
            let ghost antes = self@.tabuleiro;
            self.set_peca(Posicao { linha: 1, coluna }, Some(Peca { tipo: PecaTipo::Peao, cor: Cor::Preto }));
            self.set_peca(Posicao { linha: 6, coluna }, Some(Peca { tipo: PecaTipo::Peao, cor: Cor::Branco }));
            coluna = coluna + 1;
            assert forall|l: int, c: int| no_tabuleiro(l, c) implies #[trigger] peca_em(self@.tabuleiro, l, c) == (
                if (l == 1 || l == 6) && c < coluna {
                    peca_inicial(l, c)
                } else {
                    peca_em(old(self)@.tabuleiro, l, c)
                }) by {
                assert(peca_em(antes, l, c) == antes[l * 8 + c]);
            }
        }

        let pecas_traseiras: [PecaTipo; 8] = [
            PecaTipo::Torre,
            PecaTipo::Cavalo,
            PecaTipo::Bispo,
            PecaTipo::Rainha,
            PecaTipo::Rei,
            PecaTipo::Bispo,
            PecaTipo::Cavalo,
            PecaTipo::Torre,
        ];
        let mut coluna: usize = 0;
        while coluna < LADO
            invariant
                coluna <= LADO,
                forall|c: int| 0 <= c < 8 ==> pecas_traseiras@[c] == tipo_traseiro(c),
                self@.tabuleiro.len() == 64,
                self@.selecionada == old(self)@.selecionada,
                self@.turno == old(self)@.turno,
                self@.movimentos == old(self)@.movimentos,
                forall|l: int, c: int| no_tabuleiro(l, c) ==> #[trigger] peca_em(self@.tabuleiro, l, c) == (
                    if l == 1 || l == 6 || ((l == 0 || l == 7) && c < coluna) {
                        peca_inicial(l, c)
                    } else {
                        peca_em(old(self)@.tabuleiro, l, c)
                    }),
            decreases LADO - coluna,
        {
            let ghost antes = self@.tabuleiro;
            let tipo = pecas_traseiras[coluna];
            self.set_peca(Posicao { linha: 0, coluna }, Some(Peca { tipo, cor: Cor::Preto }));
            self.set_peca(Posicao { linha: 7, coluna }, Some(Peca { tipo, cor: Cor::Branco }));
            coluna = coluna + 1;
            assert forall|l: int, c: int| no_tabuleiro(l, c) implies #[trigger] peca_em(self@.tabuleiro, l, c) == (
                if l == 1 || l == 6 || ((l == 0 || l == 7) && c < coluna) {
                    peca_inicial(l, c)
                } else {
                    peca_em(old(self)@.tabuleiro, l, c)
                }) by {
                assert(peca_em(antes, l, c) == antes[l * 8 + c]);
            }
        }
    }
    /// Handles a click on square `pos`: moves the selected piece there when it
    /// may go there, else selects `pos` when it holds a piece of the side to
    /// move, else drops the selection.
    pub fn clicar_casa(&mut self, pos: Posicao)
        requires
            old(self)@.bem_formado(),
            pos.valida(),
        ensures
            final(self)@.bem_formado(),
            final(self)@ == apos_clique(old(self)@, pos),
            final(self)@.turno != old(self)@.turno
                <==> (old(self)@.selecionada is Some && old(self)@.movimentos.contains(pos)),
    {
        if let Some(origem) = self.selecionada {
            if self.movimento_valido(origem, pos) {
                self.mover_peca(origem, pos);
            } else {
                if let Some(peca) = self.get_peca(pos) {
                    if peca.cor == self.turno {
                        self.selecionada = Some(pos);
                        self.calcular_movimentos_validos(pos);
                    } else {
                        self.selecionada = None;
                        self.movimentos_validos.clear();
                    }
                } else {
                    self.selecionada = None;
                    self.movimentos_validos.clear();
                }
            }
        } else {
            if let Some(peca) = self.get_peca(pos) {
                if peca.cor == self.turno {
                    self.selecionada = Some(pos);
                    self.calcular_movimentos_validos(pos);
                }
            }
        }
        assert(self@.movimentos.len() == 0 ==> self@.movimentos =~= Seq::<Posicao>::empty());
    }

    /// The side to move.
    pub fn turno(&self) -> (r: Cor)
        ensures
            r == self@.turno,
    {
        self.turno
    }

    /// The selected square, if any.
    pub fn selecionada(&self) -> (r: Option<Posicao>)
        ensures
            r == self@.selecionada,
    {
        self.selecionada
    }

    /// The destinations of the selected piece, in the order generated.
    pub fn movimentos_validos(&self) -> (r: &Vec<Posicao>)
        ensures
            r@ == self@.movimentos,
    {
        &self.movimentos_validos
    }
}

} // verus!
